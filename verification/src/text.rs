//! Character-level text model: whitespace, trimming, lines, fields,
//! decimal numbers, and the executable routines that follow it.
use vstd::prelude::*;
use vstd::string::StringExecFns;

verus! {

/// `String::push` appends one character.
pub assume_specification[ String::push ](s: &mut String, ch: char)
    ensures
        final(s)@ == old(s)@.push(ch),
;

// ---------------------------------------------------------------------
// Specifications
// ---------------------------------------------------------------------

/// Unicode `White_Space`: the characters for which `char::is_whitespace` holds.
pub open spec fn is_space(c: char) -> bool {
    let u = c as u32;
    ||| 0x9 <= u <= 0xd
    ||| u == 0x20
    ||| u == 0x85
    ||| u == 0xa0
    ||| u == 0x1680
    ||| 0x2000 <= u <= 0x200a
    ||| u == 0x2028
    ||| u == 0x2029
    ||| u == 0x202f
    ||| u == 0x205f
    ||| u == 0x3000
}

/// What a strip removes from the ends of a text.
#[derive(Clone, Copy, PartialEq, Eq, Structural)]
pub enum Strip {
    /// Unicode whitespace (`str::trim`).
    Space,
    /// The double quote (`str::trim_matches('"')`).
    Quote,
}

pub open spec fn strips(k: Strip, c: char) -> bool {
    match k {
        Strip::Space => is_space(c),
        Strip::Quote => c == '"',
    }
}

/// `s` without its leading characters of kind `k`.
pub open spec fn lstrip(s: Seq<char>, k: Strip) -> Seq<char>
    decreases s.len(),
{
    if s.len() > 0 && strips(k, s[0]) {
        lstrip(s.drop_first(), k)
    } else {
        s
    }
}

/// `s` without its trailing characters of kind `k`.
pub open spec fn rstrip(s: Seq<char>, k: Strip) -> Seq<char>
    decreases s.len(),
{
    if s.len() > 0 && strips(k, s.last()) {
        rstrip(s.drop_last(), k)
    } else {
        s
    }
}

pub open spec fn strip(s: Seq<char>, k: Strip) -> Seq<char> {
    rstrip(lstrip(s, k), k)
}

/// `str::trim`.
pub open spec fn trim(s: Seq<char>) -> Seq<char> {
    strip(s, Strip::Space)
}

/// Position of the first `c` in `s`, or `s.len()` when there is none.
pub open spec fn find_char(s: Seq<char>, c: char) -> nat
    decreases s.len(),
{
    if s.len() == 0 {
        0
    } else if s[0] == c {
        0
    } else {
        1 + find_char(s.drop_first(), c)
    }
}

/// A line as `str::lines` yields it: the text before a `'\n'`, less one `'\r'` before it.
pub open spec fn strip_cr(l: Seq<char>) -> Seq<char> {
    if l.len() > 0 && l.last() == '\r' {
        l.drop_last()
    } else {
        l
    }
}

/// `str::lines`: lines end at `'\n'` (a `'\r'` just before it is dropped);
/// the last line needs no terminator, and no empty line follows a final `'\n'`.
pub open spec fn lines(s: Seq<char>) -> Seq<Seq<char>>
    decreases s.len(),
{
    if s.len() == 0 {
        Seq::empty()
    } else {
        let i = find_char(s, '\n');
        if i < s.len() {
            seq![strip_cr(s.take(i as int))] + lines(s.skip(i + 1int))
        } else {
            seq![s]
        }
    }
}

/// The text that `lines` reads back as `ls`: each line followed by `'\n'`.
pub open spec fn join_lines(ls: Seq<Seq<char>>) -> Seq<char>
    decreases ls.len(),
{
    if ls.len() == 0 {
        Seq::empty()
    } else {
        ls[0] + seq!['\n'] + join_lines(ls.drop_first())
    }
}

/// `str::split_once(c)`.
pub open spec fn split_once(s: Seq<char>, c: char) -> Option<(Seq<char>, Seq<char>)> {
    let i = find_char(s, c);
    if i < s.len() {
        Some((s.take(i as int), s.skip(i + 1int)))
    } else {
        None
    }
}

/// `s.split(c).nth(1)`: the text between the first and the second `c`.
pub open spec fn second_field(s: Seq<char>, c: char) -> Option<Seq<char>> {
    match split_once(s, c) {
        Some((_, rest)) => Some(rest.take(find_char(rest, c) as int)),
        None => None,
    }
}

pub open spec fn starts_with(s: Seq<char>, p: Seq<char>) -> bool {
    p.len() <= s.len() && s.take(p.len() as int) == p
}

pub open spec fn ends_with(s: Seq<char>, p: Seq<char>) -> bool {
    p.len() <= s.len() && s.skip(s.len() - p.len()) == p
}

pub open spec fn occurs_at(s: Seq<char>, p: Seq<char>, i: int) -> bool {
    0 <= i && i + p.len() <= s.len() && s.subrange(i, i + p.len()) == p
}

/// `str::contains` with a text pattern.
pub open spec fn contains(s: Seq<char>, p: Seq<char>) -> bool {
    exists|i: int| occurs_at(s, p, i)
}

/// `str::split_whitespace` on `s`, with the word `cur` already begun before it.
pub open spec fn words_from(s: Seq<char>, cur: Seq<char>) -> Seq<Seq<char>>
    decreases s.len(),
{
    if s.len() == 0 {
        if cur.len() > 0 {
            seq![cur]
        } else {
            Seq::empty()
        }
    } else if is_space(s[0]) {
        if cur.len() > 0 {
            seq![cur] + words_from(s.drop_first(), Seq::empty())
        } else {
            words_from(s.drop_first(), Seq::empty())
        }
    } else {
        words_from(s.drop_first(), cur.push(s[0]))
    }
}

/// `str::split_whitespace`: the maximal runs of non-whitespace characters.
pub open spec fn words(s: Seq<char>) -> Seq<Seq<char>> {
    words_from(s, Seq::empty())
}

/// The first of `ls` that starts with `p`.
pub open spec fn first_prefixed(ls: Seq<Seq<char>>, p: Seq<char>) -> Option<Seq<char>>
    decreases ls.len(),
{
    if ls.len() == 0 {
        None
    } else if starts_with(ls[0], p) {
        Some(ls[0])
    } else {
        first_prefixed(ls.drop_first(), p)
    }
}

/// How many of `ls` start with `p`.
pub open spec fn count_prefixed(ls: Seq<Seq<char>>, p: Seq<char>) -> nat
    decreases ls.len(),
{
    if ls.len() == 0 {
        0
    } else {
        (if starts_with(ls[0], p) {
            1nat
        } else {
            0nat
        }) + count_prefixed(ls.drop_first(), p)
    }
}

/// `str::replace` with a non-empty pattern: every occurrence of `pat`, found from the
/// left without overlap, replaced by `rep`.
pub open spec fn replace(s: Seq<char>, pat: Seq<char>, rep: Seq<char>) -> Seq<char>
    decreases s.len(),
{
    if s.len() == 0 {
        Seq::empty()
    } else if pat.len() > 0 && starts_with(s, pat) {
        rep + replace(s.skip(pat.len() as int), pat, rep)
    } else {
        seq![s[0]] + replace(s.drop_first(), pat, rep)
    }
}

/// A replacement whose pattern is a single character `c` leaves no `c` behind when
/// the replacement holds none, and brings in no character that neither `s` nor `rep` has.
pub proof fn lemma_replace_char(s: Seq<char>, c: char, rep: Seq<char>, x: char)
    requires
        !rep.contains(c),
    ensures
        !replace(s, seq![c], rep).contains(c),
        replace(s, seq![c], rep).contains(x) ==> s.contains(x) || rep.contains(x),
    decreases s.len(),
{
    if s.len() > 0 {
        let r = replace(s, seq![c], rep);
        if starts_with(s, seq![c]) {
            lemma_replace_char(s.skip(1), c, rep, x);
            let t = replace(s.skip(1), seq![c], rep);
            assert(r == rep + t);
            assert forall|j: int| 0 <= j < r.len() implies r[j] != c by {
                if j < rep.len() {
                    assert(r[j] == rep[j]);
                } else {
                    assert(r[j] == t[j - rep.len()]);
                }
            }
            if r.contains(x) {
                let j = choose|j: int| 0 <= j < r.len() && r[j] == x;
                if j >= rep.len() {
                    assert(t[j - rep.len()] == x);
                    if s.skip(1).contains(x) {
                        let k = choose|k: int| 0 <= k < s.skip(1).len() && s.skip(1)[k] == x;
                        assert(s[k + 1] == x);
                    }
                }
            }
        } else {
            lemma_replace_char(s.drop_first(), c, rep, x);
            let t = replace(s.drop_first(), seq![c], rep);
            assert(s.take(1) =~= seq![s[0]]);
            assert(s[0] != c);
            assert(r == seq![s[0]] + t);
            assert forall|j: int| 0 <= j < r.len() implies r[j] != c by {
                if j > 0 {
                    assert(r[j] == t[j - 1]);
                }
            }
            if r.contains(x) {
                let j = choose|j: int| 0 <= j < r.len() && r[j] == x;
                if j > 0 {
                    assert(t[j - 1] == x);
                    if s.drop_first().contains(x) {
                        let k = choose|k: int| 0 <= k < s.drop_first().len() && s.drop_first()[k] == x;
                        assert(s[k + 1] == x);
                    }
                }
            }
        }
    }
}

/// `find_char` in a text that begins with `a`.
pub proof fn lemma_find_char_prefix(a: Seq<char>, b: Seq<char>, c: char)
    ensures
        find_char(a + b, c) == if find_char(a, c) < a.len() {
            find_char(a, c)
        } else {
            a.len() + find_char(b, c)
        },
    decreases a.len(),
{
    if a.len() == 0 {
        assert(a + b == b);
    } else {
        assert((a + b)[0] == a[0]);
        if a[0] != c {
            assert((a + b).drop_first() == a.drop_first() + b);
            lemma_find_char_prefix(a.drop_first(), b, c);
        }
    }
}

/// `lines` of a text whose first part ends with a line break reads that part's lines,
/// then the rest's.
pub proof fn lemma_lines_append(x: Seq<char>, b: Seq<char>)
    requires
        x.len() > 0,
        x.last() == '\n',
    ensures
        lines(x + b) == lines(x) + lines(b),
    decreases x.len(),
{
    let i = find_char(x, '\n') as int;
    lemma_find_char_bound(x, '\n');
    if i >= x.len() {
        assert(x[x.len() - 1] == '\n');
        assert(false);
    }
    lemma_find_char_prefix(x, b, '\n');
    assert((x + b).take(i as int) == x.take(i as int));
    assert((x + b).skip(i + 1) == x.skip(i + 1) + b);
    if i + 1 == x.len() {
        assert(x.skip(i + 1) == Seq::<char>::empty());
        assert(Seq::<char>::empty() + b == b);
        assert(lines(x) == seq![strip_cr(x.take(i as int))] + lines(Seq::<char>::empty()));
    } else {
        let r = x.skip(i + 1);
        assert(r.last() == x.last());
        lemma_lines_append(r, b);
        assert(seq![strip_cr(x.take(i as int))] + (lines(r) + lines(b)) == (seq![
            strip_cr(x.take(i as int)),
        ] + lines(r)) + lines(b));
    }
}

/// A trailing whitespace character makes no difference to `trim`.
pub proof fn lemma_trim_drop_space(s: Seq<char>)
    requires
        s.len() > 0,
        is_space(s.last()),
    ensures
        trim(s) == trim(s.drop_last()),
    decreases s.len(),
{
    let k = Strip::Space;
    if is_space(s[0]) {
        if s.len() == 1 {
            assert(s.drop_first() == Seq::<char>::empty());
            assert(s.drop_last() == Seq::<char>::empty());
            assert(lstrip(s, k) == lstrip(Seq::<char>::empty(), k));
        } else {
            let t = s.drop_first();
            assert(t.last() == s.last());
            lemma_trim_drop_space(t);
            assert(s.drop_last()[0] == s[0]);
            assert(s.drop_last().drop_first() == t.drop_last());
            assert(lstrip(s.drop_last(), k) == lstrip(t.drop_last(), k));
        }
    } else {
        assert(s.len() >= 2);
        assert(s.drop_last()[0] == s[0]);
        assert(lstrip(s.drop_last(), k) == s.drop_last());
        assert(lstrip(s, k) == s);
    }
}

pub open spec fn is_digit(c: char) -> bool {
    c == '0' || c == '1' || c == '2' || c == '3' || c == '4' || c == '5' || c == '6' || c == '7'
        || c == '8' || c == '9'
}

pub open spec fn digit_value(c: char) -> nat {
    if c == '1' {
        1
    } else if c == '2' {
        2
    } else if c == '3' {
        3
    } else if c == '4' {
        4
    } else if c == '5' {
        5
    } else if c == '6' {
        6
    } else if c == '7' {
        7
    } else if c == '8' {
        8
    } else if c == '9' {
        9
    } else {
        0
    }
}

pub open spec fn all_digits(s: Seq<char>) -> bool {
    forall|i: int| 0 <= i < s.len() ==> is_digit(#[trigger] s[i])
}

/// The number that a string of decimal digits denotes.
pub open spec fn digits_value(s: Seq<char>) -> nat
    decreases s.len(),
{
    if s.len() == 0 {
        0
    } else {
        digits_value(s.drop_last()) * 10 + digit_value(s.last())
    }
}

/// What `str::parse` accepts for an unsigned integer: an optional `'+'`,
/// then one or more ASCII digits; the number they denote.
pub open spec fn parse_nat(s: Seq<char>) -> Option<nat> {
    let d = if s.len() > 0 && s[0] == '+' {
        s.drop_first()
    } else {
        s
    };
    if d.len() > 0 && all_digits(d) {
        Some(digits_value(d))
    } else {
        None
    }
}

/// `str::parse::<u64>().ok()`.
pub open spec fn parse_u64(s: Seq<char>) -> Option<u64> {
    match parse_nat(s) {
        Some(n) => if n <= u64::MAX {
            Some(n as u64)
        } else {
            None
        },
        None => None,
    }
}

/// `str::parse::<u32>().ok()`.
pub open spec fn parse_u32(s: Seq<char>) -> Option<u32> {
    match parse_nat(s) {
        Some(n) => if n <= u32::MAX {
            Some(n as u32)
        } else {
            None
        },
        None => None,
    }
}

pub open spec fn digit_char(d: nat) -> char {
    if d == 1 {
        '1'
    } else if d == 2 {
        '2'
    } else if d == 3 {
        '3'
    } else if d == 4 {
        '4'
    } else if d == 5 {
        '5'
    } else if d == 6 {
        '6'
    } else if d == 7 {
        '7'
    } else if d == 8 {
        '8'
    } else if d == 9 {
        '9'
    } else {
        '0'
    }
}

/// The decimal notation of `n` that `format!("{}", n)` writes.
pub open spec fn decimal(n: nat) -> Seq<char>
    decreases n,
{
    if n < 10 {
        seq![digit_char(n)]
    } else {
        decimal(n / 10).push(digit_char(n % 10))
    }
}

/// The text of a boolean as `format!("{}", b)` writes it.
pub open spec fn bool_text(b: bool) -> Seq<char> {
    if b {
        "true"@
    } else {
        "false"@
    }
}

// ---------------------------------------------------------------------
// Lemmas
// ---------------------------------------------------------------------

pub proof fn lemma_find_char_bound(s: Seq<char>, c: char)
    ensures
        find_char(s, c) <= s.len(),
        find_char(s, c) < s.len() ==> s[find_char(s, c) as int] == c,
        forall|j: int| 0 <= j < find_char(s, c) ==> s[j] != c,
    decreases s.len(),
{
    if s.len() > 0 && s[0] != c {
        lemma_find_char_bound(s.drop_first(), c);
        assert forall|j: int| 0 <= j < find_char(s, c) implies s[j] != c by {
            if j > 0 {
                assert(s[j] == s.drop_first()[j - 1]);
            }
        }
    }
}

/// `find_char` in a text whose first part holds no `c`.
pub proof fn lemma_find_char_append(a: Seq<char>, b: Seq<char>, c: char)
    requires
        forall|j: int| 0 <= j < a.len() ==> a[j] != c,
    ensures
        find_char(a + b, c) == a.len() + find_char(b, c),
    decreases a.len(),
{
    if a.len() > 0 {
        assert((a + b).drop_first() == a.drop_first() + b);
        lemma_find_char_append(a.drop_first(), b, c);
    } else {
        assert(a + b == b);
    }
}

/// `lines` reads one terminated line off the front of a text.
pub proof fn lemma_lines_cons(l: Seq<char>, rest: Seq<char>)
    requires
        forall|j: int| 0 <= j < l.len() ==> l[j] != '\n',
        l.len() == 0 || l.last() != '\r',
    ensures
        lines(l + seq!['\n'] + rest) == seq![l] + lines(rest),
{
    let s = l + seq!['\n'] + rest;
    assert(l + seq!['\n'] + rest == l + (seq!['\n'] + rest));
    lemma_find_char_append(l, seq!['\n'] + rest, '\n');
    assert((seq!['\n'] + rest)[0] == '\n');
    assert(find_char(seq!['\n'] + rest, '\n') == 0);
    assert(s.take(l.len() as int) == l);
    assert(s.skip(l.len() + 1int) == rest);
}

/// `lines` gives back the lines that `join_lines` joined.
pub proof fn lemma_lines_join(ls: Seq<Seq<char>>)
    requires
        forall|i: int, j: int|
            0 <= i < ls.len() && 0 <= j < ls[i].len() ==> #[trigger] ls[i][j] != '\n',
        forall|i: int| 0 <= i < ls.len() ==> (#[trigger] ls[i]).len() == 0 || ls[i].last() != '\r',
    ensures
        lines(join_lines(ls)) == ls,
    decreases ls.len(),
{
    if ls.len() > 0 {
        let l = ls[0];
        assert forall|j: int| 0 <= j < l.len() implies l[j] != '\n' by {
            assert(ls[0][j] != '\n');
        }
        lemma_lines_cons(l, join_lines(ls.drop_first()));
        lemma_lines_join(ls.drop_first());
        assert(seq![l] + ls.drop_first() == ls);
    }
}

/// A run of digits has no whitespace at either end, so `trim` keeps it.
pub proof fn lemma_strip_keeps(s: Seq<char>, k: Strip)
    requires
        s.len() == 0 || (!strips(k, s[0]) && !strips(k, s.last())),
    ensures
        strip(s, k) == s,
{
}

/// Stripping a text that starts with one strippable character.
pub proof fn lemma_strip_drops_first(c: char, s: Seq<char>, k: Strip)
    requires
        strips(k, c),
        s.len() > 0,
        !strips(k, s[0]),
        !strips(k, s.last()),
    ensures
        strip(seq![c] + s, k) == s,
{
    assert((seq![c] + s).drop_first() == s);
    assert(lstrip(seq![c] + s, k) == lstrip(s, k));
    assert(lstrip(s, k) == s);
    assert(rstrip(s, k) == s);
}

pub proof fn lemma_digits_prefix(s: Seq<char>, k: int)
    requires
        0 <= k <= s.len(),
    ensures
        digits_value(s.take(k)) <= digits_value(s),
    decreases s.len(),
{
    if k < s.len() {
        assert(s.drop_last().take(k) == s.take(k));
        lemma_digits_prefix(s.drop_last(), k);
    } else {
        assert(s.take(k) == s);
    }
}

pub proof fn lemma_digits_take_step(s: Seq<char>, i: int)
    requires
        0 <= i < s.len(),
    ensures
        digits_value(s.take(i + 1)) == digits_value(s.take(i)) * 10 + digit_value(s[i]),
{
    assert(s.take(i + 1).drop_last() == s.take(i));
}

pub proof fn lemma_digit_char(d: nat)
    requires
        d < 10,
    ensures
        is_digit(digit_char(d)),
        digit_value(digit_char(d)) == d,
        digit_char(d) != '+',
{
}

pub proof fn lemma_decimal_shape(n: nat)
    ensures
        decimal(n).len() > 0,
        all_digits(decimal(n)),
        digits_value(decimal(n)) == n,
    decreases n,
{
    lemma_digit_char(n % 10);
    if n < 10 {
        assert(decimal(n).drop_last() == Seq::<char>::empty());
        assert(digits_value(Seq::<char>::empty()) == 0);
        assert(n % 10 == n);
        assert(digits_value(decimal(n)) == digits_value(decimal(n).drop_last()) * 10 + digit_value(decimal(n).last()));
    } else {
        lemma_decimal_shape(n / 10);
        let d = decimal(n / 10);
        assert(decimal(n).drop_last() == d);
        assert(decimal(n).last() == digit_char(n % 10));
        assert(digits_value(decimal(n)) == digits_value(d) * 10 + digit_value(digit_char(n % 10)));
        assert(n == (n / 10) * 10 + n % 10);
        assert forall|i: int| 0 <= i < decimal(n).len() implies is_digit(#[trigger] decimal(n)[i]) by {
            if i < d.len() {
                assert(decimal(n)[i] == d[i]);
            }
        }
    }
}

/// `str::parse` reads back the decimal notation of a number.
pub proof fn lemma_parse_decimal(n: nat)
    ensures
        parse_nat(decimal(n)) == Some(n),
{
    lemma_decimal_shape(n);
    assert(is_digit(decimal(n)[0]));
}

// ---------------------------------------------------------------------
// Executable routines
// ---------------------------------------------------------------------

/// The lowercase mapping of a text that `str::to_lowercase` computes
/// (Unicode `Lowercase` mapping, with the final-sigma rule); it depends on the text alone.
pub uninterp spec fn lowercase(s: Seq<char>) -> Seq<char>;

/// Calls `str::to_lowercase`. Claimed: the result is `lowercase` of the argument's
/// characters. Nothing more is stated of the mapping itself.
#[verifier::external_body]
pub(crate) fn to_lowercase(s: &str) -> (r: String)
    ensures
        r@ == lowercase(s@),
{
    s.to_lowercase()
}

/// The characters of `s`, in order.
pub fn chars_of(s: &str) -> (v: Vec<char>)
    ensures
        v@ == s@,
{
    let mut v: Vec<char> = Vec::new();
    for c in it: s.chars()
        invariant
            v@ == it.seq().take(it.index() as int),
    {
        v.push(c);
    }
    v
}

/// A string holding the characters `v[lo..hi]`.
pub fn string_of(v: &Vec<char>, lo: usize, hi: usize) -> (s: String)
    requires
        lo <= hi <= v.len(),
    ensures
        s@ == v@.subrange(lo as int, hi as int),
{
    let mut s = String::new();
    let mut i: usize = lo;
    while i < hi
        invariant
            lo <= i <= hi <= v.len(),
            s@ == v@.subrange(lo as int, i as int),
        decreases hi - i,
    {
        s.push(v[i]);
        i = i + 1;
        assert(s@ == v@.subrange(lo as int, i as int));
    }
    s
}

/// `a` followed by `b`.
pub fn concat(a: &str, b: &str) -> (s: String)
    ensures
        s@ == a@ + b@,
{
    let mut s = String::from_str(a);
    s.append(b);
    s
}

/// `a`, `b` and `c`, one after the other.
pub fn concat3(a: &str, b: &str, c: &str) -> (s: String)
    ensures
        s@ == a@ + b@ + c@,
{
    let mut s = String::from_str(a);
    s.append(b);
    s.append(c);
    s
}

pub fn is_space_char(c: char) -> (b: bool)
    ensures
        b == is_space(c),
{
    let u = c as u32;
    (0x9 <= u && u <= 0xd) || u == 0x20 || u == 0x85 || u == 0xa0 || u == 0x1680 || (0x2000 <= u
        && u <= 0x200a) || u == 0x2028 || u == 0x2029 || u == 0x202f || u == 0x205f || u == 0x3000
}

fn strips_char(k: Strip, c: char) -> (b: bool)
    ensures
        b == strips(k, c),
{
    match k {
        Strip::Space => is_space_char(c),
        Strip::Quote => c == '"',
    }
}

/// The window `v[lo..hi]` stripped of characters of kind `k` at both ends.
pub fn strip_window(v: &Vec<char>, lo: usize, hi: usize, k: Strip) -> (r: (usize, usize))
    requires
        lo <= hi <= v.len(),
    ensures
        lo <= r.0 <= r.1 <= hi,
        v@.subrange(r.0 as int, r.1 as int) == strip(v@.subrange(lo as int, hi as int), k),
{
    let mut a = lo;
    while a < hi && strips_char(k, v[a])
        invariant
            lo <= a <= hi <= v.len(),
            lstrip(v@.subrange(lo as int, hi as int), k) == lstrip(
                v@.subrange(a as int, hi as int),
                k,
            ),
        decreases hi - a,
    {
        assert(v@.subrange(a as int, hi as int).drop_first() == v@.subrange(a + 1, hi as int));
        a = a + 1;
    }
    assert(lstrip(v@.subrange(a as int, hi as int), k) == v@.subrange(a as int, hi as int));
    let mut b = hi;
    while b > a && strips_char(k, v[b - 1])
        invariant
            lo <= a <= b <= hi <= v.len(),
            strip(v@.subrange(lo as int, hi as int), k) == rstrip(
                v@.subrange(a as int, b as int),
                k,
            ),
        decreases b - a,
    {
        assert(v@.subrange(a as int, b as int).drop_last() == v@.subrange(a as int, b - 1));
        b = b - 1;
    }
    (a, b)
}

/// The window `v[lo..hi]` trimmed of whitespace.
pub fn trim_window(v: &Vec<char>, lo: usize, hi: usize) -> (r: (usize, usize))
    requires
        lo <= hi <= v.len(),
    ensures
        lo <= r.0 <= r.1 <= hi,
        v@.subrange(r.0 as int, r.1 as int) == trim(v@.subrange(lo as int, hi as int)),
{
    strip_window(v, lo, hi, Strip::Space)
}

/// Position of the first `c` in `v[lo..hi]`, or `hi`.
pub fn find_char_in(v: &Vec<char>, lo: usize, hi: usize, c: char) -> (i: usize)
    requires
        lo <= hi <= v.len(),
    ensures
        lo <= i <= hi,
        i - lo == find_char(v@.subrange(lo as int, hi as int), c),
{
    let mut i = lo;
    while i < hi && v[i] != c
        invariant
            lo <= i <= hi <= v.len(),
            find_char(v@.subrange(lo as int, hi as int), c) == (i - lo) + find_char(
                v@.subrange(i as int, hi as int),
                c,
            ),
        decreases hi - i,
    {
        assert(v@.subrange(i as int, hi as int).drop_first() == v@.subrange(i + 1, hi as int));
        i = i + 1;
    }
    i
}

/// The line that starts at `pos`: its window and where the next line starts.
pub fn next_line(v: &Vec<char>, pos: usize) -> (r: (usize, usize, usize))
    requires
        pos < v.len(),
    ensures
        pos <= r.0 <= r.1 <= r.2 <= v.len(),
        r.2 > pos,
        lines(v@.skip(pos as int)) == seq![v@.subrange(r.0 as int, r.1 as int)] + lines(
            v@.skip(r.2 as int),
        ),
{
    let n = v.len();
    let i = find_char_in(v, pos, n, '\n');
    let ghost s = v@.skip(pos as int);
    assert(v@.subrange(pos as int, n as int) == s);
    if i < n {
        assert(s.take(i - pos) == v@.subrange(pos as int, i as int));
        assert(s.skip(i - pos + 1) == v@.skip(i + 1));
        if i > pos && v[i - 1] == '\r' {
            assert(v@.subrange(pos as int, i as int).drop_last() == v@.subrange(
                pos as int,
                i - 1,
            ));
            (pos, i - 1, i + 1)
        } else {
            (pos, i, i + 1)
        }
    } else {
        assert(v@.skip(n as int) == Seq::<char>::empty());
        (pos, n, n)
    }
}


/// The first line of `v` that starts with `p`, as a window.
pub fn find_line_with_prefix(v: &Vec<char>, p: &str) -> (r: Option<(usize, usize)>)
    ensures
        match first_prefixed(lines(v@), p@) {
            Some(l) => r matches Some(w) && w.0 <= w.1 <= v.len() && v@.subrange(
                w.0 as int,
                w.1 as int,
            ) == l,
            None => r is None,
        },
{
    let mut pos: usize = 0;
    assert(v@.skip(0) == v@);
    while pos < v.len()
        invariant
            pos <= v.len(),
            first_prefixed(lines(v@), p@) == first_prefixed(lines(v@.skip(pos as int)), p@),
        decreases v.len() - pos,
    {
        let (a, b, next) = next_line(v, pos);
        let ghost l = v@.subrange(a as int, b as int);
        assert((seq![l] + lines(v@.skip(next as int))).drop_first() == lines(
            v@.skip(next as int),
        ));
        if window_starts_with(v, a, b, p) {
            return Some((a, b));
        }
        pos = next;
    }
    assert(v@.skip(pos as int) == Seq::<char>::empty());
    None
}

/// How many lines of `v` start with `p`.
pub fn count_lines_with_prefix(v: &Vec<char>, p: &str) -> (n: usize)
    ensures
        n as nat == count_prefixed(lines(v@), p@),
{
    let mut pos: usize = 0;
    let mut n: usize = 0;
    assert(v@.skip(0) == v@);
    while pos < v.len()
        invariant
            pos <= v.len(),
            n <= pos,
            count_prefixed(lines(v@), p@) == n + count_prefixed(lines(v@.skip(pos as int)), p@),
        decreases v.len() - pos,
    {
        let (a, b, next) = next_line(v, pos);
        let ghost l = v@.subrange(a as int, b as int);
        assert((seq![l] + lines(v@.skip(next as int))).drop_first() == lines(
            v@.skip(next as int),
        ));
        if window_starts_with(v, a, b, p) {
            n = n + 1;
        }
        pos = next;
    }
    assert(v@.skip(pos as int) == Seq::<char>::empty());
    n
}

/// The words of the window `v[lo..hi]`, as windows, in order.
pub fn words_in(v: &Vec<char>, lo: usize, hi: usize) -> (r: Vec<(usize, usize)>)
    requires
        lo <= hi <= v.len(),
    ensures
        r.len() == words(v@.subrange(lo as int, hi as int)).len(),
        forall|k: int| 0 <= k < r.len() ==> (#[trigger] r[k]).0 <= r[k].1 && r[k].1 <= hi,
        forall|k: int|
            0 <= k < r.len() ==> v@.subrange(
                r[k].0 as int,
                r[k].1 as int,
            ) == #[trigger] words(v@.subrange(lo as int, hi as int))[k],
{
    let ghost all = words(v@.subrange(lo as int, hi as int));
    let mut r: Vec<(usize, usize)> = Vec::new();
    let ghost mut done: Seq<Seq<char>> = Seq::empty();
    let mut start = lo;
    let mut i = lo;
    assert(v@.subrange(lo as int, lo as int) == Seq::<char>::empty());
    while i < hi
        invariant
            lo <= start <= i <= hi <= v.len(),
            all == done + words_from(
                v@.subrange(i as int, hi as int),
                v@.subrange(start as int, i as int),
            ),
            r.len() == done.len(),
            forall|k: int| 0 <= k < r.len() ==> (#[trigger] r[k]).0 <= r[k].1 && r[k].1 <= hi,
            forall|k: int|
                0 <= k < r.len() ==> v@.subrange(
                    r[k].0 as int,
                    r[k].1 as int,
                ) == #[trigger] done[k],
        decreases hi - i,
    {
        let ghost rest = v@.subrange(i as int, hi as int);
        let ghost cur = v@.subrange(start as int, i as int);
        assert(rest.drop_first() == v@.subrange(i + 1, hi as int));
        assert(rest[0] == v[i as int]);
        if is_space_char(v[i]) {
            if start < i {
                let ghost old_r = r@;
                r.push((start, i));
                proof {
                    assert(done.push(cur) + words_from(rest.drop_first(), Seq::empty()) == done + (
                    seq![cur] + words_from(rest.drop_first(), Seq::empty())));
                    let ghost old_done = done;
                    done = done.push(cur);
                    assert forall|k: int| 0 <= k < r.len() implies v@.subrange(r[k].0 as int, r[k].1 as int) == #[trigger] done[k] by {
                        if k < old_done.len() {
                            assert(r[k] == old_r[k]);
                            assert(done[k] == old_done[k]);
                        }
                    }
                }
            }
            i = i + 1;
            start = i;
            assert(v@.subrange(start as int, i as int) == Seq::<char>::empty());
        } else {
            assert(cur.push(v[i as int]) == v@.subrange(start as int, i + 1));
            i = i + 1;
        }
    }
    let ghost cur = v@.subrange(start as int, i as int);
    assert(v@.subrange(i as int, hi as int) == Seq::<char>::empty());
    if start < i {
        let ghost old_r = r@;
        r.push((start, i));
        proof {
            assert(done + seq![cur] == done.push(cur));
            let ghost old_done = done;
            done = done.push(cur);
            assert forall|k: int| 0 <= k < r.len() implies v@.subrange(r[k].0 as int, r[k].1 as int) == #[trigger] done[k] by {
                if k < old_done.len() {
                    assert(r[k] == old_r[k]);
                    assert(done[k] == old_done[k]);
                }
            }
        }
    } else {
        assert(done + Seq::<Seq<char>>::empty() == done);
    }
    assert(all == done);
    assert forall|k: int| 0 <= k < r.len() implies v@.subrange(
        r[k].0 as int,
        r[k].1 as int,
    ) == #[trigger] words(v@.subrange(lo as int, hi as int))[k] by {
        assert(done[k] == all[k]);
    }
    r
}

/// The texts of a list of strings.
pub open spec fn texts(v: Seq<String>) -> Seq<Seq<char>> {
    v.map_values(|s: String| s@)
}

/// Appends a copy of `a` to a list of strings.
pub fn push_text(v: &mut Vec<String>, a: &str)
    ensures
        texts(final(v)@) == texts(old(v)@).push(a@),
{
    v.push(String::from_str(a));
    assert(texts(final(v)@) =~= texts(old(v)@).push(a@));
}

/// Appends `a` to a list of strings.
pub fn push_string(v: &mut Vec<String>, a: String)
    ensures
        texts(final(v)@) == texts(old(v)@).push(a@),
{
    let ghost t = a@;
    v.push(a);
    assert(texts(final(v)@) =~= texts(old(v)@).push(t));
}

/// The texts of a list of pairs of strings.
pub open spec fn pair_texts(v: Seq<(String, String)>) -> Seq<(Seq<char>, Seq<char>)> {
    v.map_values(|p: (String, String)| (p.0@, p.1@))
}

/// Appends a pair of copies of `k` and `val` to a list of pairs of strings.
pub fn push_pair(v: &mut Vec<(String, String)>, k: &str, val: &str)
    ensures
        pair_texts(final(v)@) == pair_texts(old(v)@).push((k@, val@)),
{
    v.push((String::from_str(k), String::from_str(val)));
    assert(pair_texts(final(v)@) =~= pair_texts(old(v)@).push((k@, val@)));
}

/// `s.replace(pat, rep)` for a non-empty `pat`.
pub fn replace_text(s: &str, pat: &str, rep: &str) -> (r: String)
    requires
        pat@.len() > 0,
    ensures
        r@ == replace(s@, pat@, rep@),
{
    let v = chars_of(s);
    let pc = chars_of(pat);
    let mut out = String::new();
    let mut i: usize = 0;
    assert(v@.skip(0) == v@);
    while i < v.len()
        invariant
            i <= v.len(),
            v@ == s@,
            pc@ == pat@,
            pc.len() > 0,
            out@ + replace(v@.skip(i as int), pat@, rep@) == replace(s@, pat@, rep@),
        decreases v.len() - i,
    {
        let ghost rest = v@.skip(i as int);
        let ghost before = out@;
        if occurs_at_exec(&v, i, &pc) {
            assert(rest.take(pc.len() as int) == v@.subrange(i as int, i + pc.len()));
            assert(rest.skip(pc.len() as int) == v@.skip(i + pc.len()));
            out.append(rep);
            i = i + pc.len();
        } else {
            assert(!starts_with(rest, pat@)) by {
                if starts_with(rest, pat@) {
                    assert(rest.take(pc.len() as int) == v@.subrange(i as int, i + pc.len()));
                }
            }
            assert(rest.drop_first() == v@.skip(i + 1));
            assert(rest[0] == v@[i as int]);
            out.push(v[i]);
            assert(out@ == before + seq![rest[0]]);
            i = i + 1;
        }
    }
    assert(v@.skip(i as int) == Seq::<char>::empty());
    out
}

/// Whether `p` occurs in `v` at `at`.
pub fn occurs_at_exec(v: &Vec<char>, at: usize, p: &Vec<char>) -> (b: bool)
    ensures
        b == occurs_at(v@, p@, at as int),
{
    if p.len() > v.len() || at > v.len() - p.len() {
        return false;
    }
    let mut j: usize = 0;
    while j < p.len()
        invariant
            j <= p.len(),
            at + p.len() <= v.len(),
            v@.subrange(at as int, at + j) == p@.take(j as int),
        decreases p.len() - j,
    {
        if v[at + j] != p[j] {
            assert(v@.subrange(at as int, at + p.len())[j as int] != p@[j as int]);
            return false;
        }
        assert(v@.subrange(at as int, at + j + 1) == v@.subrange(at as int, at + j).push(
            v@[at + j],
        ));
        assert(p@.take(j + 1) == p@.take(j as int).push(p@[j as int]));
        j = j + 1;
    }
    assert(p@.take(p.len() as int) == p@);
    true
}

/// Whether the window `v[lo..hi]` is the text `p`.
pub fn window_is(v: &Vec<char>, lo: usize, hi: usize, p: &str) -> (b: bool)
    requires
        lo <= hi <= v.len(),
    ensures
        b == (v@.subrange(lo as int, hi as int) == p@),
{
    let pc = chars_of(p);
    if hi - lo != pc.len() {
        return false;
    }
    occurs_at_exec(v, lo, &pc)
}

/// Whether the window `v[lo..hi]` starts with the text `p`.
pub fn window_starts_with(v: &Vec<char>, lo: usize, hi: usize, p: &str) -> (b: bool)
    requires
        lo <= hi <= v.len(),
    ensures
        b == starts_with(v@.subrange(lo as int, hi as int), p@),
{
    let pc = chars_of(p);
    if hi - lo < pc.len() {
        return false;
    }
    let b = occurs_at_exec(v, lo, &pc);
    assert(v@.subrange(lo as int, hi as int).take(pc.len() as int) == v@.subrange(
        lo as int,
        lo + pc.len(),
    ));
    b
}

/// `s.starts_with(p)`.
pub fn str_starts_with(s: &str, p: &str) -> (b: bool)
    ensures
        b == starts_with(s@, p@),
{
    let v = chars_of(s);
    assert(v@.subrange(0, v.len() as int) == v@);
    window_starts_with(&v, 0, v.len(), p)
}

/// `s.ends_with(p)`.
pub fn str_ends_with(s: &str, p: &str) -> (b: bool)
    ensures
        b == ends_with(s@, p@),
{
    let v = chars_of(s);
    let pc = chars_of(p);
    if pc.len() > v.len() {
        return false;
    }
    let b = occurs_at_exec(&v, v.len() - pc.len(), &pc);
    assert(v@.skip(v.len() - pc.len()) == v@.subrange(v.len() - pc.len(), v.len() as int));
    b
}

/// `s == p`.
pub fn str_eq(s: &str, p: &str) -> (b: bool)
    ensures
        b == (s@ == p@),
{
    let v = chars_of(s);
    assert(v@.subrange(0, v.len() as int) == v@);
    window_is(&v, 0, v.len(), p)
}

/// `s.contains(p)`.
pub fn str_contains(s: &str, p: &str) -> (b: bool)
    ensures
        b == contains(s@, p@),
{
    let v = chars_of(s);
    let pc = chars_of(p);
    if pc.len() == 0 {
        assert(s@.subrange(0, 0) =~= p@);
        assert(occurs_at(s@, p@, 0));
        return true;
    }
    if pc.len() > v.len() {
        assert(!contains(s@, p@));
        return false;
    }
    let last = v.len() - pc.len();
    let mut i: usize = 0;
    while i < last + 1
        invariant
            last == v.len() - pc.len(),
            last < v.len(),
            v@ == s@,
            pc@ == p@,
            i <= last + 1,
            forall|j: int| 0 <= j < i ==> !occurs_at(s@, p@, j),
        decreases last + 1 - i,
    {
        if occurs_at_exec(&v, i, &pc) {
            return true;
        }
        i = i + 1;
    }
    assert forall|j: int| !occurs_at(s@, p@, j) by {
        if 0 <= j <= last {
            assert(!occurs_at(s@, p@, j));
        }
    }
    false
}

/// `s.trim()`, as a new string.
pub fn trimmed(s: &str) -> (r: String)
    ensures
        r@ == trim(s@),
{
    let v = chars_of(s);
    assert(v@.subrange(0, v.len() as int) == v@);
    let (a, b) = trim_window(&v, 0, v.len());
    string_of(&v, a, b)
}

/// `v[lo..hi].parse::<u64>().ok()`.
pub fn parse_u64_window(v: &Vec<char>, lo: usize, hi: usize) -> (r: Option<u64>)
    requires
        lo <= hi <= v.len(),
    ensures
        r == parse_u64(v@.subrange(lo as int, hi as int)),
{
    let ghost s = v@.subrange(lo as int, hi as int);
    let mut a = lo;
    if a < hi && v[a] == '+' {
        a = a + 1;
    }
    let ghost d = v@.subrange(a as int, hi as int);
    assert(d == (if s.len() > 0 && s[0] == '+' {
        s.drop_first()
    } else {
        s
    }));
    if a == hi {
        return None;
    }
    let mut acc: u64 = 0;
    let mut i = a;
    while i < hi
        invariant
            lo <= a <= i <= hi <= v.len(),
            d == v@.subrange(a as int, hi as int),
            s == v@.subrange(lo as int, hi as int),
            d == (if s.len() > 0 && s[0] == '+' {
                s.drop_first()
            } else {
                s
            }),
            d.len() > 0,
            all_digits(d.take(i - a)),
            acc as nat == digits_value(d.take(i - a)),
        decreases hi - i,
    {
        let c = v[i];
        assert(c == d[i - a]);
        if !is_digit_char(c) {
            assert(!is_digit(d[i - a]));
            return None;
        }
        proof {
            lemma_digits_take_step(d, i - a);
            assert forall|j: int| 0 <= j < i + 1 - a implies is_digit(#[trigger] d.take(i + 1 - a)[j]) by {
                if j < i - a {
                    assert(d.take(i + 1 - a)[j] == d.take(i - a)[j]);
                }
            }
        }
        let dv = digit_of(c);
        match acc.checked_mul(10) {
            Some(m) => match m.checked_add(dv) {
                Some(x) => {
                    acc = x;
                },
                None => {
                    proof {
                        lemma_digits_prefix(d, i + 1 - a);
                        if all_digits(d) {
                        }
                    }
                    return None;
                },
            },
            None => {
                proof {
                    lemma_digits_prefix(d, i + 1 - a);
                }
                return None;
            },
        }
        i = i + 1;
    }
    assert(d.take(i - a) == d);
    Some(acc)
}

/// `s.parse::<u64>().ok()`.
pub fn parse_u64_str(s: &str) -> (r: Option<u64>)
    ensures
        r == parse_u64(s@),
{
    let v = chars_of(s);
    assert(v@.subrange(0, v.len() as int) == v@);
    parse_u64_window(&v, 0, v.len())
}

/// `v[lo..hi].parse::<u32>().ok()`.
pub fn parse_u32_window(v: &Vec<char>, lo: usize, hi: usize) -> (r: Option<u32>)
    requires
        lo <= hi <= v.len(),
    ensures
        r == parse_u32(v@.subrange(lo as int, hi as int)),
{
    match parse_u64_window(v, lo, hi) {
        Some(n) => if n <= u32::MAX as u64 {
            Some(n as u32)
        } else {
            None
        },
        None => None,
    }
}

/// Appends the decimal notation of `n`.
pub fn push_decimal(s: &mut String, n: u64)
    ensures
        final(s)@ == old(s)@ + decimal(n as nat),
    decreases n,
{
    if n >= 10 {
        push_decimal(s, n / 10);
    }
    let c = char_of_digit((n % 10) as u32);
    s.push(c);
}

pub fn is_digit_char(c: char) -> (b: bool)
    ensures
        b == is_digit(c),
{
    c == '0' || c == '1' || c == '2' || c == '3' || c == '4' || c == '5' || c == '6' || c == '7'
        || c == '8' || c == '9'
}

fn digit_of(c: char) -> (d: u64)
    requires
        is_digit(c),
    ensures
        d as nat == digit_value(c),
        d < 10,
{
    if c == '1' {
        1
    } else if c == '2' {
        2
    } else if c == '3' {
        3
    } else if c == '4' {
        4
    } else if c == '5' {
        5
    } else if c == '6' {
        6
    } else if c == '7' {
        7
    } else if c == '8' {
        8
    } else if c == '9' {
        9
    } else {
        0
    }
}

fn char_of_digit(d: u32) -> (c: char)
    requires
        d < 10,
    ensures
        c == digit_char(d as nat),
{
    if d == 0 {
        '0'
    } else if d == 1 {
        '1'
    } else if d == 2 {
        '2'
    } else if d == 3 {
        '3'
    } else if d == 4 {
        '4'
    } else if d == 5 {
        '5'
    } else if d == 6 {
        '6'
    } else if d == 7 {
        '7'
    } else if d == 8 {
        '8'
    } else {
        '9'
    }
}

/// Appends `"true"` or `"false"`.
pub fn push_bool(s: &mut String, b: bool)
    ensures
        final(s)@ == old(s)@ + bool_text(b),
{
    if b {
        s.append("true");
    } else {
        s.append("false");
    }
}

} // verus!
