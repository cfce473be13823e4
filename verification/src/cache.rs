//! The hardware cache: the text it is saved as, how it is read back, and when
//! a saved copy is still used.
use vstd::prelude::*;
use vstd::string::StringExecFns;
use crate::hw::{vendor_label, vendor_name, GpuVendor, HwInfo};
use crate::text::{
    bool_text, chars_of, concat, decimal, find_char, find_char_in, find_line_with_prefix,
    first_prefixed, is_digit, join_lines, lemma_decimal_shape, lemma_find_char_append,
    lemma_lines_join, lemma_parse_decimal, lemma_strip_drops_first, lemma_strip_keeps, lines,
    parse_u32, parse_u32_window, parse_u64, parse_u64_window, push_bool, push_decimal,
    second_field, split_once, starts_with, strip, strips, strip_window, trim, trim_window, window_is,
    Strip,
};

verus! {

/// A cache younger than a week is used.
pub const CACHE_MAX_AGE_SECS: u64 = 604800;

/// Where the cache is kept.
pub fn cache_path(home: &str) -> (p: String)
    ensures
        p@ == home@ + "/.config/split/hw.cache"@,
{
    concat(home, "/.config/split/hw.cache")
}

/// Whether a cache of this age (in seconds) is still used.
pub fn cache_is_fresh(age_secs: u64) -> (b: bool)
    ensures
        b == (age_secs < CACHE_MAX_AGE_SECS),
{
    age_secs < CACHE_MAX_AGE_SECS
}

// ---------------------------------------------------------------------
// Saving
// ---------------------------------------------------------------------

/// The lines of the cache text, one per field.
pub open spec fn cache_lines(hw: HwInfo) -> Seq<Seq<char>> {
    seq![
        "gpu_vendor  = \""@ + vendor_label(hw.gpu_vendor) + "\""@,
        "vram_mb     = "@ + decimal(hw.vram_mb as nat),
        "is_igpu     = "@ + bool_text(hw.is_igpu),
        "cpu_threads = "@ + decimal(hw.cpu_threads as nat),
        "cpu_mhz     = "@ + decimal(hw.cpu_mhz as nat),
        "ram_mb      = "@ + decimal(hw.ram_mb as nat),
    ]
}

/// The text the cache is saved as.
pub open spec fn cache_text(hw: HwInfo) -> Seq<char> {
    join_lines(cache_lines(hw))
}

fn push_line_end(s: &mut String)
    ensures
        final(s)@ == old(s)@ + seq!['\n'],
{
    s.push('\n');
}

/// The cache text for `hw`.
pub fn save_hw_cache(hw: &HwInfo) -> (s: String)
    ensures
        s@ == cache_text(*hw),
{
    let ghost ls = cache_lines(*hw);
    let mut s = String::from_str("gpu_vendor  = \"");
    s.append(vendor_name(hw.gpu_vendor));
    s.append("\"");
    let ghost l0 = s@;
    push_line_end(&mut s);
    s.append("vram_mb     = ");
    push_decimal(&mut s, hw.vram_mb);
    push_line_end(&mut s);
    s.append("is_igpu     = ");
    push_bool(&mut s, hw.is_igpu);
    push_line_end(&mut s);
    s.append("cpu_threads = ");
    push_decimal(&mut s, hw.cpu_threads as u64);
    push_line_end(&mut s);
    s.append("cpu_mhz     = ");
    push_decimal(&mut s, hw.cpu_mhz as u64);
    push_line_end(&mut s);
    s.append("ram_mb      = ");
    push_decimal(&mut s, hw.ram_mb);
    push_line_end(&mut s);
    proof {
        assert(l0 == ls[0]);
        reveal_with_fuel(join_lines, 7);
        let j5 = ls[5] + seq!['\n'];
        let j4 = ls[4] + seq!['\n'] + j5;
        let j3 = ls[3] + seq!['\n'] + j4;
        let j2 = ls[2] + seq!['\n'] + j3;
        let j1 = ls[1] + seq!['\n'] + j2;
        let j0 = ls[0] + seq!['\n'] + j1;
        assert(ls.drop_first().drop_first().drop_first().drop_first().drop_first().drop_first()
            == Seq::<Seq<char>>::empty());
        assert(join_lines(ls.drop_first().drop_first().drop_first().drop_first().drop_first())
            == j5);
        assert(join_lines(ls) == j0);
        assert(s@ == j0);
    }
    s
}

// ---------------------------------------------------------------------
// Loading
// ---------------------------------------------------------------------

/// The value saved under `key`: from the first line that starts with `key`, the text
/// after its first `'='` (up to any second one), trimmed of whitespace and then of
/// double quotes; empty when there is no such line or no `'='` in it.
pub open spec fn cache_value(ls: Seq<Seq<char>>, key: Seq<char>) -> Seq<char> {
    match first_prefixed(ls, key) {
        Some(l) => match second_field(l, '=') {
            Some(f) => strip(trim(f), Strip::Quote),
            None => Seq::empty(),
        },
        None => Seq::empty(),
    }
}

/// The vendor a cached name stands for; an unknown or missing name is `Generic`.
pub open spec fn cached_vendor(v: Seq<char>) -> GpuVendor {
    if v == "Intel"@ {
        GpuVendor::Intel
    } else if v == "Amd"@ {
        GpuVendor::Amd
    } else if v == "Nvidia"@ {
        GpuVendor::Nvidia
    } else {
        GpuVendor::Generic
    }
}

/// What a cache text holds: `None` unless the four numbers read back.
pub open spec fn hw_from_cache(s: Seq<char>) -> Option<HwInfo> {
    let ls = lines(s);
    let vram = parse_u64(cache_value(ls, "vram_mb"@));
    let threads = parse_u32(cache_value(ls, "cpu_threads"@));
    let mhz = parse_u32(cache_value(ls, "cpu_mhz"@));
    let ram = parse_u64(cache_value(ls, "ram_mb"@));
    if vram is Some && threads is Some && mhz is Some && ram is Some {
        Some(
            HwInfo {
                gpu_vendor: cached_vendor(cache_value(ls, "gpu_vendor"@)),
                vram_mb: vram->0,
                is_igpu: cache_value(ls, "is_igpu"@) == "true"@,
                cpu_threads: threads->0,
                cpu_mhz: mhz->0,
                ram_mb: ram->0,
            },
        )
    } else {
        None
    }
}

/// The window of `v` that holds the value saved under `key`.
fn cache_field(v: &Vec<char>, key: &str) -> (w: (usize, usize))
    ensures
        w.0 <= w.1 <= v.len(),
        v@.subrange(w.0 as int, w.1 as int) == cache_value(lines(v@), key@),
{
    match find_line_with_prefix(v, key) {
        Some((a, b)) => {
            let ghost l = v@.subrange(a as int, b as int);
            let i = find_char_in(v, a, b, '=');
            if i == b {
                assert(split_once(l, '=') is None);
                return (0, 0);
            }
            let j = find_char_in(v, i + 1, b, '=');
            proof {
                assert(l.skip(i - a + 1) == v@.subrange(i + 1, b as int));
                assert(v@.subrange(i + 1, b as int).take(j - (i + 1)) == v@.subrange(
                    i + 1,
                    j as int,
                ));
            }
            let (x, y) = trim_window(v, i + 1, j);
            strip_window(v, x, y, Strip::Quote)
        },
        None => (0, 0),
    }
}

/// What a saved cache text holds, if its four numbers read back.
pub fn load_hw_cache(content: &str) -> (hw: Option<HwInfo>)
    ensures
        hw == hw_from_cache(content@),
{
    let v = chars_of(content);
    let (a, b) = cache_field(&v, "vram_mb");
    let vram = parse_u64_window(&v, a, b);
    let (a, b) = cache_field(&v, "cpu_threads");
    let threads = parse_u32_window(&v, a, b);
    let (a, b) = cache_field(&v, "cpu_mhz");
    let mhz = parse_u32_window(&v, a, b);
    let (a, b) = cache_field(&v, "ram_mb");
    let ram = parse_u64_window(&v, a, b);
    let (a, b) = cache_field(&v, "gpu_vendor");
    let gpu_vendor = if window_is(&v, a, b, "Intel") {
        GpuVendor::Intel
    } else if window_is(&v, a, b, "Amd") {
        GpuVendor::Amd
    } else if window_is(&v, a, b, "Nvidia") {
        GpuVendor::Nvidia
    } else {
        GpuVendor::Generic
    };
    let (a, b) = cache_field(&v, "is_igpu");
    let is_igpu = window_is(&v, a, b, "true");
    match (vram, threads, mhz, ram) {
        (Some(vram_mb), Some(cpu_threads), Some(cpu_mhz), Some(ram_mb)) => Some(
            HwInfo { gpu_vendor, vram_mb, is_igpu, cpu_threads, cpu_mhz, ram_mb },
        ),
        _ => None,
    }
}

pub open spec fn cached_hw_of(age_secs: Option<u64>, content: Option<Seq<char>>) -> Option<HwInfo> {
    match (age_secs, content) {
        (Some(age), Some(c)) => if age < CACHE_MAX_AGE_SECS {
            hw_from_cache(c)
        } else {
            None
        },
        _ => None,
    }
}

/// The cached hardware, if the cache's age is known and under a week and its text reads
/// back; otherwise the hardware is to be detected anew and saved.
pub fn cached_hw(age_secs: Option<u64>, content: Option<&str>) -> (hw: Option<HwInfo>)
    ensures
        hw == cached_hw_of(
            age_secs,
            match content {
                Some(c) => Some(c@),
                None => None,
            },
        ),
{
    match (age_secs, content) {
        (Some(age), Some(c)) => if cache_is_fresh(age) {
            load_hw_cache(c)
        } else {
            None
        },
        _ => None,
    }
}

// ---------------------------------------------------------------------
// Saving then loading
// ---------------------------------------------------------------------

proof fn lemma_no_char_find(s: Seq<char>, c: char)
    requires
        forall|j: int| 0 <= j < s.len() ==> s[j] != c,
    ensures
        find_char(s, c) == s.len(),
{
    lemma_find_char_append(s, Seq::empty(), c);
    assert(s + Seq::<char>::empty() == s);
}

/// The second `'='`-separated field of a line `p + d` whose only `'='` is `p[k]`.
proof fn lemma_second_field(p: Seq<char>, d: Seq<char>, k: int)
    requires
        0 <= k < p.len(),
        p[k] == '=',
        forall|j: int| 0 <= j < p.len() && j != k ==> p[j] != '=',
        forall|j: int| 0 <= j < d.len() ==> d[j] != '=',
    ensures
        second_field(p + d, '=') == Some(p.skip(k + 1) + d),
{
    let l = p + d;
    assert(l == p.take(k) + (p.skip(k) + d));
    lemma_find_char_append(p.take(k), p.skip(k) + d, '=');
    assert((p.skip(k) + d)[0] == '=');
    assert(find_char(l, '=') == k);
    let rest = p.skip(k + 1) + d;
    assert(l.skip(k + 1) == rest);
    assert forall|j: int| 0 <= j < rest.len() implies rest[j] != '=' by {
        if j < p.len() - k - 1 {
            assert(rest[j] == p[j + k + 1]);
        } else {
            assert(rest[j] == d[j - (p.len() - k - 1)]);
        }
    }
    lemma_no_char_find(rest, '=');
    assert(rest.take(rest.len() as int) == rest);
}

/// A value after `"= "` reads back as itself when it starts and ends with neither
/// whitespace nor a quote.
proof fn lemma_plain_value(p: Seq<char>, d: Seq<char>, k: int)
    requires
        0 <= k < p.len(),
        p[k] == '=',
        forall|j: int| 0 <= j < p.len() && j != k ==> p[j] != '=',
        forall|j: int| 0 <= j < d.len() ==> d[j] != '=',
        p.skip(k + 1) == seq![' '],
        d.len() > 0,
        !strips(Strip::Space, d[0]),
        !strips(Strip::Space, d.last()),
        !strips(Strip::Quote, d[0]),
        !strips(Strip::Quote, d.last()),
    ensures
        second_field(p + d, '=') matches Some(f) && strip(trim(f), Strip::Quote) == d,
{
    lemma_second_field(p, d, k);
    lemma_strip_drops_first(' ', d, Strip::Space);
    lemma_strip_keeps(d, Strip::Quote);
}

proof fn lemma_first_prefixed_at(ls: Seq<Seq<char>>, p: Seq<char>, i: int)
    requires
        0 <= i < ls.len(),
        starts_with(ls[i], p),
        forall|j: int| 0 <= j < i ==> !starts_with(#[trigger] ls[j], p),
    ensures
        first_prefixed(ls, p) == Some(ls[i]),
    decreases i,
{
    if i > 0 {
        assert(!starts_with(ls[0], p));
        assert forall|j: int| 0 <= j < i - 1 implies !starts_with(#[trigger] ls.drop_first()[j], p) by {
            assert(ls.drop_first()[j] == ls[j + 1]);
        }
        lemma_first_prefixed_at(ls.drop_first(), p, i - 1);
    }
}

proof fn lemma_not_prefix(l: Seq<char>, p: Seq<char>, m: int)
    requires
        0 <= m < p.len(),
        m < l.len(),
        l[m] != p[m],
    ensures
        !starts_with(l, p),
{
    if p.len() <= l.len() {
        assert(l.take(p.len() as int)[m] != p[m]);
    }
}

proof fn lemma_prefix(p: Seq<char>, q: Seq<char>, d: Seq<char>)
    requires
        q.len() <= p.len(),
        p.take(q.len() as int) == q,
    ensures
        starts_with(p + d, q),
{
    assert((p + d).take(q.len() as int) == p.take(q.len() as int));
}

proof fn lemma_digits_plain(n: nat)
    ensures
        decimal(n).len() > 0,
        forall|j: int| 0 <= j < decimal(n).len() ==> #[trigger] decimal(n)[j] != '=' && decimal(
            n,
        )[j] != '\n' && decimal(n)[j] != '\r',
        !strips(Strip::Space, decimal(n)[0]),
        !strips(Strip::Space, decimal(n).last()),
        !strips(Strip::Quote, decimal(n)[0]),
        !strips(Strip::Quote, decimal(n).last()),
{
    lemma_decimal_shape(n);
    assert(is_digit(decimal(n)[0]));
    assert(is_digit(decimal(n)[decimal(n).len() - 1]));
    assert forall|j: int| 0 <= j < decimal(n).len() implies #[trigger] decimal(n)[j] != '='
        && decimal(n)[j] != '\n' && decimal(n)[j] != '\r' by {
        assert(is_digit(decimal(n)[j]));
    }
}

/// A quoted value reads back without its quotes.
proof fn lemma_quoted_value(label: Seq<char>)
    requires
        label.len() > 0,
        label[0] != '"',
        label.last() != '"',
    ensures
        strip(trim(seq![' ', '"'] + label + seq!['"']), Strip::Quote) == label,
{
    let t = seq!['"'] + label + seq!['"'];
    assert(seq![' ', '"'] + label + seq!['"'] == seq![' '] + t);
    assert(t[0] == '"');
    assert(t.last() == '"');
    lemma_strip_drops_first(' ', t, Strip::Space);
    let u = label + seq!['"'];
    assert(t.drop_first() == u);
    assert(u[0] == label[0]);
    assert(crate::text::lstrip(u, Strip::Quote) == u);
    assert(crate::text::lstrip(t, Strip::Quote) == u);
    assert(u.drop_last() == label);
    assert(crate::text::rstrip(label, Strip::Quote) == label);
    assert(crate::text::rstrip(u, Strip::Quote) == label);
}

/// A line `p + d` has no line break and does not end in `'\r'`.
proof fn lemma_clean_line(p: Seq<char>, d: Seq<char>)
    requires
        forall|j: int| 0 <= j < p.len() ==> p[j] != '\n',
        forall|j: int| 0 <= j < d.len() ==> d[j] != '\n' && d[j] != '\r',
        d.len() > 0,
    ensures
        forall|j: int| 0 <= j < (p + d).len() ==> (p + d)[j] != '\n',
        (p + d).last() != '\r',
{
    assert forall|j: int| 0 <= j < (p + d).len() implies (p + d)[j] != '\n' by {
        if j >= p.len() {
            assert((p + d)[j] == d[j - p.len()]);
        }
    }
    assert((p + d).last() == d[d.len() - 1]);
}

proof fn lemma_cache_lines(hw: HwInfo)
    ensures
        lines(cache_text(hw)) == cache_lines(hw),
{
    reveal_strlit("gpu_vendor  = \"");
    reveal_strlit("\"");
    reveal_strlit("vram_mb     = ");
    reveal_strlit("is_igpu     = ");
    reveal_strlit("cpu_threads = ");
    reveal_strlit("cpu_mhz     = ");
    reveal_strlit("ram_mb      = ");
    reveal_strlit("true");
    reveal_strlit("false");
    reveal_strlit("Intel");
    reveal_strlit("Amd");
    reveal_strlit("Nvidia");
    reveal_strlit("Generic");
    let ls = cache_lines(hw);
    let label = vendor_label(hw.gpu_vendor);
    let d0 = label + "\""@;
    let b = bool_text(hw.is_igpu);
    lemma_digits_plain(hw.vram_mb as nat);
    lemma_digits_plain(hw.cpu_threads as nat);
    lemma_digits_plain(hw.cpu_mhz as nat);
    lemma_digits_plain(hw.ram_mb as nat);
    assert forall|j: int| 0 <= j < d0.len() implies d0[j] != '\n' && d0[j] != '\r' by {
        if j < label.len() {
            assert(d0[j] == label[j]);
        }
    }
    lemma_clean_line("gpu_vendor  = \""@, d0);
    lemma_clean_line("vram_mb     = "@, decimal(hw.vram_mb as nat));
    lemma_clean_line("is_igpu     = "@, b);
    lemma_clean_line("cpu_threads = "@, decimal(hw.cpu_threads as nat));
    lemma_clean_line("cpu_mhz     = "@, decimal(hw.cpu_mhz as nat));
    lemma_clean_line("ram_mb      = "@, decimal(hw.ram_mb as nat));
    assert("gpu_vendor  = \""@ + label + "\""@ == "gpu_vendor  = \""@ + d0);
    assert forall|i: int, j: int| 0 <= i < ls.len() && 0 <= j < ls[i].len() implies #[trigger] ls[i][j]
        != '\n' by {
    }
    lemma_lines_join(ls);
}

proof fn lemma_cache_keys(hw: HwInfo)
    ensures
        first_prefixed(cache_lines(hw), "gpu_vendor"@) == Some(cache_lines(hw)[0]),
        first_prefixed(cache_lines(hw), "vram_mb"@) == Some(cache_lines(hw)[1]),
        first_prefixed(cache_lines(hw), "is_igpu"@) == Some(cache_lines(hw)[2]),
        first_prefixed(cache_lines(hw), "cpu_threads"@) == Some(cache_lines(hw)[3]),
        first_prefixed(cache_lines(hw), "cpu_mhz"@) == Some(cache_lines(hw)[4]),
        first_prefixed(cache_lines(hw), "ram_mb"@) == Some(cache_lines(hw)[5]),
{
    reveal_strlit("gpu_vendor  = \"");
    reveal_strlit("vram_mb     = ");
    reveal_strlit("is_igpu     = ");
    reveal_strlit("cpu_threads = ");
    reveal_strlit("cpu_mhz     = ");
    reveal_strlit("ram_mb      = ");
    reveal_strlit("gpu_vendor");
    reveal_strlit("vram_mb");
    reveal_strlit("is_igpu");
    reveal_strlit("cpu_threads");
    reveal_strlit("cpu_mhz");
    reveal_strlit("ram_mb");
    let ls = cache_lines(hw);
    let p0 = "gpu_vendor  = \""@;
    let p1 = "vram_mb     = "@;
    let p2 = "is_igpu     = "@;
    let p3 = "cpu_threads = "@;
    let p4 = "cpu_mhz     = "@;
    let p5 = "ram_mb      = "@;
    let label = vendor_label(hw.gpu_vendor);
    let d0 = label + "\""@;
    assert(ls[0] == p0 + d0);
    assert(p0.take(10) =~= "gpu_vendor"@);
    lemma_prefix(p0, "gpu_vendor"@, d0);
    assert(p1.take(7) =~= "vram_mb"@);
    lemma_prefix(p1, "vram_mb"@, decimal(hw.vram_mb as nat));
    assert(p2.take(7) =~= "is_igpu"@);
    lemma_prefix(p2, "is_igpu"@, bool_text(hw.is_igpu));
    assert(p3.take(11) =~= "cpu_threads"@);
    lemma_prefix(p3, "cpu_threads"@, decimal(hw.cpu_threads as nat));
    assert(p4.take(7) =~= "cpu_mhz"@);
    lemma_prefix(p4, "cpu_mhz"@, decimal(hw.cpu_mhz as nat));
    assert(p5.take(6) =~= "ram_mb"@);
    lemma_prefix(p5, "ram_mb"@, decimal(hw.ram_mb as nat));
    assert(ls[0][0] == 'g');
    assert(ls[1][0] == 'v');
    assert(ls[2][0] == 'i');
    assert(ls[3][0] == 'c');
    assert(ls[3][4] == 't');
    assert(ls[4][0] == 'c');
    lemma_first_prefixed_at(ls, "gpu_vendor"@, 0);
    lemma_not_prefix(ls[0], "vram_mb"@, 0);
    lemma_first_prefixed_at(ls, "vram_mb"@, 1);
    lemma_not_prefix(ls[0], "is_igpu"@, 0);
    lemma_not_prefix(ls[1], "is_igpu"@, 0);
    lemma_first_prefixed_at(ls, "is_igpu"@, 2);
    lemma_not_prefix(ls[0], "cpu_threads"@, 0);
    lemma_not_prefix(ls[1], "cpu_threads"@, 0);
    lemma_not_prefix(ls[2], "cpu_threads"@, 0);
    lemma_first_prefixed_at(ls, "cpu_threads"@, 3);
    lemma_not_prefix(ls[0], "cpu_mhz"@, 0);
    lemma_not_prefix(ls[1], "cpu_mhz"@, 0);
    lemma_not_prefix(ls[2], "cpu_mhz"@, 0);
    lemma_not_prefix(ls[3], "cpu_mhz"@, 4);
    lemma_first_prefixed_at(ls, "cpu_mhz"@, 4);
    lemma_not_prefix(ls[0], "ram_mb"@, 0);
    lemma_not_prefix(ls[1], "ram_mb"@, 0);
    lemma_not_prefix(ls[2], "ram_mb"@, 0);
    lemma_not_prefix(ls[3], "ram_mb"@, 0);
    lemma_not_prefix(ls[4], "ram_mb"@, 0);
    lemma_first_prefixed_at(ls, "ram_mb"@, 5);
}

/// The value read from a number line of the cache.
proof fn lemma_number_value(p: Seq<char>, n: nat)
    requires
        p.len() == 14,
        p[12] == '=',
        forall|j: int| 0 <= j < p.len() && j != 12 ==> p[j] != '=',
        p[13] == ' ',
    ensures
        second_field(p + decimal(n), '=') matches Some(f) && strip(trim(f), Strip::Quote)
            == decimal(n),
        crate::text::parse_nat(decimal(n)) == Some(n),
{
    assert(p.skip(13) =~= seq![' ']);
    lemma_digits_plain(n);
    lemma_plain_value(p, decimal(n), 12);
    lemma_parse_decimal(n);
}

proof fn lemma_cache_values(hw: HwInfo)
    ensures
        second_field(cache_lines(hw)[0], '=') matches Some(f) && strip(trim(f), Strip::Quote)
            == vendor_label(hw.gpu_vendor),
        second_field(cache_lines(hw)[1], '=') matches Some(f) && strip(trim(f), Strip::Quote)
            == decimal(hw.vram_mb as nat),
        second_field(cache_lines(hw)[2], '=') matches Some(f) && strip(trim(f), Strip::Quote)
            == bool_text(hw.is_igpu),
        second_field(cache_lines(hw)[3], '=') matches Some(f) && strip(trim(f), Strip::Quote)
            == decimal(hw.cpu_threads as nat),
        second_field(cache_lines(hw)[4], '=') matches Some(f) && strip(trim(f), Strip::Quote)
            == decimal(hw.cpu_mhz as nat),
        second_field(cache_lines(hw)[5], '=') matches Some(f) && strip(trim(f), Strip::Quote)
            == decimal(hw.ram_mb as nat),
        crate::text::parse_nat(decimal(hw.vram_mb as nat)) == Some(hw.vram_mb as nat),
        crate::text::parse_nat(decimal(hw.cpu_threads as nat)) == Some(hw.cpu_threads as nat),
        crate::text::parse_nat(decimal(hw.cpu_mhz as nat)) == Some(hw.cpu_mhz as nat),
        crate::text::parse_nat(decimal(hw.ram_mb as nat)) == Some(hw.ram_mb as nat),
{
    reveal_strlit("gpu_vendor  = \"");
    reveal_strlit("\"");
    reveal_strlit("vram_mb     = ");
    reveal_strlit("is_igpu     = ");
    reveal_strlit("cpu_threads = ");
    reveal_strlit("cpu_mhz     = ");
    reveal_strlit("ram_mb      = ");
    reveal_strlit("true");
    reveal_strlit("false");
    reveal_strlit("Intel");
    reveal_strlit("Amd");
    reveal_strlit("Nvidia");
    reveal_strlit("Generic");
    let p0 = "gpu_vendor  = \""@;
    let label = vendor_label(hw.gpu_vendor);
    let d0 = label + "\""@;
    assert(label.len() > 0);
    assert(forall|j: int| 0 <= j < label.len() ==> label[j] != '=');
    assert forall|j: int| 0 <= j < d0.len() implies d0[j] != '=' by {
        if j < label.len() {
            assert(d0[j] == label[j]);
        }
    }
    assert(cache_lines(hw)[0] == p0 + d0);
    lemma_second_field(p0, d0, 12);
    assert(p0.skip(13) + d0 =~= seq![' ', '"'] + label + seq!['"']);
    lemma_quoted_value(label);
    lemma_number_value("vram_mb     = "@, hw.vram_mb as nat);
    lemma_number_value("cpu_threads = "@, hw.cpu_threads as nat);
    lemma_number_value("cpu_mhz     = "@, hw.cpu_mhz as nat);
    lemma_number_value("ram_mb      = "@, hw.ram_mb as nat);
    let p2 = "is_igpu     = "@;
    assert(p2.skip(13) =~= seq![' ']);
    lemma_plain_value(p2, bool_text(hw.is_igpu), 12);
}

/// Saving `hw` in the cache and reading the cache back gives `hw`.
pub proof fn cache_round_trip(hw: HwInfo)
    ensures
        hw_from_cache(cache_text(hw)) == Some(hw),
{
    reveal_strlit("true");
    reveal_strlit("false");
    reveal_strlit("Intel");
    reveal_strlit("Amd");
    reveal_strlit("Nvidia");
    reveal_strlit("Generic");
    let ls = cache_lines(hw);
    lemma_cache_lines(hw);
    lemma_cache_keys(hw);
    lemma_cache_values(hw);
    assert(cache_value(ls, "gpu_vendor"@) == vendor_label(hw.gpu_vendor));
    assert(cache_value(ls, "vram_mb"@) == decimal(hw.vram_mb as nat));
    assert(cache_value(ls, "is_igpu"@) == bool_text(hw.is_igpu));
    assert(cache_value(ls, "cpu_threads"@) == decimal(hw.cpu_threads as nat));
    assert(cache_value(ls, "cpu_mhz"@) == decimal(hw.cpu_mhz as nat));
    assert(cache_value(ls, "ram_mb"@) == decimal(hw.ram_mb as nat));
    assert((bool_text(hw.is_igpu) == "true"@) == hw.is_igpu);
    assert(cached_vendor(vendor_label(hw.gpu_vendor)) == hw.gpu_vendor);
}

/// A cache saved for `hw` and younger than a week is what the hardware is taken to be.
pub proof fn fresh_cache_is_used(hw: HwInfo, age_secs: u64)
    requires
        age_secs < CACHE_MAX_AGE_SECS,
    ensures
        cached_hw_of(Some(age_secs), Some(cache_text(hw))) == Some(hw),
{
    cache_round_trip(hw);
}

} // verus!
