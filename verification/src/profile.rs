//! Per-game settings: the profile file they are remembered in, the settings
//! dialog, and where the settings of a launch come from.
use vstd::prelude::*;
use vstd::string::StringExecFns;
use crate::hw::{profile_label, profile_name, Profile};
use crate::text::{
    bool_text, chars_of, concat, contains, find_char, find_char_in, is_space, join_lines,
    lemma_find_char_append, lemma_find_char_bound, lemma_find_char_prefix, lemma_lines_join,
    lemma_strip_keeps, lemma_trim_drop_space, lines, next_line, push_bool, push_text, split_once,
    str_contains, strip_cr, strips, texts, trim, trim_window, window_is, Strip,
};

verus! {

/// The settings of a game that a profile remembers.
#[derive(Clone, Copy, Debug, PartialEq, Eq, Structural)]
pub struct ProfileSettings {
    /// The MangoHud overlay.
    pub mango: bool,
    /// The thermal guard.
    pub thermal: bool,
    /// OpenGL (WineD3D) in place of Vulkan.
    pub force_opengl: bool,
    /// Wine in place of Proton.
    pub use_wine: bool,
    /// An application-menu entry for the game.
    pub add_to_menu: bool,
    /// Feral's GameMode.
    pub gamemode: bool,
    /// A frame-rate cap.
    pub fps_limit: bool,
    /// Unlocked mode for benchmarks: no frame-rate cap and no thermal limits.
    pub unlocked: bool,
}

/// Every setting off.
pub open spec fn no_settings() -> ProfileSettings {
    ProfileSettings {
        mango: false,
        thermal: false,
        force_opengl: false,
        use_wine: false,
        add_to_menu: false,
        gamemode: false,
        fps_limit: false,
        unlocked: false,
    }
}

/// The name a setting is saved under, by its number.
pub open spec fn setting_name(k: int) -> Seq<char> {
    if k == 0 {
        "MangoHud"@
    } else if k == 1 {
        "ThermalGuard"@
    } else if k == 2 {
        "ForceOpenGL"@
    } else if k == 3 {
        "UseWine"@
    } else if k == 4 {
        "AddToMenu"@
    } else if k == 5 {
        "Gamemode"@
    } else if k == 6 {
        "FpsLimit"@
    } else {
        "Unlocked"@
    }
}

/// The number of the setting a name stands for.
pub open spec fn key_index(key: Seq<char>) -> Option<int> {
    if key == "MangoHud"@ {
        Some(0)
    } else if key == "ThermalGuard"@ {
        Some(1)
    } else if key == "ForceOpenGL"@ {
        Some(2)
    } else if key == "UseWine"@ {
        Some(3)
    } else if key == "AddToMenu"@ {
        Some(4)
    } else if key == "Gamemode"@ {
        Some(5)
    } else if key == "FpsLimit"@ {
        Some(6)
    } else if key == "Unlocked"@ {
        Some(7)
    } else {
        None
    }
}

/// A setting, by its number.
pub open spec fn field(s: ProfileSettings, k: int) -> bool {
    if k == 0 {
        s.mango
    } else if k == 1 {
        s.thermal
    } else if k == 2 {
        s.force_opengl
    } else if k == 3 {
        s.use_wine
    } else if k == 4 {
        s.add_to_menu
    } else if k == 5 {
        s.gamemode
    } else if k == 6 {
        s.fps_limit
    } else {
        s.unlocked
    }
}

/// The settings with setting number `k` set to `b`.
pub open spec fn with_field(s: ProfileSettings, k: int, b: bool) -> ProfileSettings {
    if k == 0 {
        ProfileSettings { mango: b, ..s }
    } else if k == 1 {
        ProfileSettings { thermal: b, ..s }
    } else if k == 2 {
        ProfileSettings { force_opengl: b, ..s }
    } else if k == 3 {
        ProfileSettings { use_wine: b, ..s }
    } else if k == 4 {
        ProfileSettings { add_to_menu: b, ..s }
    } else if k == 5 {
        ProfileSettings { gamemode: b, ..s }
    } else if k == 6 {
        ProfileSettings { fps_limit: b, ..s }
    } else {
        ProfileSettings { unlocked: b, ..s }
    }
}

fn set_field(s: ProfileSettings, k: usize, b: bool) -> (r: ProfileSettings)
    ensures
        r == with_field(s, k as int, b),
{
    if k == 0 {
        ProfileSettings { mango: b, ..s }
    } else if k == 1 {
        ProfileSettings { thermal: b, ..s }
    } else if k == 2 {
        ProfileSettings { force_opengl: b, ..s }
    } else if k == 3 {
        ProfileSettings { use_wine: b, ..s }
    } else if k == 4 {
        ProfileSettings { add_to_menu: b, ..s }
    } else if k == 5 {
        ProfileSettings { gamemode: b, ..s }
    } else if k == 6 {
        ProfileSettings { fps_limit: b, ..s }
    } else {
        ProfileSettings { unlocked: b, ..s }
    }
}

// ---------------------------------------------------------------------
// Reading a profile
// ---------------------------------------------------------------------

/// The setting a profile line names: a `key=value` line whose trimmed key is a
/// setting's name.
pub open spec fn setting_key(line: Seq<char>) -> Option<int> {
    match split_once(line, '=') {
        Some((k, _)) => key_index(trim(k)),
        None => None,
    }
}

/// The value a profile line gives: whether its trimmed value is `true`.
pub open spec fn setting_value(line: Seq<char>) -> bool {
    match split_once(line, '=') {
        Some((_, v)) => trim(v) == "true"@,
        None => false,
    }
}

/// One line of a profile applied to the settings read so far: a line that names a
/// setting sets it to its value; any other line changes nothing.
pub open spec fn apply_profile_line(acc: ProfileSettings, line: Seq<char>) -> ProfileSettings {
    match setting_key(line) {
        Some(k) => with_field(acc, k, setting_value(line)),
        None => acc,
    }
}

pub open spec fn apply_profile_lines(acc: ProfileSettings, ls: Seq<Seq<char>>) -> ProfileSettings
    decreases ls.len(),
{
    if ls.len() == 0 {
        acc
    } else {
        apply_profile_lines(apply_profile_line(acc, ls[0]), ls.drop_first())
    }
}

/// The settings a profile text holds: all off, then its lines applied in order
/// (a later line for a setting wins).
pub open spec fn profile_settings(s: Seq<char>) -> ProfileSettings {
    apply_profile_lines(no_settings(), lines(s))
}

fn apply_line(v: &Vec<char>, a: usize, b: usize, acc: ProfileSettings) -> (r: ProfileSettings)
    requires
        a <= b <= v.len(),
    ensures
        r == apply_profile_line(acc, v@.subrange(a as int, b as int)),
{
    let ghost l = v@.subrange(a as int, b as int);
    let i = find_char_in(v, a, b, '=');
    if i == b {
        return acc;
    }
    proof {
        assert(l.take(i - a) == v@.subrange(a as int, i as int));
        assert(l.skip(i - a + 1) == v@.subrange(i + 1, b as int));
    }
    let (ka, kb) = trim_window(v, a, i);
    let (va, vb) = trim_window(v, i + 1, b);
    let on = window_is(v, va, vb, "true");
    let k: usize = if window_is(v, ka, kb, "MangoHud") {
        0
    } else if window_is(v, ka, kb, "ThermalGuard") {
        1
    } else if window_is(v, ka, kb, "ForceOpenGL") {
        2
    } else if window_is(v, ka, kb, "UseWine") {
        3
    } else if window_is(v, ka, kb, "AddToMenu") {
        4
    } else if window_is(v, ka, kb, "Gamemode") {
        5
    } else if window_is(v, ka, kb, "FpsLimit") {
        6
    } else if window_is(v, ka, kb, "Unlocked") {
        7
    } else {
        return acc;
    };
    set_field(acc, k, on)
}

/// The settings a saved profile text holds.
pub fn parse_profile(content: &str) -> (r: ProfileSettings)
    ensures
        r == profile_settings(content@),
{
    let v = chars_of(content);
    let mut acc = ProfileSettings {
        mango: false,
        thermal: false,
        force_opengl: false,
        use_wine: false,
        add_to_menu: false,
        gamemode: false,
        fps_limit: false,
        unlocked: false,
    };
    let mut pos: usize = 0;
    assert(v@.skip(0) == v@);
    while pos < v.len()
        invariant
            pos <= v.len(),
            v@ == content@,
            profile_settings(content@) == apply_profile_lines(acc, lines(v@.skip(pos as int))),
        decreases v.len() - pos,
    {
        let (a, b, next) = next_line(&v, pos);
        let ghost l = v@.subrange(a as int, b as int);
        assert((seq![l] + lines(v@.skip(next as int))).drop_first() == lines(
            v@.skip(next as int),
        ));
        acc = apply_line(&v, a, b, acc);
        pos = next;
    }
    assert(v@.skip(pos as int) == Seq::<char>::empty());
    acc
}

// ---------------------------------------------------------------------
// Saving a profile
// ---------------------------------------------------------------------

/// A profile line: `key=true` or `key=false`.
pub open spec fn entry_line(key: Seq<char>, on: bool) -> Seq<char> {
    key + "="@ + bool_text(on)
}

pub open spec fn entry_lines(entries: Seq<(Seq<char>, bool)>) -> Seq<Seq<char>> {
    Seq::new(entries.len(), |i: int| entry_line(entries[i].0, entries[i].1))
}

/// The text a profile is saved as: one `key=value` line per entry, in order.
pub open spec fn profile_text(entries: Seq<(Seq<char>, bool)>) -> Seq<char> {
    join_lines(entry_lines(entries))
}

pub open spec fn entry_texts(entries: Seq<(String, bool)>) -> Seq<(Seq<char>, bool)> {
    entries.map_values(|e: (String, bool)| (e.0@, e.1))
}

/// The entries saved for a set of settings: one per setting, under its name, in order.
pub open spec fn standard_entries(s: ProfileSettings) -> Seq<(Seq<char>, bool)> {
    Seq::new(8, |k: int| (setting_name(k), field(s, k)))
}

fn entry(key: &str, on: bool) -> (e: (String, bool))
    ensures
        e.0@ == key@,
        e.1 == on,
{
    (String::from_str(key), on)
}

/// The entries that remembering these settings saves.
pub fn profile_entries(s: ProfileSettings) -> (r: Vec<(String, bool)>)
    ensures
        entry_texts(r@) == standard_entries(s),
{
    let r = vec![
        entry("MangoHud", s.mango),
        entry("ThermalGuard", s.thermal),
        entry("ForceOpenGL", s.force_opengl),
        entry("UseWine", s.use_wine),
        entry("AddToMenu", s.add_to_menu),
        entry("Gamemode", s.gamemode),
        entry("FpsLimit", s.fps_limit),
        entry("Unlocked", s.unlocked),
    ];
    assert(entry_texts(r@) =~= standard_entries(s));
    r
}

/// The text that saving these entries writes.
pub fn profile_content(entries: &Vec<(String, bool)>) -> (s: String)
    ensures
        s@ == profile_text(entry_texts(entries@)),
{
    let ghost es = entry_texts(entries@);
    let ghost ls = entry_lines(es);
    let mut s = String::new();
    let mut k: usize = 0;
    assert(ls.skip(0) == ls);
    while k < entries.len()
        invariant
            k <= entries.len(),
            es == entry_texts(entries@),
            ls == entry_lines(es),
            ls.len() == entries.len(),
            s@ + join_lines(ls.skip(k as int)) == join_lines(ls),
        decreases entries.len() - k,
    {
        let ghost before = s@;
        s.append(entries[k].0.as_str());
        s.append("=");
        push_bool(&mut s, entries[k].1);
        s.push('\n');
        proof {
            assert(es[k as int] == (entries@[k as int].0@, entries@[k as int].1));
            assert(ls[k as int] == entries@[k as int].0@ + "="@ + bool_text(entries@[k as int].1));
            assert(ls.skip(k as int)[0] == ls[k as int]);
            assert(ls.skip(k as int).drop_first() == ls.skip(k + 1));
            assert(join_lines(ls.skip(k as int)) == ls[k as int] + seq!['\n'] + join_lines(
                ls.skip(k + 1),
            ));
            assert(s@ == before + ls[k as int] + seq!['\n']);
        }
        k = k + 1;
    }
    assert(ls.skip(k as int) == Seq::<Seq<char>>::empty());
    s
}

/// Where the profiles are kept.
pub fn profile_dir(home: &str) -> (p: String)
    ensures
        p@ == home@ + "/.config/split/profiles"@,
{
    concat(home, "/.config/split/profiles")
}

/// The profile file of a game.
pub fn profile_path(home: &str, game_tag: &str) -> (p: String)
    ensures
        p@ == home@ + "/.config/split/profiles/"@ + game_tag@ + ".conf"@,
{
    let mut p = concat(home, "/.config/split/profiles/");
    p.append(game_tag);
    p.append(".conf");
    p
}

/// The profile file of a game lies in the profile directory, under the game's tag:
/// the file a profile is saved to is the file it is loaded from.
pub proof fn profile_path_in_dir(home: Seq<char>, game_tag: Seq<char>)
    ensures
        home + "/.config/split/profiles/"@ + game_tag + ".conf"@ == home
            + "/.config/split/profiles"@ + "/"@ + game_tag + ".conf"@,
{
    reveal_strlit("/.config/split/profiles/");
    reveal_strlit("/.config/split/profiles");
    reveal_strlit("/");
    assert("/.config/split/profiles/"@ =~= "/.config/split/profiles"@ + "/"@);
}

// ---------------------------------------------------------------------
// Saving then loading
// ---------------------------------------------------------------------

proof fn lemma_setting_names()
    ensures
        forall|k: int|
            0 <= k < 8 ==> {
                let n = #[trigger] setting_name(k);
                &&& n.len() > 0
                &&& key_index(n) == Some(k)
                &&& forall|j: int| 0 <= j < n.len() ==> n[j] != '=' && n[j] != '\n' && !is_space(n[j])
            },
{
    reveal_strlit("MangoHud");
    reveal_strlit("ThermalGuard");
    reveal_strlit("ForceOpenGL");
    reveal_strlit("UseWine");
    reveal_strlit("AddToMenu");
    reveal_strlit("Gamemode");
    reveal_strlit("FpsLimit");
    reveal_strlit("Unlocked");
    assert forall|k: int|
        0 <= k < 8 implies {
            let n = #[trigger] setting_name(k);
            &&& n.len() > 0
            &&& key_index(n) == Some(k)
            &&& forall|j: int| 0 <= j < n.len() ==> n[j] != '=' && n[j] != '\n' && !is_space(n[j])
        } by {
        let m = "MangoHud"@;
        let t = "ThermalGuard"@;
        let f = "ForceOpenGL"@;
        let u = "UseWine"@;
        let a = "AddToMenu"@;
        let g = "Gamemode"@;
        let p = "FpsLimit"@;
        let q = "Unlocked"@;
        assert(m.len() == 8 && t.len() == 12 && f.len() == 11 && u.len() == 7 && a.len() == 9);
        assert(g.len() == 8 && p.len() == 8 && q.len() == 8);
        assert(m[0] == 'M' && g[0] == 'G' && p[0] == 'F' && q[0] == 'U');
        assert(g != m);
        assert(p != m && p != g);
        assert(q != m && q != g && q != p);
    }
}

proof fn lemma_standard_lines(s: ProfileSettings, n: int)
    requires
        0 <= n <= 8,
    ensures
        lines(profile_text(standard_entries(s).take(n))) == entry_lines(standard_entries(s).take(n)),
{
    reveal_strlit("=");
    reveal_strlit("true");
    reveal_strlit("false");
    lemma_setting_names();
    let es = standard_entries(s).take(n);
    let ls = entry_lines(es);
    assert forall|i: int, j: int| 0 <= i < ls.len() && 0 <= j < ls[i].len() implies #[trigger] ls[i][j]
        != '\n' by {
        let e = es[i];
        assert(e.0 == setting_name(i));
        let k = e.0 + "="@;
        if j >= k.len() {
            assert(ls[i][j] == bool_text(e.1)[j - k.len()]);
        } else if j >= e.0.len() {
            assert(ls[i][j] == '=');
        } else {
            assert(ls[i][j] == e.0[j]);
        }
    }
    assert forall|i: int| 0 <= i < ls.len() implies (#[trigger] ls[i]).len() == 0 || ls[i].last()
        != '\r' by {
        let e = es[i];
        assert(ls[i].last() == bool_text(e.1).last());
    }
    lemma_lines_join(ls);
}

/// What a line `key=true` / `key=false` of a saved profile reads as.
proof fn lemma_entry_line(key: Seq<char>, on: bool)
    requires
        key.len() > 0,
        forall|j: int| 0 <= j < key.len() ==> key[j] != '=' && !is_space(key[j]),
    ensures
        setting_key(entry_line(key, on)) == key_index(key),
        setting_value(entry_line(key, on)) == on,
{
    reveal_strlit("=");
    reveal_strlit("true");
    reveal_strlit("false");
    let l = entry_line(key, on);
    assert(l == key + (seq!['='] + bool_text(on)));
    lemma_find_char_append(key, seq!['='] + bool_text(on), '=');
    assert((seq!['='] + bool_text(on))[0] == '=');
    assert(l.take(key.len() as int) == key);
    assert(l.skip(key.len() + 1int) == bool_text(on));
    assert(!is_space(key[0]) && !is_space(key.last()));
    lemma_strip_keeps(key, Strip::Space);
    lemma_strip_keeps(bool_text(on), Strip::Space);
}

proof fn lemma_settings_eq(a: ProfileSettings, b: ProfileSettings)
    requires
        forall|k: int| 0 <= k < 8 ==> #[trigger] field(a, k) == field(b, k),
    ensures
        a == b,
{
    assert(field(a, 0) == field(b, 0));
    assert(field(a, 1) == field(b, 1));
    assert(field(a, 2) == field(b, 2));
    assert(field(a, 3) == field(b, 3));
    assert(field(a, 4) == field(b, 4));
    assert(field(a, 5) == field(b, 5));
    assert(field(a, 6) == field(b, 6));
    assert(field(a, 7) == field(b, 7));
}

/// Reading the first `n` saved lines from the `k`-th on, after the first `k` have been
/// read, when the settings from the `n`-th on are already those of `s`.
proof fn lemma_apply_entries(s: ProfileSettings, acc: ProfileSettings, k: int, n: int)
    requires
        0 <= k <= n <= 8,
        forall|j: int| 0 <= j < k ==> #[trigger] field(acc, j) == field(s, j),
        forall|j: int| n <= j < 8 ==> #[trigger] field(acc, j) == field(s, j),
    ensures
        apply_profile_lines(acc, entry_lines(standard_entries(s).take(n)).skip(k)) == s,
    decreases n - k,
{
    let ls = entry_lines(standard_entries(s).take(n));
    if k == n {
        assert(ls.skip(n) == Seq::<Seq<char>>::empty());
        lemma_settings_eq(acc, s);
    } else {
        assert(ls[k] == entry_line(setting_name(k), field(s, k)));
        let next = apply_profile_line(acc, ls[k]);
        assert(next == with_field(acc, k, field(s, k))) by {
            lemma_setting_names();
            assert(setting_name(k).len() > 0);
            lemma_entry_line(setting_name(k), field(s, k));
        }
        lemma_with_field(acc, k, field(s, k));
        assert forall|j: int| 0 <= j < k + 1 implies #[trigger] field(next, j) == field(s, j) by {
            if j < k {
                assert(field(acc, j) == field(s, j));
            }
        }
        assert forall|j: int| n <= j < 8 implies #[trigger] field(next, j) == field(s, j) by {
            assert(field(acc, j) == field(s, j));
        }
        assert(ls.skip(k)[0] == ls[k]);
        assert(ls.skip(k).drop_first() == ls.skip(k + 1));
        lemma_apply_entries(s, next, k + 1, n);
    }
}

/// Setting one setting changes no other.
proof fn lemma_with_field(acc: ProfileSettings, k: int, b: bool)
    requires
        0 <= k < 8,
    ensures
        field(with_field(acc, k, b), k) == b,
        forall|j: int| 0 <= j < 8 && j != k ==> #[trigger] field(with_field(acc, k, b), j) == field(acc, j),
{
}

/// Remembering a game's settings and reading the profile back gives the same settings.
pub proof fn profile_round_trip(s: ProfileSettings)
    ensures
        profile_settings(profile_text(standard_entries(s))) == s,
{
    lemma_standard_lines(s, 8);
    assert(standard_entries(s).take(8) == standard_entries(s));
    let ls = entry_lines(standard_entries(s));
    assert(ls.skip(0) == ls);
    lemma_apply_entries(s, no_settings(), 0, 8);
}

/// A profile saved with only the first five settings (MangoHud, the thermal guard, forced
/// OpenGL, Wine and the menu entry, one `key=value` line each, in that order) reads back
/// those five values, with the other settings off.
pub proof fn five_setting_profile_round_trip(m: bool, t: bool, f: bool, w: bool, a: bool)
    ensures
        profile_settings(
            profile_text(
                seq![
                    ("MangoHud"@, m),
                    ("ThermalGuard"@, t),
                    ("ForceOpenGL"@, f),
                    ("UseWine"@, w),
                    ("AddToMenu"@, a),
                ],
            ),
        ) == (ProfileSettings { mango: m, thermal: t, force_opengl: f, use_wine: w, add_to_menu: a, ..no_settings() }),
{
    let s = ProfileSettings { mango: m, thermal: t, force_opengl: f, use_wine: w, add_to_menu: a, ..no_settings() };
    let es = seq![
        ("MangoHud"@, m),
        ("ThermalGuard"@, t),
        ("ForceOpenGL"@, f),
        ("UseWine"@, w),
        ("AddToMenu"@, a),
    ];
    assert(standard_entries(s).take(5) =~= es);
    lemma_standard_lines(s, 5);
    let ls = entry_lines(es);
    assert(ls.skip(0) == ls);
    lemma_apply_entries(s, no_settings(), 0, 5);
}

// ---------------------------------------------------------------------
// What a profile's result depends on
// ---------------------------------------------------------------------

/// The lines of `ls` that name setting `k`, in order.
pub open spec fn lines_naming(ls: Seq<Seq<char>>, k: int) -> Seq<Seq<char>>
    decreases ls.len(),
{
    if ls.len() == 0 {
        Seq::empty()
    } else if setting_key(ls[0]) == Some(k) {
        seq![ls[0]] + lines_naming(ls.drop_first(), k)
    } else {
        lines_naming(ls.drop_first(), k)
    }
}

/// The value of the last of `ls`, or `d` when there is none.
pub open spec fn last_setting(d: bool, ls: Seq<Seq<char>>) -> bool
    decreases ls.len(),
{
    if ls.len() == 0 {
        d
    } else {
        last_setting(setting_value(ls[0]), ls.drop_first())
    }
}

/// A setting read from some lines is the value of the last of them that names it.
pub proof fn lemma_field_of_lines(acc: ProfileSettings, ls: Seq<Seq<char>>, k: int)
    requires
        0 <= k < 8,
    ensures
        field(apply_profile_lines(acc, ls), k) == last_setting(field(acc, k), lines_naming(ls, k)),
    decreases ls.len(),
{
    if ls.len() > 0 {
        let l = ls[0];
        let next = apply_profile_line(acc, l);
        lemma_field_of_lines(next, ls.drop_first(), k);
        if setting_key(l) == Some(k) {
            let n = lines_naming(ls.drop_first(), k);
            assert((seq![l] + n).drop_first() == n);
            assert((seq![l] + n)[0] == l);
        }
    }
}

/// Only the lines that name a setting, and their order among lines naming the same
/// setting, decide what a profile holds: lines of other kinds, and the interleaving of
/// lines for different settings, change nothing.
pub proof fn profile_depends_on_each_settings_lines(c1: Seq<char>, c2: Seq<char>)
    requires
        forall|k: int| 0 <= k < 8 ==> #[trigger] lines_naming(lines(c1), k) == lines_naming(lines(c2), k),
    ensures
        profile_settings(c1) == profile_settings(c2),
{
    let a = profile_settings(c1);
    let b = profile_settings(c2);
    assert forall|k: int| 0 <= k < 8 implies #[trigger] field(a, k) == field(b, k) by {
        lemma_field_of_lines(no_settings(), lines(c1), k);
        lemma_field_of_lines(no_settings(), lines(c2), k);
        assert(lines_naming(lines(c1), k) == lines_naming(lines(c2), k));
    }
    lemma_settings_eq(a, b);
}

proof fn lemma_apply_concat(acc: ProfileSettings, a: Seq<Seq<char>>, b: Seq<Seq<char>>)
    ensures
        apply_profile_lines(acc, a + b) == apply_profile_lines(apply_profile_lines(acc, a), b),
    decreases a.len(),
{
    if a.len() == 0 {
        assert(a + b == b);
    } else {
        assert((a + b)[0] == a[0]);
        assert((a + b).drop_first() == a.drop_first() + b);
        lemma_apply_concat(apply_profile_line(acc, a[0]), a.drop_first(), b);
    }
}

proof fn lemma_apply_unrelated(acc: ProfileSettings, ls: Seq<Seq<char>>)
    requires
        forall|i: int| 0 <= i < ls.len() ==> setting_key(#[trigger] ls[i]) is None,
    ensures
        apply_profile_lines(acc, ls) == acc,
    decreases ls.len(),
{
    if ls.len() > 0 {
        assert(setting_key(ls[0]) is None);
        assert forall|i: int| 0 <= i < ls.drop_first().len() implies setting_key(
            #[trigger] ls.drop_first()[i],
        ) is None by {
            assert(ls.drop_first()[i] == ls[i + 1]);
        }
        lemma_apply_unrelated(acc, ls.drop_first());
    }
}

/// A `'\r'` before a line break does not change what the line says.
proof fn lemma_strip_cr_line(l: Seq<char>)
    ensures
        apply_profile_line_eq(l, strip_cr(l)),
{
    if l.len() > 0 && l.last() == '\r' {
        let m = l.drop_last();
        assert(l == m + seq!['\r']);
        lemma_find_char_prefix(m, seq!['\r'], '=');
        lemma_find_char_bound(m, '=');
        let i = find_char(m, '=');
        if i < m.len() {
            assert(l.take(i as int) == m.take(i as int));
            let v = l.skip(i + 1int);
            assert(v == m.skip(i + 1int) + seq!['\r']);
            assert(v.drop_last() == m.skip(i + 1int));
            assert(is_space(v.last()));
            lemma_trim_drop_space(v);
        } else {
            assert(find_char(seq!['\r'], '=') == 1) by {
                assert(seq!['\r'].drop_first() == Seq::<char>::empty());
                assert(find_char(Seq::<char>::empty(), '=') == 0);
            }
        }
    }
}

/// Two lines that say the same thing.
pub open spec fn apply_profile_line_eq(l1: Seq<char>, l2: Seq<char>) -> bool {
    setting_key(l1) == setting_key(l2) && setting_value(l1) == setting_value(l2)
}

/// A line break added at the end of a profile changes nothing.
proof fn lemma_newline_end(acc: ProfileSettings, c: Seq<char>)
    ensures
        apply_profile_lines(acc, lines(c + seq!['\n'])) == apply_profile_lines(acc, lines(c)),
    decreases c.len(),
{
    let c2 = c + seq!['\n'];
    lemma_find_char_prefix(c, seq!['\n'], '\n');
    lemma_find_char_bound(c, '\n');
    let i = find_char(c, '\n');
    if c.len() == 0 {
        assert(c2 == seq!['\n']);
        assert(c2.take(0) == Seq::<char>::empty());
        assert(c2.skip(1) == Seq::<char>::empty());
        assert(find_char(c2, '\n') == 0);
        assert(strip_cr(Seq::<char>::empty()) == Seq::<char>::empty());
        assert(lines(Seq::<char>::empty()) == Seq::<Seq<char>>::empty());
        assert(seq![Seq::<char>::empty()] + Seq::<Seq<char>>::empty() == seq![Seq::<char>::empty()]);
        assert(lines(c2) == seq![Seq::<char>::empty()]);
        assert(split_once(Seq::<char>::empty(), '=') is None);
        assert(seq![Seq::<char>::empty()].drop_first() == Seq::<Seq<char>>::empty());
    } else if i < c.len() {
        let rest = c.skip(i + 1int);
        assert(c2.take(i as int) == c.take(i as int));
        assert(c2.skip(i + 1int) == rest + seq!['\n']);
        let first = strip_cr(c.take(i as int));
        lemma_newline_end(apply_profile_line(acc, first), rest);
        assert((seq![first] + lines(rest)).drop_first() == lines(rest));
        assert((seq![first] + lines(rest + seq!['\n'])).drop_first() == lines(rest + seq!['\n']));
    } else {
        assert(find_char(seq!['\n'], '\n') == 0);
        assert(c2.take(c.len() as int) == c);
        assert(c2.skip(c.len() + 1int) == Seq::<char>::empty());
        lemma_strip_cr_line(c);
        assert(lines(c) == seq![c]);
        assert(lines(c2) == seq![strip_cr(c)] + lines(Seq::<char>::empty()));
        assert(seq![strip_cr(c)].drop_first() == Seq::<Seq<char>>::empty());
        assert(seq![c].drop_first() == Seq::<Seq<char>>::empty());
    }
}

/// Whether no line of a text names a setting.
pub open spec fn names_no_setting(s: Seq<char>) -> bool {
    forall|i: int| 0 <= i < lines(s).len() ==> setting_key(#[trigger] lines(s)[i]) is None
}

/// Lines that name no setting, added after a profile or before it, change nothing.
pub proof fn profile_ignores_unrelated_lines(content: Seq<char>, extra: Seq<char>)
    requires
        names_no_setting(extra),
    ensures
        profile_settings(content + "\n"@ + extra) == profile_settings(content),
        profile_settings(extra + "\n"@ + content) == profile_settings(content),
{
    reveal_strlit("\n");
    assert("\n"@ =~= seq!['\n']);
    let x = content + seq!['\n'];
    crate::text::lemma_lines_append(x, extra);
    lemma_apply_concat(no_settings(), lines(x), lines(extra));
    lemma_newline_end(no_settings(), content);
    lemma_apply_unrelated(apply_profile_lines(no_settings(), lines(x)), lines(extra));
    let y = extra + seq!['\n'];
    crate::text::lemma_lines_append(y, content);
    lemma_apply_concat(no_settings(), lines(y), lines(content));
    lemma_newline_end(no_settings(), extra);
    lemma_apply_unrelated(no_settings(), lines(extra));
}

proof fn lemma_field_unrelated(acc: ProfileSettings, ls: Seq<Seq<char>>, k: int)
    requires
        0 <= k < 8,
        forall|i: int| 0 <= i < ls.len() ==> setting_key(#[trigger] ls[i]) != Some(k),
    ensures
        field(apply_profile_lines(acc, ls), k) == field(acc, k),
    decreases ls.len(),
{
    if ls.len() > 0 {
        assert(setting_key(ls[0]) != Some(k));
        assert forall|i: int| 0 <= i < ls.drop_first().len() implies setting_key(
            #[trigger] ls.drop_first()[i],
        ) != Some(k) by {
            assert(ls.drop_first()[i] == ls[i + 1]);
        }
        lemma_field_unrelated(apply_profile_line(acc, ls[0]), ls.drop_first(), k);
    }
}

/// Whether no line of a text names setting `k`.
pub open spec fn never_names(s: Seq<char>, k: int) -> bool {
    forall|i: int| 0 <= i < lines(s).len() ==> setting_key(#[trigger] lines(s)[i]) != Some(k)
}

/// Lines that do not name a setting, added after a profile or before it, do not change
/// that setting.
pub proof fn setting_ignores_lines_not_naming_it(content: Seq<char>, extra: Seq<char>, k: int)
    requires
        0 <= k < 8,
        never_names(extra, k),
    ensures
        field(profile_settings(content + "\n"@ + extra), k) == field(profile_settings(content), k),
        field(profile_settings(extra + "\n"@ + content), k) == field(profile_settings(content), k),
{
    reveal_strlit("\n");
    assert("\n"@ =~= seq!['\n']);
    let x = content + seq!['\n'];
    crate::text::lemma_lines_append(x, extra);
    lemma_apply_concat(no_settings(), lines(x), lines(extra));
    lemma_newline_end(no_settings(), content);
    lemma_field_unrelated(apply_profile_lines(no_settings(), lines(x)), lines(extra), k);
    let y = extra + seq!['\n'];
    crate::text::lemma_lines_append(y, content);
    lemma_apply_concat(no_settings(), lines(y), lines(content));
    lemma_newline_end(no_settings(), extra);
    let acc = apply_profile_lines(no_settings(), lines(extra));
    lemma_field_unrelated(no_settings(), lines(extra), k);
    lemma_field_of_lines(acc, lines(content), k);
    lemma_field_of_lines(no_settings(), lines(content), k);
}

/// Lines that name none of the first five settings (MangoHud, the thermal guard, forced
/// OpenGL, Wine, the menu entry), added after a profile or before it, leave those five
/// settings as they are.
pub proof fn first_five_settings_ignore_other_lines(content: Seq<char>, extra: Seq<char>)
    requires
        forall|k: int| 0 <= k < 5 ==> #[trigger] never_names(extra, k),
    ensures
        forall|k: int|
            0 <= k < 5 ==> #[trigger] field(profile_settings(content + "\n"@ + extra), k) == field(
                profile_settings(content),
                k,
            ),
        forall|k: int|
            0 <= k < 5 ==> #[trigger] field(profile_settings(extra + "\n"@ + content), k) == field(
                profile_settings(content),
                k,
            ),
{
    assert forall|k: int| 0 <= k < 5 implies #[trigger] field(
        profile_settings(content + "\n"@ + extra),
        k,
    ) == field(profile_settings(content), k) by {
        assert(never_names(extra, k));
        setting_ignores_lines_not_naming_it(content, extra, k);
    }
    assert forall|k: int| 0 <= k < 5 implies #[trigger] field(
        profile_settings(extra + "\n"@ + content),
        k,
    ) == field(profile_settings(content), k) by {
        assert(never_names(extra, k));
        setting_ignores_lines_not_naming_it(content, extra, k);
    }
}

// ---------------------------------------------------------------------
// The settings dialog
// ---------------------------------------------------------------------

/// The arguments of the settings checklist: the game and the machine's profile in the
/// title; the MangoHud, GameMode and thermal-guard rows (checked) only where those
/// tools are installed; the frame-rate cap and unlocked mode (unchecked); forced OpenGL
/// and Wine (unchecked); remembering (checked) and the menu entry (unchecked).
pub open spec fn dialog_args_of(
    game_name: Seq<char>,
    profile: Profile,
    has_mangohud: bool,
    has_gamemode: bool,
    has_undervolt: bool,
) -> Seq<Seq<char>> {
    seq![
        "--list"@,
        "--checklist"@,
        "--title=Split ["@ + game_name + "] ["@ + profile_label(profile) + "]"@,
        "--column="@,
        "--column=Option"@,
        "--width=480"@,
        "--height=480"@,
    ] + (if has_mangohud {
        seq!["TRUE"@, "MangoHud Overlay"@]
    } else {
        Seq::empty()
    }) + (if has_gamemode {
        seq!["TRUE"@, "Gamemode"@]
    } else {
        Seq::empty()
    }) + (if has_undervolt {
        seq!["TRUE"@, "Thermal Guard"@]
    } else {
        Seq::empty()
    }) + seq![
        "FALSE"@,
        "FPS Limiter (60 FPS)"@,
        "FALSE"@,
        "Unlocked Mode (Benchmark)"@,
        "FALSE"@,
        "Force OpenGL (WineD3D)"@,
        "FALSE"@,
        "Use Wine instead of Proton"@,
        "TRUE"@,
        "Remember these settings"@,
        "FALSE"@,
        "Add to Application Menu"@,
    ]
}

pub fn dialog_args(
    game_name: &str,
    profile: Profile,
    has_mangohud: bool,
    has_gamemode: bool,
    has_undervolt: bool,
) -> (r: Vec<String>)
    ensures
        texts(r@) == dialog_args_of(game_name@, profile, has_mangohud, has_gamemode, has_undervolt),
{
    let mut r: Vec<String> = Vec::new();
    push_text(&mut r, "--list");
    push_text(&mut r, "--checklist");
    let mut title = concat("--title=Split [", game_name);
    title.append("] [");
    title.append(profile_name(profile));
    title.append("]");
    push_text(&mut r, title.as_str());
    push_text(&mut r, "--column=");
    push_text(&mut r, "--column=Option");
    push_text(&mut r, "--width=480");
    push_text(&mut r, "--height=480");
    if has_mangohud {
        push_text(&mut r, "TRUE");
        push_text(&mut r, "MangoHud Overlay");
    }
    if has_gamemode {
        push_text(&mut r, "TRUE");
        push_text(&mut r, "Gamemode");
    }
    if has_undervolt {
        push_text(&mut r, "TRUE");
        push_text(&mut r, "Thermal Guard");
    }
    push_text(&mut r, "FALSE");
    push_text(&mut r, "FPS Limiter (60 FPS)");
    push_text(&mut r, "FALSE");
    push_text(&mut r, "Unlocked Mode (Benchmark)");
    push_text(&mut r, "FALSE");
    push_text(&mut r, "Force OpenGL (WineD3D)");
    push_text(&mut r, "FALSE");
    push_text(&mut r, "Use Wine instead of Proton");
    push_text(&mut r, "TRUE");
    push_text(&mut r, "Remember these settings");
    push_text(&mut r, "FALSE");
    push_text(&mut r, "Add to Application Menu");
    assert(texts(r@) =~= dialog_args_of(game_name@, profile, has_mangohud, has_gamemode, has_undervolt));
    r
}

/// The settings a game is launched with, and whether to remember them.
#[derive(Clone, Copy, Debug, PartialEq, Eq, Structural)]
pub struct LaunchSettings {
    pub chosen: ProfileSettings,
    pub save_profile: bool,
}

/// The rows the user left checked, from the dialog's output, and whether to remember
/// them; `None` when the output is blank (the dialog was cancelled).
pub open spec fn dialog_choice_of(sel: Seq<char>) -> Option<LaunchSettings> {
    if trim(sel).len() == 0 {
        None
    } else {
        Some(
            LaunchSettings {
                chosen: ProfileSettings {
                    mango: contains(sel, "MangoHud Overlay"@),
                    thermal: contains(sel, "Thermal Guard"@),
                    force_opengl: contains(sel, "Force OpenGL"@),
                    use_wine: contains(sel, "Use Wine instead of Proton"@),
                    add_to_menu: contains(sel, "Add to Application Menu"@),
                    gamemode: contains(sel, "Gamemode"@),
                    fps_limit: contains(sel, "FPS Limiter"@),
                    unlocked: contains(sel, "Unlocked Mode"@),
                },
                save_profile: contains(sel, "Remember these settings"@),
            },
        )
    }
}

pub fn parse_dialog_selection(sel: &str) -> (c: Option<LaunchSettings>)
    ensures
        c == dialog_choice_of(sel@),
{
    let v = chars_of(sel);
    assert(v@.subrange(0, v.len() as int) == v@);
    let (a, b) = trim_window(&v, 0, v.len());
    if a == b {
        return None;
    }
    Some(
        LaunchSettings {
            chosen: ProfileSettings {
                mango: str_contains(sel, "MangoHud Overlay"),
                thermal: str_contains(sel, "Thermal Guard"),
                force_opengl: str_contains(sel, "Force OpenGL"),
                use_wine: str_contains(sel, "Use Wine instead of Proton"),
                add_to_menu: str_contains(sel, "Add to Application Menu"),
                gamemode: str_contains(sel, "Gamemode"),
                fps_limit: str_contains(sel, "FPS Limiter"),
                unlocked: str_contains(sel, "Unlocked Mode"),
            },
            save_profile: str_contains(sel, "Remember these settings"),
        },
    )
}

// ---------------------------------------------------------------------
// The settings of a launch
// ---------------------------------------------------------------------

/// Settings read from a saved profile, which need not be saved again.
pub fn settings_from_profile(p: ProfileSettings) -> (l: LaunchSettings)
    ensures
        l == (LaunchSettings { chosen: p, save_profile: false }),
{
    LaunchSettings { chosen: p, save_profile: false }
}

/// Where a launch takes its settings from.
#[derive(Clone, Copy, Debug, PartialEq, Eq, Structural)]
pub enum SettingsSource {
    /// The game's saved profile.
    SavedProfile,
    /// Ask whether to reuse the saved profile.
    AskReuse,
    /// The settings dialog.
    Dialog,
    /// Quick mode with no saved profile: the launch is refused.
    MissingProfile,
}

/// In quick mode the saved profile is used, and its absence refuses the launch;
/// otherwise a saved profile is offered for reuse, and without one the dialog is shown.
pub fn settings_source(quick: bool, has_saved: bool) -> (s: SettingsSource)
    ensures
        s == (if quick {
            if has_saved {
                SettingsSource::SavedProfile
            } else {
                SettingsSource::MissingProfile
            }
        } else if has_saved {
            SettingsSource::AskReuse
        } else {
            SettingsSource::Dialog
        }),
{
    if quick {
        if has_saved {
            SettingsSource::SavedProfile
        } else {
            SettingsSource::MissingProfile
        }
    } else if has_saved {
        SettingsSource::AskReuse
    } else {
        SettingsSource::Dialog
    }
}

/// After the reuse question: the saved profile if the user agreed, else the dialog.
pub fn reuse_answer(reuse: bool) -> (s: SettingsSource)
    ensures
        s == (if reuse {
            SettingsSource::SavedProfile
        } else {
            SettingsSource::Dialog
        }),
{
    if reuse {
        SettingsSource::SavedProfile
    } else {
        SettingsSource::Dialog
    }
}

/// Settings remembered from a launch are read back at the next launch as the same
/// settings, not to be saved again.
pub proof fn remembered_settings_come_back(l: LaunchSettings)
    ensures
        (LaunchSettings {
            chosen: profile_settings(profile_text(standard_entries(l.chosen))),
            save_profile: false,
        }) == (LaunchSettings { save_profile: false, ..l }),
{
    profile_round_trip(l.chosen);
}

} // verus!
