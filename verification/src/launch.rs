//! Launching a game: the command line, the game's tag and prefix, finding
//! Steam, Proton and Wine, crack detection, and the environment and command
//! the game runs with.
use vstd::prelude::*;
use vstd::string::StringExecFns;
use crate::hw::GpuVendor;
use crate::profile::ProfileSettings;
use crate::text::{
    chars_of, concat, concat3, ends_with, pair_texts, push_pair, push_string, push_text, texts, lemma_replace_char, lines, lowercase, next_line,
    replace, replace_text, str_ends_with, str_eq, string_of, to_lowercase, trim, trim_window,
};

verus! {

// ---------------------------------------------------------------------
// Command line
// ---------------------------------------------------------------------

/// What the launcher is asked to do.
#[derive(Clone, Copy, Debug, PartialEq, Eq, Structural)]
pub enum CliCommand {
    /// Register the launcher as the handler of `.exe` files.
    Integrate,
    /// Rebuild and reinstall the launcher.
    Update,
    /// Print what is known of the machine.
    Info,
    /// Launch a game.
    Launch,
}

/// The command named by the first argument after the program's name; anything else
/// is a launch.
pub open spec fn command_of(args: Seq<Seq<char>>) -> CliCommand {
    if args.len() > 1 && args[1] == "integrate"@ {
        CliCommand::Integrate
    } else if args.len() > 1 && args[1] == "update"@ {
        CliCommand::Update
    } else if args.len() > 1 && args[1] == "info"@ {
        CliCommand::Info
    } else {
        CliCommand::Launch
    }
}

pub fn parse_command(args: &Vec<String>) -> (c: CliCommand)
    ensures
        c == command_of(texts(args@)),
{
    if args.len() > 1 {
        let a = args[1].as_str();
        if str_eq(a, "integrate") {
            return CliCommand::Integrate;
        }
        if str_eq(a, "update") {
            return CliCommand::Update;
        }
        if str_eq(a, "info") {
            return CliCommand::Info;
        }
    }
    CliCommand::Launch
}

/// Whether any argument is `--quick`.
pub fn is_quick_mode(args: &Vec<String>) -> (q: bool)
    ensures
        q == exists|i: int| 0 <= i < args.len() && (#[trigger] args@[i])@ == "--quick"@,
{
    let mut i: usize = 0;
    while i < args.len()
        invariant
            i <= args.len(),
            forall|j: int| 0 <= j < i ==> (#[trigger] args@[j])@ != "--quick"@,
        decreases args.len() - i,
    {
        if str_eq(args[i].as_str(), "--quick") {
            return true;
        }
        i = i + 1;
    }
    false
}

/// The first of `args` that ends in `.exe`.
pub open spec fn first_exe(args: Seq<Seq<char>>) -> Option<Seq<char>>
    decreases args.len(),
{
    if args.len() == 0 {
        None
    } else if ends_with(args[0], ".exe"@) {
        Some(args[0])
    } else {
        first_exe(args.drop_first())
    }
}

/// The game to launch: the first argument that ends in `.exe`, else the first
/// argument after the program's name; `None` when there is neither.
pub open spec fn target_of(args: Seq<Seq<char>>) -> Option<Seq<char>> {
    match first_exe(args) {
        Some(a) => Some(a),
        None => if args.len() > 1 {
            Some(args[1])
        } else {
            None
        },
    }
}

pub fn target_exe(args: &Vec<String>) -> (t: Option<String>)
    ensures
        match t {
            Some(s) => target_of(texts(args@)) == Some(s@),
            None => target_of(texts(args@)) is None,
        },
{
    let ghost all = texts(args@);
    let mut i: usize = 0;
    assert(all.skip(0) == all);
    while i < args.len()
        invariant
            i <= args.len(),
            all == texts(args@),
            first_exe(all) == first_exe(all.skip(i as int)),
        decreases args.len() - i,
    {
        assert(all.skip(i as int).drop_first() == all.skip(i + 1));
        assert(all.skip(i as int)[0] == args@[i as int]@);
        if str_ends_with(args[i].as_str(), ".exe") {
            return Some(args[i].clone());
        }
        i = i + 1;
    }
    assert(all.skip(i as int) == Seq::<Seq<char>>::empty());
    if args.len() > 1 {
        Some(args[1].clone())
    } else {
        None
    }
}

// ---------------------------------------------------------------------
// The game's names and places
// ---------------------------------------------------------------------

/// A game's tag: its executable's name without `.exe`, spaces made underscores,
/// in lower case.
pub open spec fn game_tag_of(exe_name: Seq<char>) -> Seq<char> {
    lowercase(replace(replace(exe_name, ".exe"@, Seq::empty()), " "@, "_"@))
}

pub fn game_tag(exe_name: &str) -> (t: String)
    ensures
        t@ == game_tag_of(exe_name@),
{
    proof {
        reveal_strlit(".exe");
        reveal_strlit(" ");
        reveal_strlit("");
        assert(""@ =~= Seq::<char>::empty());
    }
    let a = replace_text(exe_name, ".exe", "");
    let b = replace_text(a.as_str(), " ", "_");
    to_lowercase(b.as_str())
}

/// Where a game's Wine prefix lives.
pub fn prefix_path(home: &str, game_tag: &str) -> (p: String)
    ensures
        p@ == home@ + "/.local/share/split_data/"@ + game_tag@,
{
    concat3(home, "/.local/share/split_data/", game_tag)
}

/// A game's name made fit for a file name: spaces and slashes become underscores.
pub open spec fn safe_name_of(name: Seq<char>) -> Seq<char> {
    replace(replace(name, " "@, "_"@), "/"@, "_"@)
}

pub fn safe_name(name: &str) -> (s: String)
    ensures
        s@ == safe_name_of(name@),
{
    proof {
        reveal_strlit(" ");
        reveal_strlit("/");
    }
    let a = replace_text(name, " ", "_");
    replace_text(a.as_str(), "/", "_")
}

/// The file-name form of a game's name has no slash and no space, so its menu entry
/// stays in the applications directory.
pub proof fn safe_name_has_no_separator(name: Seq<char>)
    ensures
        !safe_name_of(name).contains('/'),
        !safe_name_of(name).contains(' '),
{
    reveal_strlit(" ");
    reveal_strlit("/");
    reveal_strlit("_");
    assert(" "@ =~= seq![' ']);
    assert("/"@ =~= seq!['/']);
    assert(!"_"@.contains(' '));
    assert(!"_"@.contains('/'));
    let a = replace(name, seq![' '], "_"@);
    lemma_replace_char(name, ' ', "_"@, ' ');
    lemma_replace_char(a, '/', "_"@, ' ');
}

// ---------------------------------------------------------------------
// Steam, Proton, Wine
// ---------------------------------------------------------------------

/// Where a Steam installation is looked for, in order.
pub open spec fn steam_candidates_of(home: Seq<char>) -> Seq<Seq<char>> {
    seq![
        home + "/.local/share/Steam"@,
        home + "/.steam/steam"@,
        "/usr/share/steam"@,
        home + "/.var/app/com.valvesoftware.Steam/data/Steam"@,
    ]
}

pub fn steam_root_candidates(home: &str) -> (c: Vec<String>)
    ensures
        texts(c@) == steam_candidates_of(home@),
        c.len() == 4,
{
    let mut c: Vec<String> = Vec::new();
    push_string(&mut c, concat(home, "/.local/share/Steam"));
    push_string(&mut c, concat(home, "/.steam/steam"));
    push_text(&mut c, "/usr/share/steam");
    push_string(&mut c, concat(home, "/.var/app/com.valvesoftware.Steam/data/Steam"));
    assert(texts(c@) =~= steam_candidates_of(home@));
    c
}

/// The two entries whose presence marks a Steam installation at `root`.
pub fn steam_markers(root: &str) -> (m: (String, String))
    ensures
        m.0@ == root@ + "/steamapps"@,
        m.1@ == root@ + "/compatibilitytools.d"@,
{
    (concat(root, "/steamapps"), concat(root, "/compatibilitytools.d"))
}

/// The index of the first candidate marked as a Steam installation, if any.
pub open spec fn first_marked(marked: Seq<bool>, n: int) -> Option<int>
    decreases n,
{
    if n <= 0 {
        None
    } else {
        match first_marked(marked, n - 1) {
            Some(i) => Some(i),
            None => if n - 1 < marked.len() && marked[n - 1] {
                Some(n - 1)
            } else {
                None
            },
        }
    }
}

/// The Steam installation: the first candidate with a `steamapps` or
/// `compatibilitytools.d` entry (`marked[i]` for the `i`-th candidate, a missing flag
/// counting as absent), else the first candidate.
pub open spec fn steam_root_of(home: Seq<char>, marked: Seq<bool>) -> Seq<char> {
    match first_marked(marked, 4) {
        Some(i) => steam_candidates_of(home)[i],
        None => steam_candidates_of(home)[0],
    }
}

proof fn lemma_first_marked(marked: Seq<bool>, i: int, n: int)
    requires
        0 <= i < n,
        i < marked.len(),
        marked[i],
        forall|j: int| 0 <= j < i && j < marked.len() ==> !marked[j],
    ensures
        first_marked(marked, n) == Some(i),
        first_marked(marked, i) is None,
    decreases n,
{
    if n > i + 1 {
        lemma_first_marked(marked, i, n - 1);
    } else {
        lemma_none_marked(marked, i);
    }
}

proof fn lemma_none_marked(marked: Seq<bool>, n: int)
    requires
        forall|j: int| 0 <= j < n && j < marked.len() ==> !marked[j],
    ensures
        first_marked(marked, n) is None,
    decreases n,
{
    if n > 0 {
        lemma_none_marked(marked, n - 1);
    }
}

/// The Steam installation is the first marked candidate, in the order searched: when
/// candidate `i` is marked and none before it is, it is candidate `i`, whatever the later
/// candidates hold.
pub proof fn steam_root_is_the_first_marked(home: Seq<char>, marked: Seq<bool>, i: int)
    requires
        0 <= i < 4,
        i < marked.len(),
        marked[i],
        forall|j: int| 0 <= j < i ==> !marked[j],
    ensures
        steam_root_of(home, marked) == steam_candidates_of(home)[i],
{
    lemma_first_marked(marked, i, 4);
}

/// A Steam installation under `~/.local/share/Steam` is always the one used; with no
/// installation marked, that is the place used too.
pub proof fn user_steam_install_comes_first(home: Seq<char>, marked: Seq<bool>)
    requires
        (marked.len() > 0 && marked[0]) || (forall|j: int| 0 <= j < marked.len() ==> !marked[j]),
    ensures
        steam_root_of(home, marked) == home + "/.local/share/Steam"@,
{
    if marked.len() > 0 && marked[0] {
        lemma_first_marked(marked, 0, 4);
    } else {
        lemma_none_marked(marked, 4);
    }
}

pub fn find_steam_root(home: &str, marked: &Vec<bool>) -> (r: String)
    ensures
        r@ == steam_root_of(home@, marked@),
{
    let c = steam_root_candidates(home);
    let mut i: usize = 0;
    while i < 4
        invariant
            i <= 4,
            texts(c@) == steam_candidates_of(home@),
            c.len() == 4,
            first_marked(marked@, i as int) is None,
        decreases 4 - i,
    {
        if i < marked.len() && marked[i] {
            assert(first_marked(marked@, i + 1) == Some(i as int));
            assert(first_marked(marked@, 4) == Some(i as int)) by {
                reveal_with_fuel(first_marked, 4);
            }
            assert(c@[i as int]@ == texts(c@)[i as int]);
            return c[i].clone();
        }
        i = i + 1;
    }
    assert(c@[0]@ == texts(c@)[0]);
    c[0].clone()
}

/// Where a Proton build is looked for, in order.
pub open spec fn proton_candidates_of(steam_root: Seq<char>) -> Seq<Seq<char>> {
    seq![
        steam_root + "/compatibilitytools.d/proton-cachyos/proton"@,
        steam_root + "/compatibilitytools.d/proton-cachyos-slr/proton"@,
        steam_root + "/compatibilitytools.d/proton/proton"@,
        "/usr/share/steam/compatibilitytools.d/proton-cachyos/proton"@,
        "/usr/share/steam/compatibilitytools.d/proton/proton"@,
    ]
}

pub fn proton_candidates(steam_root: &str) -> (c: Vec<String>)
    ensures
        texts(c@) == proton_candidates_of(steam_root@),
        c.len() == 5,
{
    let mut c: Vec<String> = Vec::new();
    push_string(&mut c, concat(steam_root, "/compatibilitytools.d/proton-cachyos/proton"));
    push_string(&mut c, concat(steam_root, "/compatibilitytools.d/proton-cachyos-slr/proton"));
    push_string(&mut c, concat(steam_root, "/compatibilitytools.d/proton/proton"));
    push_text(&mut c, "/usr/share/steam/compatibilitytools.d/proton-cachyos/proton");
    push_text(&mut c, "/usr/share/steam/compatibilitytools.d/proton/proton");
    assert(texts(c@) =~= proton_candidates_of(steam_root@));
    c
}

/// Proton as far as the quick probes settle it: `proton` when it is on the `PATH`, else
/// the first candidate that exists (`exists[i]` for the `i`-th, a missing flag counting
/// as absent); `None` when the installation has to be searched for.
pub open spec fn proton_probed(steam_root: Seq<char>, on_path: bool, exists: Seq<bool>) -> Option<
    Seq<char>,
> {
    if on_path {
        Some("proton"@)
    } else {
        match first_marked(exists, 5) {
            Some(i) => Some(proton_candidates_of(steam_root)[i]),
            None => None,
        }
    }
}

pub fn find_proton(steam_root: &str, on_path: bool, exists: &Vec<bool>) -> (p: Option<String>)
    ensures
        match p {
            Some(s) => proton_probed(steam_root@, on_path, exists@) == Some(s@),
            None => proton_probed(steam_root@, on_path, exists@) is None,
        },
{
    if on_path {
        return Some(String::from_str("proton"));
    }
    let c = proton_candidates(steam_root);
    let mut i: usize = 0;
    while i < 5
        invariant
            i <= 5,
            texts(c@) == proton_candidates_of(steam_root@),
            c.len() == 5,
            !on_path,
            first_marked(exists@, i as int) is None,
        decreases 5 - i,
    {
        if i < exists.len() && exists[i] {
            assert(first_marked(exists@, i + 1) == Some(i as int));
            assert(first_marked(exists@, 5) == Some(i as int)) by {
                reveal_with_fuel(first_marked, 5);
            }
            assert(c@[i as int]@ == texts(c@)[i as int]);
            return Some(c[i].clone());
        }
        i = i + 1;
    }
    None
}

/// The arguments of the search for a Proton build under `/usr/share/steam`.
pub fn proton_search_args() -> (a: Vec<String>)
    ensures
        texts(a@) == seq![
            "/usr/share/steam"@,
            "-name"@,
            "proton"@,
            "-type"@,
            "f"@,
            "-maxdepth"@,
            "5"@,
        ],
{
    let mut a: Vec<String> = Vec::new();
    push_text(&mut a, "/usr/share/steam");
    push_text(&mut a, "-name");
    push_text(&mut a, "proton");
    push_text(&mut a, "-type");
    push_text(&mut a, "f");
    push_text(&mut a, "-maxdepth");
    push_text(&mut a, "5");
    a
}

/// Proton from the search's output: its first line, trimmed; `proton` when the search
/// could not run or found nothing.
pub open spec fn proton_searched(output: Option<Seq<char>>) -> Seq<char> {
    match output {
        Some(o) => if lines(o).len() > 0 {
            trim(lines(o)[0])
        } else {
            "proton"@
        },
        None => "proton"@,
    }
}

pub fn proton_from_search(output: Option<&str>) -> (p: String)
    ensures
        p@ == proton_searched(
            match output {
                Some(o) => Some(o@),
                None => None,
            },
        ),
{
    match output {
        Some(o) => {
            let v = chars_of(o);
            if v.len() == 0 {
                return String::from_str("proton");
            }
            assert(v@.skip(0) == v@);
            let (a, b, _next) = next_line(&v, 0);
            let (x, y) = trim_window(&v, a, b);
            string_of(&v, x, y)
        },
        None => String::from_str("proton"),
    }
}

/// Where Wine is looked for on the `PATH`, in order.
pub open spec fn wine_candidates_of() -> Seq<Seq<char>> {
    seq!["wine"@, "wine-staging"@, "wine-stable"@]
}

pub fn wine_candidates() -> (c: Vec<String>)
    ensures
        texts(c@) == wine_candidates_of(),
        c.len() == 3,
{
    let mut c: Vec<String> = Vec::new();
    push_text(&mut c, "wine");
    push_text(&mut c, "wine-staging");
    push_text(&mut c, "wine-stable");
    assert(texts(c@) =~= wine_candidates_of());
    c
}

/// The first Wine found on the `PATH` (`available[i]` for the `i`-th candidate, a
/// missing flag counting as absent), else `wine`.
pub open spec fn wine_of(available: Seq<bool>) -> Seq<char> {
    match first_marked(available, 3) {
        Some(i) => wine_candidates_of()[i],
        None => "wine"@,
    }
}

pub fn find_wine(available: &Vec<bool>) -> (w: String)
    ensures
        w@ == wine_of(available@),
{
    let c = wine_candidates();
    let mut i: usize = 0;
    while i < 3
        invariant
            i <= 3,
            texts(c@) == wine_candidates_of(),
            c.len() == 3,
            first_marked(available@, i as int) is None,
        decreases 3 - i,
    {
        if i < available.len() && available[i] {
            assert(first_marked(available@, i + 1) == Some(i as int));
            assert(first_marked(available@, 3) == Some(i as int)) by {
                reveal_with_fuel(first_marked, 3);
            }
            assert(c@[i as int]@ == texts(c@)[i as int]);
            return c[i].clone();
        }
        i = i + 1;
    }
    String::from_str("wine")
}

// ---------------------------------------------------------------------
// Crack detection
// ---------------------------------------------------------------------

/// Files that only cracked releases ship.
pub open spec fn crack_files_of() -> Seq<Seq<char>> {
    seq![
        "CPY.ini"@,
        "CODEX.ini"@,
        "SKIDROW.ini"@,
        "ALI213.ini"@,
        "cream_api.ini"@,
        "SmartSteamEmu.ini"@,
        "steam_emu.ini"@,
        "CrackStatus.txt"@,
        "README-SKIDROW.txt"@,
        "README-CODEX.txt"@,
        "SteamworksFix.ini"@,
        "Goldberg.ini"@,
    ]
}

/// Every file whose presence in the game's directory crack detection looks at.
pub open spec fn crack_probes_of() -> Seq<Seq<char>> {
    crack_files_of() + seq![
        "steam_api64.dll"@,
        "steam_api.dll"@,
        "steam_appid.txt"@,
        "installscript.vdf"@,
    ]
}

pub fn crack_probe_files() -> (c: Vec<String>)
    ensures
        texts(c@) == crack_probes_of(),
        c.len() == 16,
{
    let mut c: Vec<String> = Vec::new();
    push_text(&mut c, "CPY.ini");
    push_text(&mut c, "CODEX.ini");
    push_text(&mut c, "SKIDROW.ini");
    push_text(&mut c, "ALI213.ini");
    push_text(&mut c, "cream_api.ini");
    push_text(&mut c, "SmartSteamEmu.ini");
    push_text(&mut c, "steam_emu.ini");
    push_text(&mut c, "CrackStatus.txt");
    push_text(&mut c, "README-SKIDROW.txt");
    push_text(&mut c, "README-CODEX.txt");
    push_text(&mut c, "SteamworksFix.ini");
    push_text(&mut c, "Goldberg.ini");
    push_text(&mut c, "steam_api64.dll");
    push_text(&mut c, "steam_api.dll");
    push_text(&mut c, "steam_appid.txt");
    push_text(&mut c, "installscript.vdf");
    assert(texts(c@) =~= crack_probes_of());
    c
}

pub open spec fn has_file(present: Seq<Seq<char>>, name: Seq<char>) -> bool {
    present.contains(name)
}

/// A game is taken to be cracked when one of the crack files is present, or when it
/// ships a Steam API library and a `steam_appid.txt` but no `installscript.vdf`.
pub open spec fn is_cracked_spec(present: Seq<Seq<char>>) -> bool {
    ||| exists|k: int| 0 <= k < crack_files_of().len() && has_file(present, #[trigger] crack_files_of()[k])
    ||| {
        &&& has_file(present, "steam_api64.dll"@) || has_file(present, "steam_api.dll"@)
        &&& has_file(present, "steam_appid.txt"@)
        &&& !has_file(present, "installscript.vdf"@)
    }
}

/// Each of the twelve crack files alone marks a game as cracked, whatever else its
/// directory holds.
pub proof fn every_crack_file_marks_a_crack(present: Seq<Seq<char>>, name: Seq<char>)
    requires
        present.contains(name),
        seq![
            "CPY.ini"@,
            "CODEX.ini"@,
            "SKIDROW.ini"@,
            "ALI213.ini"@,
            "cream_api.ini"@,
            "SmartSteamEmu.ini"@,
            "steam_emu.ini"@,
            "CrackStatus.txt"@,
            "README-SKIDROW.txt"@,
            "README-CODEX.txt"@,
            "SteamworksFix.ini"@,
            "Goldberg.ini"@,
        ].contains(name),
    ensures
        is_cracked_spec(present),
{
    let l = seq![
        "CPY.ini"@,
        "CODEX.ini"@,
        "SKIDROW.ini"@,
        "ALI213.ini"@,
        "cream_api.ini"@,
        "SmartSteamEmu.ini"@,
        "steam_emu.ini"@,
        "CrackStatus.txt"@,
        "README-SKIDROW.txt"@,
        "README-CODEX.txt"@,
        "SteamworksFix.ini"@,
        "Goldberg.ini"@,
    ];
    assert(crack_files_of() == l);
    let k = choose|k: int| 0 <= k < l.len() && l[k] == name;
    assert(has_file(present, crack_files_of()[k]));
}

/// A game that ships a Steam API library and a `steam_appid.txt` but no
/// `installscript.vdf` is taken as cracked.
pub proof fn steam_emulation_marks_a_crack(present: Seq<Seq<char>>)
    requires
        present.contains("steam_api64.dll"@) || present.contains("steam_api.dll"@),
        present.contains("steam_appid.txt"@),
        !present.contains("installscript.vdf"@),
    ensures
        is_cracked_spec(present),
{
}

/// A directory with none of the probe files is not cracked.
pub proof fn clean_directory_is_not_cracked(present: Seq<Seq<char>>)
    requires
        forall|i: int| 0 <= i < present.len() ==> !crack_probes_of().contains(#[trigger] present[i]),
    ensures
        !is_cracked_spec(present),
{
    assert forall|k: int| 0 <= k < crack_files_of().len() implies !has_file(
        present,
        #[trigger] crack_files_of()[k],
    ) by {
        assert(crack_probes_of()[k] == crack_files_of()[k]);
        if present.contains(crack_files_of()[k]) {
            let i = choose|i: int| 0 <= i < present.len() && present[i] == crack_files_of()[k];
            assert(crack_probes_of().contains(present[i]));
        }
    }
    assert(crack_probes_of()[13] == "steam_api.dll"@);
    assert(crack_probes_of()[12] == "steam_api64.dll"@);
    if present.contains("steam_api64.dll"@) {
        let i = choose|i: int| 0 <= i < present.len() && present[i] == "steam_api64.dll"@;
        assert(crack_probes_of().contains(present[i]));
    }
    if present.contains("steam_api.dll"@) {
        let i = choose|i: int| 0 <= i < present.len() && present[i] == "steam_api.dll"@;
        assert(crack_probes_of().contains(present[i]));
    }
}

fn has_name(present: &Vec<String>, name: &str) -> (b: bool)
    ensures
        b == has_file(texts(present@), name@),
{
    let mut i: usize = 0;
    while i < present.len()
        invariant
            i <= present.len(),
            forall|j: int| 0 <= j < i ==> (#[trigger] present@[j])@ != name@,
        decreases present.len() - i,
    {
        if str_eq(present[i].as_str(), name) {
            assert(texts(present@)[i as int] == name@);
            return true;
        }
        i = i + 1;
    }
    assert forall|j: int| 0 <= j < texts(present@).len() implies texts(present@)[j] != name@ by {
        assert(texts(present@)[j] == present@[j]@);
    }
    false
}

/// Whether the game is cracked, from the names of the probe files present in its directory.
pub fn is_cracked(present: &Vec<String>) -> (b: bool)
    ensures
        b == is_cracked_spec(texts(present@)),
{
    let probes = crack_probe_files();
    let mut k: usize = 0;
    while k < 12
        invariant
            k <= 12,
            texts(probes@) == crack_probes_of(),
            probes.len() == 16,
            forall|j: int| 0 <= j < k ==> !has_file(texts(present@), #[trigger] crack_files_of()[j]),
        decreases 12 - k,
    {
        assert(texts(probes@)[k as int] == probes@[k as int]@);
        assert(crack_probes_of()[k as int] == crack_files_of()[k as int]);
        if has_name(present, probes[k].as_str()) {
            return true;
        }
        k = k + 1;
    }
    let has_api = has_name(present, "steam_api64.dll") || has_name(present, "steam_api.dll");
    has_api && has_name(present, "steam_appid.txt") && !has_name(present, "installscript.vdf")
}

// ---------------------------------------------------------------------
// The environment and command of a launch
// ---------------------------------------------------------------------

/// What runs the game.
#[derive(Clone, Copy, Debug, PartialEq, Eq, Structural)]
pub enum Runner {
    Wine,
    Proton,
}

/// A cracked game always runs under Wine; otherwise Wine only when asked for.
pub fn runner_for(use_wine: bool, cracked: bool) -> (r: Runner)
    ensures
        r == (if use_wine || cracked {
            Runner::Wine
        } else {
            Runner::Proton
        }),
{
    if use_wine || cracked {
        Runner::Wine
    } else {
        Runner::Proton
    }
}

/// The environment of a launch: the prefix and the Mesa, vsync and fsync settings; Intel's
/// `iris` driver on Intel GPUs; with forced OpenGL, WineD3D (built-in DXGI and D3D11 under
/// Wine, `PROTON_USE_WINED3D` under Proton); with the frame-rate cap and without unlocked
/// mode, DXVK capped at 60 frames a second; under Proton, Steam's compatibility paths.
pub open spec fn launch_env_of(
    prefix: Seq<char>,
    steam_root: Seq<char>,
    vendor: GpuVendor,
    chosen: ProfileSettings,
    runner: Runner,
) -> Seq<(Seq<char>, Seq<char>)> {
    seq![
        ("WINEPREFIX"@, prefix),
        ("mesa_glthread"@, "true"@),
        ("vblank_mode"@, "0"@),
        ("WINEFSYNC"@, "1"@),
    ] + (if vendor == GpuVendor::Intel {
        seq![("MESA_LOADER_DRIVER_OVERRIDE"@, "iris"@)]
    } else {
        Seq::empty()
    }) + (if chosen.force_opengl {
        if runner == Runner::Wine {
            seq![("WINEDLLOVERRIDES"@, "dxgi=b;d3d11=b"@)]
        } else {
            seq![("PROTON_USE_WINED3D"@, "1"@)]
        }
    } else {
        Seq::empty()
    }) + (if chosen.fps_limit && !chosen.unlocked {
        seq![("DXVK_FRAME_RATE"@, "60"@)]
    } else {
        Seq::empty()
    }) + (if runner == Runner::Proton {
        seq![("STEAM_COMPAT_DATA_PATH"@, prefix), ("STEAM_COMPAT_CLIENT_INSTALL_PATH"@, steam_root)]
    } else {
        Seq::empty()
    })
}

pub fn launch_env(
    prefix: &str,
    steam_root: &str,
    vendor: GpuVendor,
    chosen: &ProfileSettings,
    runner: Runner,
) -> (e: Vec<(String, String)>)
    ensures
        pair_texts(e@) == launch_env_of(prefix@, steam_root@, vendor, *chosen, runner),
{
    let mut e: Vec<(String, String)> = Vec::new();
    push_pair(&mut e, "WINEPREFIX", prefix);
    push_pair(&mut e, "mesa_glthread", "true");
    push_pair(&mut e, "vblank_mode", "0");
    push_pair(&mut e, "WINEFSYNC", "1");
    if vendor == GpuVendor::Intel {
        push_pair(&mut e, "MESA_LOADER_DRIVER_OVERRIDE", "iris");
    }
    if chosen.force_opengl {
        match runner {
            Runner::Wine => push_pair(&mut e, "WINEDLLOVERRIDES", "dxgi=b;d3d11=b"),
            Runner::Proton => push_pair(&mut e, "PROTON_USE_WINED3D", "1"),
        }
    }
    if chosen.fps_limit && !chosen.unlocked {
        push_pair(&mut e, "DXVK_FRAME_RATE", "60");
    }
    match runner {
        Runner::Proton => {
            push_pair(&mut e, "STEAM_COMPAT_DATA_PATH", prefix);
            push_pair(&mut e, "STEAM_COMPAT_CLIENT_INSTALL_PATH", steam_root);
        },
        Runner::Wine => {},
    }
    assert(pair_texts(e@) =~= launch_env_of(prefix@, steam_root@, vendor, *chosen, runner));
    e
}

/// On an Intel GPU the launch selects Mesa's `iris` driver whatever runs the game: the
/// environment starts with the prefix, the Mesa, vsync and fsync settings and the
/// `iris` override, under Wine and under Proton alike.
pub proof fn intel_gpus_use_iris_under_every_runner(
    prefix: Seq<char>,
    steam_root: Seq<char>,
    chosen: ProfileSettings,
    runner: Runner,
)
    ensures
        launch_env_of(prefix, steam_root, GpuVendor::Intel, chosen, runner).take(5) == seq![
            ("WINEPREFIX"@, prefix),
            ("mesa_glthread"@, "true"@),
            ("vblank_mode"@, "0"@),
            ("WINEFSYNC"@, "1"@),
            ("MESA_LOADER_DRIVER_OVERRIDE"@, "iris"@),
        ],
        launch_env_of(prefix, steam_root, GpuVendor::Intel, chosen, runner).contains(
            ("MESA_LOADER_DRIVER_OVERRIDE"@, "iris"@),
        ),
{
    let e = launch_env_of(prefix, steam_root, GpuVendor::Intel, chosen, runner);
    assert(e.take(5) =~= seq![
        ("WINEPREFIX"@, prefix),
        ("mesa_glthread"@, "true"@),
        ("vblank_mode"@, "0"@),
        ("WINEFSYNC"@, "1"@),
        ("MESA_LOADER_DRIVER_OVERRIDE"@, "iris"@),
    ]);
    assert(e[4] == ("MESA_LOADER_DRIVER_OVERRIDE"@, "iris"@));
}

/// Without forced OpenGL, the runner changes only Steam's compatibility paths: Proton's
/// environment is Wine's with those two pairs added at the end.
pub proof fn proton_adds_only_steam_paths(
    prefix: Seq<char>,
    steam_root: Seq<char>,
    vendor: GpuVendor,
    chosen: ProfileSettings,
)
    requires
        !chosen.force_opengl,
    ensures
        launch_env_of(prefix, steam_root, vendor, chosen, Runner::Proton) == launch_env_of(
            prefix,
            steam_root,
            vendor,
            chosen,
            Runner::Wine,
        ) + seq![("STEAM_COMPAT_DATA_PATH"@, prefix), ("STEAM_COMPAT_CLIENT_INSTALL_PATH"@, steam_root)],
{
    assert(launch_env_of(prefix, steam_root, vendor, chosen, Runner::Proton) =~= launch_env_of(
        prefix,
        steam_root,
        vendor,
        chosen,
        Runner::Wine,
    ) + seq![("STEAM_COMPAT_DATA_PATH"@, prefix), ("STEAM_COMPAT_CLIENT_INSTALL_PATH"@, steam_root)]);
}

/// The command of a launch: under GameMode when it is wanted and installed, then under
/// the MangoHud overlay when that is wanted and installed; Wine runs the executable by
/// name (from the game's directory), Proton runs it by path.
pub open spec fn launch_command_of(
    gamemode: bool,
    overlay: bool,
    runner: Runner,
    program: Seq<char>,
    exe_name: Seq<char>,
    exe_path: Seq<char>,
) -> Seq<Seq<char>> {
    (if gamemode {
        seq!["gamemoderun"@]
    } else {
        Seq::empty()
    }) + (if overlay {
        seq!["mangohud"@]
    } else {
        Seq::empty()
    }) + match runner {
        Runner::Wine => seq![program, exe_name],
        Runner::Proton => seq![program, "run"@, exe_path],
    }
}

pub fn launch_command(
    chosen: &ProfileSettings,
    has_mangohud: bool,
    has_gamemode: bool,
    runner: Runner,
    program: &str,
    exe_name: &str,
    exe_path: &str,
) -> (c: Vec<String>)
    ensures
        texts(c@) == launch_command_of(
            chosen.gamemode && has_gamemode,
            chosen.mango && has_mangohud,
            runner,
            program@,
            exe_name@,
            exe_path@,
        ),
{
    let mut c: Vec<String> = Vec::new();
    if chosen.gamemode && has_gamemode {
        push_text(&mut c, "gamemoderun");
    }
    if chosen.mango && has_mangohud {
        push_text(&mut c, "mangohud");
    }
    match runner {
        Runner::Wine => {
            push_text(&mut c, program);
            push_text(&mut c, exe_name);
        },
        Runner::Proton => {
            push_text(&mut c, program);
            push_text(&mut c, "run");
            push_text(&mut c, exe_path);
        },
    }
    assert(texts(c@) =~= launch_command_of(
        chosen.gamemode && has_gamemode,
        chosen.mango && has_mangohud,
        runner,
        program@,
        exe_name@,
        exe_path@,
    ));
    c
}

} // verus!
