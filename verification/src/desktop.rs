//! Desktop integration: the launcher as the handler of `.exe` files, a game's
//! application-menu entry, and the search for the game's icon.
use vstd::prelude::*;
use vstd::string::StringExecFns;
use crate::launch::{safe_name, safe_name_of};
use crate::text::{concat, ends_with, push_text, str_ends_with, texts};

verus! {

/// Where desktop entries are installed.
pub fn applications_dir(home: &str) -> (d: String)
    ensures
        d@ == home@ + "/.local/share/applications"@,
{
    concat(home, "/.local/share/applications")
}

/// The desktop entry that registers the launcher as the handler of `.exe` files.
pub fn handler_entry_path(home: &str) -> (p: String)
    ensures
        p@ == home@ + "/.local/share/applications"@ + "/split.desktop"@,
{
    let mut p = applications_dir(home);
    p.append("/split.desktop");
    p
}

/// The content of the handler's desktop entry.
pub open spec fn handler_entry_text() -> Seq<char> {
    "[Desktop Entry]\nType=Application\nName=Split\nExec=split \"%f\"\nMimeType=application/x-ms-dos-executable;\nNoDisplay=true\nTerminal=false\n"@
}

pub fn handler_entry() -> (s: &'static str)
    ensures
        s@ == handler_entry_text(),
{
    "[Desktop Entry]\nType=Application\nName=Split\nExec=split \"%f\"\nMimeType=application/x-ms-dos-executable;\nNoDisplay=true\nTerminal=false\n"
}

/// The arguments that make the handler the default for `.exe` files.
pub fn handler_mime_args() -> (a: Vec<String>)
    ensures
        texts(a@) == seq!["default"@, "split.desktop"@, "application/x-ms-dos-executable"@],
{
    let mut a: Vec<String> = Vec::new();
    push_text(&mut a, "default");
    push_text(&mut a, "split.desktop");
    push_text(&mut a, "application/x-ms-dos-executable");
    assert(texts(a@) =~= seq!["default"@, "split.desktop"@, "application/x-ms-dos-executable"@]);
    a
}

/// A game's menu entry, named after the game with spaces and slashes made underscores.
pub fn menu_entry_path(home: &str, game_name: &str) -> (p: String)
    ensures
        p@ == home@ + "/.local/share/applications"@ + "/"@ + safe_name_of(game_name@)
            + ".desktop"@,
{
    let mut p = applications_dir(home);
    p.append("/");
    let n = safe_name(game_name);
    p.append(n.as_str());
    p.append(".desktop");
    p
}

/// The `Icon=` line of a menu entry: the game's icon, else the generic icon of Windows programs.
pub open spec fn icon_line_of(icon: Option<Seq<char>>) -> Seq<char> {
    match icon {
        Some(p) => "Icon="@ + p,
        None => "Icon=application-x-ms-dos-executable"@,
    }
}

/// The content of a game's menu entry: it runs the launcher on the game's executable,
/// in the Game category.
pub open spec fn menu_entry_text(game_name: Seq<char>, exe_path: Seq<char>, icon: Option<Seq<char>>) -> Seq<
    char,
> {
    "[Desktop Entry]\nType=Application\nName="@ + game_name + "\nExec=split \""@ + exe_path + "\"\n"@
        + icon_line_of(icon) + "\nTerminal=false\nCategories=Game;\n"@
}

pub fn menu_entry(game_name: &str, exe_path: &str, icon: Option<&str>) -> (s: String)
    ensures
        s@ == menu_entry_text(
            game_name@,
            exe_path@,
            match icon {
                Some(p) => Some(p@),
                None => None,
            },
        ),
{
    let mut s = String::from_str("[Desktop Entry]\nType=Application\nName=");
    s.append(game_name);
    s.append("\nExec=split \"");
    s.append(exe_path);
    s.append("\"\n");
    match icon {
        Some(p) => {
            s.append("Icon=");
            s.append(p);
        },
        None => {
            s.append("Icon=application-x-ms-dos-executable");
        },
    }
    s.append("\nTerminal=false\nCategories=Game;\n");
    s
}

// ---------------------------------------------------------------------
// The icon search
// ---------------------------------------------------------------------

/// The files of a game's directory that are taken as its icon, in order.
pub open spec fn icon_candidates_of() -> Seq<Seq<char>> {
    seq![
        "icon.png"@,
        "logo.png"@,
        "game.ico"@,
        "icon.ico"@,
        "icon.jpg"@,
        "icon.jpeg"@,
        "Icon.png"@,
    ]
}

pub fn icon_candidates() -> (c: Vec<String>)
    ensures
        texts(c@) == icon_candidates_of(),
        c.len() == 7,
{
    let mut c: Vec<String> = Vec::new();
    push_text(&mut c, "icon.png");
    push_text(&mut c, "logo.png");
    push_text(&mut c, "game.ico");
    push_text(&mut c, "icon.ico");
    push_text(&mut c, "icon.jpg");
    push_text(&mut c, "icon.jpeg");
    push_text(&mut c, "Icon.png");
    assert(texts(c@) =~= icon_candidates_of());
    c
}

/// Where icons are kept.
pub fn icon_cache_dir(home: &str) -> (d: String)
    ensures
        d@ == home@ + "/.cache/split/icons"@,
{
    concat(home, "/.cache/split/icons")
}

/// Where a game's icon is kept, whatever file it came from.
pub fn icon_dest(cache_dir: &str, game_name: &str) -> (p: String)
    ensures
        p@ == cache_dir@ + "/"@ + game_name@ + ".png"@,
{
    let mut p = concat(cache_dir, "/");
    p.append(game_name);
    p.append(".png");
    p
}

/// A step of the icon search.
#[derive(Clone, Copy, Debug, PartialEq, Eq, Structural)]
pub enum IconStep {
    /// Check whether candidate `i` is in the game's directory.
    Probe(usize),
    /// Convert candidate `i` (an `.ico`) to the icon's place.
    Convert(usize),
    /// Copy candidate `i` to the icon's place.
    Copy(usize),
    /// The icon is in its place.
    Found,
    /// No candidate gave an icon.
    NotFound,
}

/// Whether a candidate has to be converted rather than copied.
pub open spec fn needs_conversion(i: int) -> bool {
    ends_with(icon_candidates_of()[i], ".ico"@)
}

/// The first probe of the search.
pub fn icon_search_start() -> (s: IconStep)
    ensures
        s == IconStep::Probe(0),
{
    IconStep::Probe(0)
}

/// The next candidate's probe, or the end of the search.
pub open spec fn probe_after(i: int) -> IconStep {
    if i + 1 < 7 {
        IconStep::Probe((i + 1) as usize)
    } else {
        IconStep::NotFound
    }
}

/// The step after `s`, given its outcome: for a probe, whether the candidate exists; for
/// a conversion, whether it succeeded; a copy ends the search whatever came of it.
/// A found `.ico` is converted, any other found file copied; a failed conversion moves on.
pub open spec fn icon_next(s: IconStep, ok: bool) -> IconStep {
    match s {
        IconStep::Probe(i) => if i < 7 {
            if ok {
                if needs_conversion(i as int) {
                    IconStep::Convert(i)
                } else {
                    IconStep::Copy(i)
                }
            } else {
                probe_after(i as int)
            }
        } else {
            IconStep::NotFound
        },
        IconStep::Convert(i) => if ok {
            IconStep::Found
        } else {
            probe_after(i as int)
        },
        IconStep::Copy(_) => IconStep::Found,
        IconStep::Found => IconStep::Found,
        IconStep::NotFound => IconStep::NotFound,
    }
}

fn candidate_needs_conversion(i: usize) -> (b: bool)
    requires
        i < 7,
    ensures
        b == needs_conversion(i as int),
{
    let c = icon_candidates();
    assert(c@[i as int]@ == texts(c@)[i as int]);
    str_ends_with(c[i].as_str(), ".ico")
}

fn next_probe(i: usize) -> (s: IconStep)
    ensures
        s == probe_after(i as int),
{
    if i < 6 {
        IconStep::Probe(i + 1)
    } else {
        IconStep::NotFound
    }
}

pub fn icon_step(s: IconStep, ok: bool) -> (n: IconStep)
    ensures
        n == icon_next(s, ok),
{
    match s {
        IconStep::Probe(i) => if i < 7 {
            if ok {
                if candidate_needs_conversion(i) {
                    IconStep::Convert(i)
                } else {
                    IconStep::Copy(i)
                }
            } else {
                next_probe(i)
            }
        } else {
            IconStep::NotFound
        },
        IconStep::Convert(i) => if ok {
            IconStep::Found
        } else {
            next_probe(i)
        },
        IconStep::Copy(_) => IconStep::Found,
        IconStep::Found => IconStep::Found,
        IconStep::NotFound => IconStep::NotFound,
    }
}

/// How many steps the search can still take at most.
pub open spec fn icon_steps_left(s: IconStep) -> int {
    match s {
        IconStep::Probe(i) => if i < 7 {
            2 * (7 - i)
        } else {
            1
        },
        IconStep::Convert(i) => if i < 7 {
            2 * (7 - i) - 1
        } else {
            1
        },
        IconStep::Copy(_) => 1,
        IconStep::Found => 0,
        IconStep::NotFound => 0,
    }
}

pub open spec fn icon_search_done(s: IconStep) -> bool {
    s == IconStep::Found || s == IconStep::NotFound
}

/// The icon search ends: every step that does not end it leaves fewer steps to take,
/// whatever its outcome.
pub proof fn icon_search_ends(s: IconStep, ok: bool)
    requires
        !icon_search_done(s),
    ensures
        0 <= icon_steps_left(icon_next(s, ok)) < icon_steps_left(s),
{
}

/// The icon search only ends with an icon after a copy or a successful conversion.
pub proof fn icon_found_only_when_placed(s: IconStep, ok: bool)
    requires
        !icon_search_done(s),
        icon_next(s, ok) == IconStep::Found,
    ensures
        s is Copy || (s is Convert && ok),
{
}

} // verus!
