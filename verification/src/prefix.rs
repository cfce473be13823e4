//! Setting up a game's Wine prefix: by `wineboot` when it is installed, else by
//! copying the user's own `~/.wine`.
use vstd::prelude::*;
use vstd::string::StringExecFns;
use crate::text::{concat, pair_texts, push_pair, push_text, texts};

verus! {

/// The places that setting up a prefix looks at.
pub struct PrefixPaths {
    /// `<prefix>/drive_c`: present once the prefix is set up.
    pub drive_c: String,
    /// `<home>/.wine`: the user's own prefix, copied when `wineboot` fails.
    pub home_wine: String,
    /// `<home>/.wine/drive_c`
    pub home_drive_c: String,
}

pub fn prefix_paths(prefix: &str, home: &str) -> (p: PrefixPaths)
    ensures
        p.drive_c@ == prefix@ + "/drive_c"@,
        p.home_wine@ == home@ + "/.wine"@,
        p.home_drive_c@ == home@ + "/.wine"@ + "/drive_c"@,
{
    let home_wine = concat(home, "/.wine");
    let home_drive_c = concat(home_wine.as_str(), "/drive_c");
    PrefixPaths { drive_c: concat(prefix, "/drive_c"), home_wine, home_drive_c }
}

/// A step of setting up a prefix; each reports one outcome (`true` or `false`).
#[derive(Clone, Copy, Debug, PartialEq, Eq, Structural)]
pub enum PrefixStep {
    /// Whether `<prefix>/drive_c` exists.
    CheckDriveC,
    /// Whether `wineboot` is on the `PATH`.
    FindWineboot,
    /// Whether `wineboot --init` ran and succeeded.
    RunWineboot,
    /// Whether `~/.wine` exists.
    CheckHomeWine,
    /// Whether `rsync` could be started to copy `~/.wine` into the prefix.
    RunRsync,
    /// Whether `~/.wine/drive_c` exists.
    CheckHomeDriveC,
    /// Whether `<prefix>/drive_c` exists now that `~/.wine` was copied.
    CheckCopiedDriveC,
    /// Link `<prefix>/drive_c` to `~/.wine/drive_c` (its outcome does not matter).
    LinkDriveC,
    /// Whether `cp -r` could be started to copy `~/.wine` into the prefix.
    RunCp,
    /// Set up (`true`) or not.
    Done(bool),
}

/// The first step.
pub fn prefix_start() -> (s: PrefixStep)
    ensures
        s == PrefixStep::CheckDriveC,
{
    PrefixStep::CheckDriveC
}

/// The step after `s`, given its outcome. A prefix with a `drive_c` is set up. Otherwise a
/// successful `wineboot --init` sets it up; failing that, `~/.wine` is copied into it:
/// with `rsync` (leaving out `drive_c` and `dosdevices`, and linking `drive_c` back when
/// `~/.wine` has one and the prefix has none), which sets it up once started, else with `cp -r`, which sets it up
/// if it could be started. Without a `~/.wine` the prefix cannot be set up.
pub open spec fn prefix_next(s: PrefixStep, ok: bool) -> PrefixStep {
    match s {
        PrefixStep::CheckDriveC => if ok {
            PrefixStep::Done(true)
        } else {
            PrefixStep::FindWineboot
        },
        PrefixStep::FindWineboot => if ok {
            PrefixStep::RunWineboot
        } else {
            PrefixStep::CheckHomeWine
        },
        PrefixStep::RunWineboot => if ok {
            PrefixStep::Done(true)
        } else {
            PrefixStep::CheckHomeWine
        },
        PrefixStep::CheckHomeWine => if ok {
            PrefixStep::RunRsync
        } else {
            PrefixStep::Done(false)
        },
        PrefixStep::RunRsync => if ok {
            PrefixStep::CheckHomeDriveC
        } else {
            PrefixStep::RunCp
        },
        PrefixStep::CheckHomeDriveC => if ok {
            PrefixStep::CheckCopiedDriveC
        } else {
            PrefixStep::Done(true)
        },
        PrefixStep::CheckCopiedDriveC => if ok {
            PrefixStep::Done(true)
        } else {
            PrefixStep::LinkDriveC
        },
        PrefixStep::LinkDriveC => PrefixStep::Done(true),
        PrefixStep::RunCp => PrefixStep::Done(ok),
        PrefixStep::Done(b) => PrefixStep::Done(b),
    }
}

pub fn prefix_step(s: PrefixStep, ok: bool) -> (n: PrefixStep)
    ensures
        n == prefix_next(s, ok),
{
    match s {
        PrefixStep::CheckDriveC => if ok {
            PrefixStep::Done(true)
        } else {
            PrefixStep::FindWineboot
        },
        PrefixStep::FindWineboot => if ok {
            PrefixStep::RunWineboot
        } else {
            PrefixStep::CheckHomeWine
        },
        PrefixStep::RunWineboot => if ok {
            PrefixStep::Done(true)
        } else {
            PrefixStep::CheckHomeWine
        },
        PrefixStep::CheckHomeWine => if ok {
            PrefixStep::RunRsync
        } else {
            PrefixStep::Done(false)
        },
        PrefixStep::RunRsync => if ok {
            PrefixStep::CheckHomeDriveC
        } else {
            PrefixStep::RunCp
        },
        PrefixStep::CheckHomeDriveC => if ok {
            PrefixStep::CheckCopiedDriveC
        } else {
            PrefixStep::Done(true)
        },
        PrefixStep::CheckCopiedDriveC => if ok {
            PrefixStep::Done(true)
        } else {
            PrefixStep::LinkDriveC
        },
        PrefixStep::LinkDriveC => PrefixStep::Done(true),
        PrefixStep::RunCp => PrefixStep::Done(ok),
        PrefixStep::Done(b) => PrefixStep::Done(b),
    }
}

/// The command that sets up a prefix: `wineboot --init`, run with `WINEPREFIX` set to
/// the prefix.
pub fn wineboot_command(prefix: &str) -> (c: (Vec<String>, Vec<(String, String)>))
    ensures
        texts(c.0@) == seq!["wineboot"@, "--init"@],
        pair_texts(c.1@) == seq![("WINEPREFIX"@, prefix@)],
{
    let mut args: Vec<String> = Vec::new();
    push_text(&mut args, "wineboot");
    push_text(&mut args, "--init");
    let mut env: Vec<(String, String)> = Vec::new();
    push_pair(&mut env, "WINEPREFIX", prefix);
    assert(texts(args@) =~= seq!["wineboot"@, "--init"@]);
    assert(pair_texts(env@) =~= seq![("WINEPREFIX"@, prefix@)]);
    (args, env)
}

/// What setting up a prefix tells the user.
#[derive(Debug)]
pub enum PrefixNotice {
    /// A line for the launcher's log.
    Log(String),
    /// A message for the terminal: the prefix could not be set up.
    Error(String),
}

/// The notice of a step's outcome, if any, as `(is_error, text)`: a new prefix is
/// announced, a successful `wineboot` and the fall-back to copying `~/.wine` are
/// logged, and a missing `~/.wine` is reported as an error.
pub open spec fn prefix_notice_of(s: PrefixStep, ok: bool) -> Option<(bool, Seq<char>)> {
    match s {
        PrefixStep::CheckDriveC => if ok {
            None
        } else {
            Some((false, "Initializing new Wine prefix..."@))
        },
        PrefixStep::RunWineboot => if ok {
            Some((false, "Prefix initialized successfully"@))
        } else {
            None
        },
        PrefixStep::CheckHomeWine => if ok {
            Some((false, "Falling back to copying ~/.wine (including registry)..."@))
        } else {
            Some((true, "\u{274c} Could not initialize Wine prefix. Run 'winecfg' first."@))
        },
        _ => None,
    }
}

pub fn prefix_notice(s: PrefixStep, ok: bool) -> (n: Option<PrefixNotice>)
    ensures
        match n {
            Some(PrefixNotice::Log(t)) => prefix_notice_of(s, ok) == Some((false, t@)),
            Some(PrefixNotice::Error(t)) => prefix_notice_of(s, ok) == Some((true, t@)),
            None => prefix_notice_of(s, ok) is None,
        },
{
    match s {
        PrefixStep::CheckDriveC => if ok {
            None
        } else {
            Some(PrefixNotice::Log(String::from_str("Initializing new Wine prefix...")))
        },
        PrefixStep::RunWineboot => if ok {
            Some(PrefixNotice::Log(String::from_str("Prefix initialized successfully")))
        } else {
            None
        },
        PrefixStep::CheckHomeWine => if ok {
            Some(
                PrefixNotice::Log(
                    String::from_str("Falling back to copying ~/.wine (including registry)..."),
                ),
            )
        } else {
            Some(
                PrefixNotice::Error(
                    String::from_str("\u{274c} Could not initialize Wine prefix. Run 'winecfg' first."),
                ),
            )
        },
        _ => None,
    }
}

/// The arguments of `rsync` when copying `~/.wine` into the prefix.
pub fn rsync_args(home_wine: &str, prefix: &str) -> (a: Vec<String>)
    ensures
        texts(a@) == seq![
            "-av"@,
            "--exclude=dosdevices"@,
            "--exclude=drive_c"@,
            home_wine@,
            prefix@,
        ],
{
    let mut a: Vec<String> = Vec::new();
    push_text(&mut a, "-av");
    push_text(&mut a, "--exclude=dosdevices");
    push_text(&mut a, "--exclude=drive_c");
    push_text(&mut a, home_wine);
    push_text(&mut a, prefix);
    a
}

/// The arguments of `cp` when copying `~/.wine` into the prefix.
pub fn cp_args(home_wine: &str, prefix: &str) -> (a: Vec<String>)
    ensures
        texts(a@) == seq!["-r"@, home_wine@, prefix@],
{
    let mut a: Vec<String> = Vec::new();
    push_text(&mut a, "-r");
    push_text(&mut a, home_wine);
    push_text(&mut a, prefix);
    a
}

/// How many steps setting up a prefix can still take at most.
pub open spec fn prefix_steps_left(s: PrefixStep) -> int {
    match s {
        PrefixStep::CheckDriveC => 7,
        PrefixStep::FindWineboot => 6,
        PrefixStep::RunWineboot => 5,
        PrefixStep::CheckHomeWine => 4,
        PrefixStep::RunRsync => 3,
        PrefixStep::CheckHomeDriveC => 2,
        PrefixStep::CheckCopiedDriveC => 1,
        PrefixStep::LinkDriveC => 0,
        PrefixStep::RunCp => 0,
        PrefixStep::Done(_) => -1,
    }
}

/// Setting up a prefix ends: every step before the end leaves fewer to take, whatever
/// its outcome.
pub proof fn prefix_setup_ends(s: PrefixStep, ok: bool)
    requires
        !(s is Done),
    ensures
        prefix_steps_left(prefix_next(s, ok)) < prefix_steps_left(s),
{
}

/// A prefix that already has a `drive_c` is set up at once, and a prefix can only fail
/// to be set up when `~/.wine` is missing or could not be copied.
pub proof fn prefix_outcomes(s: PrefixStep, ok: bool)
    ensures
        s == PrefixStep::CheckDriveC && ok ==> prefix_next(s, ok) == PrefixStep::Done(true),
        !(s is Done) && prefix_next(s, ok) == PrefixStep::Done(false) ==> (s
            == PrefixStep::CheckHomeWine || s == PrefixStep::RunCp) && !ok,
{
}

} // verus!
