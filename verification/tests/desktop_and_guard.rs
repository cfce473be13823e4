use split_bridge::desktop::{
    applications_dir, handler_entry, handler_entry_path, handler_mime_args, icon_cache_dir,
    icon_candidates, icon_dest, icon_search_start, icon_step, menu_entry, menu_entry_path, IconStep,
};
use split_bridge::prefix::{
    cp_args, prefix_notice, prefix_paths, prefix_start, prefix_step, rsync_args, wineboot_command,
    PrefixNotice, PrefixStep,
};
use split_bridge::thermal::{
    limit_command, thermal_action, thermal_guard_enabled, thermal_tool, ThermalTool, THERMAL_LIMIT_C,
};

fn strings(v: &[&str]) -> Vec<String> {
    v.iter().map(|s| s.to_string()).collect()
}

#[test]
fn handler_entry_files() {
    assert_eq!(applications_dir("/h"), "/h/.local/share/applications");
    assert_eq!(handler_entry_path("/h"), "/h/.local/share/applications/split.desktop");
    assert_eq!(
        handler_entry(),
        "[Desktop Entry]\nType=Application\nName=Split\nExec=split \"%f\"\nMimeType=application/x-ms-dos-executable;\nNoDisplay=true\nTerminal=false\n"
    );
    assert_eq!(handler_mime_args(), strings(&["default", "split.desktop", "application/x-ms-dos-executable"]));
}

#[test]
fn menu_entries() {
    assert_eq!(menu_entry_path("/h", "My Game/2.exe"), "/h/.local/share/applications/My_Game_2.exe.desktop");
    assert_eq!(
        menu_entry("Game.exe", "/g/Game.exe", Some("/h/.cache/split/icons/Game.exe.png")),
        "[Desktop Entry]\nType=Application\nName=Game.exe\nExec=split \"/g/Game.exe\"\nIcon=/h/.cache/split/icons/Game.exe.png\nTerminal=false\nCategories=Game;\n"
    );
    assert_eq!(
        menu_entry("Game.exe", "/g/Game.exe", None),
        "[Desktop Entry]\nType=Application\nName=Game.exe\nExec=split \"/g/Game.exe\"\nIcon=application-x-ms-dos-executable\nTerminal=false\nCategories=Game;\n"
    );
}

#[test]
fn icon_places() {
    assert_eq!(icon_candidates().len(), 7);
    assert_eq!(icon_cache_dir("/h"), "/h/.cache/split/icons");
    assert_eq!(icon_dest("/h/.cache/split/icons", "Game.exe"), "/h/.cache/split/icons/Game.exe.png");
}

#[test]
fn icon_search_copies_a_png() {
    let s = icon_search_start();
    assert_eq!(s, IconStep::Probe(0));
    let s = icon_step(s, false);
    assert_eq!(s, IconStep::Probe(1));
    let s = icon_step(s, true);
    assert_eq!(s, IconStep::Copy(1));
    assert_eq!(icon_step(s, false), IconStep::Found);
}

#[test]
fn icon_search_converts_ico_and_moves_on_after_failure() {
    let s = icon_step(IconStep::Probe(2), true);
    assert_eq!(s, IconStep::Convert(2));
    assert_eq!(icon_step(s, true), IconStep::Found);
    assert_eq!(icon_step(s, false), IconStep::Probe(3));
    assert_eq!(icon_step(IconStep::Probe(3), true), IconStep::Convert(3));
    assert_eq!(icon_step(IconStep::Probe(6), false), IconStep::NotFound);
    assert_eq!(icon_step(IconStep::Probe(6), true), IconStep::Copy(6));
}

#[test]
fn icon_search_visits_every_candidate() {
    let mut s = icon_search_start();
    let mut steps = 0;
    while s != IconStep::Found && s != IconStep::NotFound {
        s = icon_step(s, false);
        steps += 1;
    }
    assert_eq!(s, IconStep::NotFound);
    assert_eq!(steps, 7);
}

#[test]
fn prefix_places_and_arguments() {
    let p = prefix_paths("/pre", "/h");
    assert_eq!(p.drive_c, "/pre/drive_c");
    assert_eq!(p.home_wine, "/h/.wine");
    assert_eq!(p.home_drive_c, "/h/.wine/drive_c");
    assert_eq!(
        rsync_args("/h/.wine", "/pre"),
        strings(&["-av", "--exclude=dosdevices", "--exclude=drive_c", "/h/.wine", "/pre"])
    );
    assert_eq!(cp_args("/h/.wine", "/pre"), strings(&["-r", "/h/.wine", "/pre"]));
}

fn run_prefix(outcomes: &[bool]) -> Vec<PrefixStep> {
    let mut s = prefix_start();
    let mut seen = vec![s];
    for &ok in outcomes {
        s = prefix_step(s, ok);
        seen.push(s);
    }
    seen
}

#[test]
fn prefix_already_set_up() {
    assert_eq!(run_prefix(&[true]), vec![PrefixStep::CheckDriveC, PrefixStep::Done(true)]);
}

#[test]
fn prefix_by_wineboot() {
    assert_eq!(run_prefix(&[false, true, true]).last(), Some(&PrefixStep::Done(true)));
}

#[test]
fn prefix_copied_with_rsync_and_linked() {
    assert_eq!(
        run_prefix(&[false, true, false, true, true, true, false, true]),
        vec![
            PrefixStep::CheckDriveC,
            PrefixStep::FindWineboot,
            PrefixStep::RunWineboot,
            PrefixStep::CheckHomeWine,
            PrefixStep::RunRsync,
            PrefixStep::CheckHomeDriveC,
            PrefixStep::CheckCopiedDriveC,
            PrefixStep::LinkDriveC,
            PrefixStep::Done(true),
        ]
    );
}

#[test]
fn prefix_copied_with_rsync_without_link() {
    assert_eq!(
        run_prefix(&[false, false, true, true, false]).last(),
        Some(&PrefixStep::Done(true))
    );
    assert_eq!(
        run_prefix(&[false, false, true, true, true, true]),
        vec![
            PrefixStep::CheckDriveC,
            PrefixStep::FindWineboot,
            PrefixStep::CheckHomeWine,
            PrefixStep::RunRsync,
            PrefixStep::CheckHomeDriveC,
            PrefixStep::CheckCopiedDriveC,
            PrefixStep::Done(true),
        ]
    );
}

#[test]
fn wineboot_sets_up_the_prefix() {
    let (cmd, env) = wineboot_command("/pre");
    assert_eq!(cmd, strings(&["wineboot", "--init"]));
    assert_eq!(env, vec![("WINEPREFIX".to_string(), "/pre".to_string())]);
}

fn notice(s: PrefixStep, ok: bool) -> Option<(bool, String)> {
    match prefix_notice(s, ok) {
        Some(PrefixNotice::Log(t)) => Some((false, t)),
        Some(PrefixNotice::Error(t)) => Some((true, t)),
        None => None,
    }
}

#[test]
fn prefix_notices() {
    assert_eq!(notice(PrefixStep::CheckDriveC, true), None);
    assert_eq!(
        notice(PrefixStep::CheckDriveC, false),
        Some((false, "Initializing new Wine prefix...".to_string()))
    );
    assert_eq!(
        notice(PrefixStep::RunWineboot, true),
        Some((false, "Prefix initialized successfully".to_string()))
    );
    assert_eq!(notice(PrefixStep::RunWineboot, false), None);
    assert_eq!(
        notice(PrefixStep::CheckHomeWine, true),
        Some((false, "Falling back to copying ~/.wine (including registry)...".to_string()))
    );
    assert_eq!(
        notice(PrefixStep::CheckHomeWine, false),
        Some((true, "\u{274c} Could not initialize Wine prefix. Run 'winecfg' first.".to_string()))
    );
    assert_eq!(notice(PrefixStep::RunRsync, true), None);
}

#[test]
fn prefix_copied_with_cp() {
    assert_eq!(run_prefix(&[false, false, true, false, false]).last(), Some(&PrefixStep::Done(false)));
    assert_eq!(run_prefix(&[false, false, true, false, true]).last(), Some(&PrefixStep::Done(true)));
}

#[test]
fn prefix_without_home_wine_fails() {
    assert_eq!(run_prefix(&[false, false, false]).last(), Some(&PrefixStep::Done(false)));
}

#[test]
fn thermal_tools() {
    assert_eq!(thermal_tool(true, true), Some(ThermalTool::IntelUndervolt));
    assert_eq!(thermal_tool(false, true), Some(ThermalTool::RyzenAdj));
    assert_eq!(thermal_tool(false, false), None);
    assert!(thermal_guard_enabled(true, false, true));
    assert!(!thermal_guard_enabled(true, false, false));
    assert!(!thermal_guard_enabled(false, false, true));
    assert!(!thermal_guard_enabled(true, true, true));
}

#[test]
fn thermal_limits_applied_from_85_degrees() {
    assert_eq!(THERMAL_LIMIT_C, 85);
    assert_eq!(thermal_action(Some(84), ThermalTool::IntelUndervolt), None);
    assert_eq!(thermal_action(Some(85), ThermalTool::IntelUndervolt), Some(strings(&["intel-undervolt", "apply"])));
    assert_eq!(
        thermal_action(Some(97), ThermalTool::RyzenAdj),
        Some(strings(&["ryzenadj", "-a", "15000", "-b", "15000"]))
    );
    assert_eq!(thermal_action(None, ThermalTool::RyzenAdj), None);
    assert_eq!(limit_command(ThermalTool::RyzenAdj).len(), 5);
}
