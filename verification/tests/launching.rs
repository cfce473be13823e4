use split_bridge::hw::GpuVendor;
use split_bridge::profile::ProfileSettings;
use split_bridge::launch::{
    crack_probe_files, find_proton, find_steam_root, find_wine, game_tag, is_cracked,
    is_quick_mode, launch_command, launch_env, parse_command, prefix_path, proton_candidates,
    proton_from_search, proton_search_args, runner_for, safe_name, steam_markers,
    steam_root_candidates, target_exe, wine_candidates, CliCommand, Runner,
};

fn strings(v: &[&str]) -> Vec<String> {
    v.iter().map(|s| s.to_string()).collect()
}

#[test]
fn commands() {
    assert_eq!(parse_command(&strings(&["split", "integrate"])), CliCommand::Integrate);
    assert_eq!(parse_command(&strings(&["split", "update"])), CliCommand::Update);
    assert_eq!(parse_command(&strings(&["split", "info"])), CliCommand::Info);
    assert_eq!(parse_command(&strings(&["split", "game.exe"])), CliCommand::Launch);
    assert_eq!(parse_command(&strings(&["split", "--quick", "info"])), CliCommand::Launch);
    assert_eq!(parse_command(&strings(&["split"])), CliCommand::Launch);
}

#[test]
fn quick_mode_and_target() {
    let args = strings(&["split", "--quick", "/games/Game.exe"]);
    assert!(is_quick_mode(&args));
    assert_eq!(target_exe(&args), Some("/games/Game.exe".to_string()));
    let args = strings(&["split", "/games/launcher.sh", "x.exe"]);
    assert!(!is_quick_mode(&args));
    assert_eq!(target_exe(&args), Some("x.exe".to_string()));
    let args = strings(&["split", "/games/launcher.sh"]);
    assert_eq!(target_exe(&args), Some("/games/launcher.sh".to_string()));
    assert_eq!(target_exe(&strings(&["split"])), None);
    assert_eq!(target_exe(&strings(&["split", "--quick"])), Some("--quick".to_string()));
}

#[test]
fn game_tags() {
    assert_eq!(game_tag("My Game.exe"), "my_game");
    assert_eq!(game_tag("GAME.EXE"), "game.exe");
    assert_eq!(game_tag("Été  Run.exe"), "été__run");
    assert_eq!(game_tag("a.exe.exe"), "a");
}

#[test]
fn prefix_location() {
    assert_eq!(prefix_path("/home/u", "my_game"), "/home/u/.local/share/split_data/my_game");
}

#[test]
fn safe_names() {
    assert_eq!(safe_name("My Game/Part 2"), "My_Game_Part_2");
    assert_eq!(safe_name("plain"), "plain");
}

#[test]
fn steam_root_search() {
    let c = steam_root_candidates("/h");
    assert_eq!(
        c,
        strings(&[
            "/h/.local/share/Steam",
            "/h/.steam/steam",
            "/usr/share/steam",
            "/h/.var/app/com.valvesoftware.Steam/data/Steam",
        ])
    );
    assert_eq!(
        steam_markers("/h/.steam/steam"),
        ("/h/.steam/steam/steamapps".to_string(), "/h/.steam/steam/compatibilitytools.d".to_string())
    );
    assert_eq!(find_steam_root("/h", &vec![false, true, true, false]), "/h/.steam/steam");
    assert_eq!(find_steam_root("/h", &vec![false, false, false, true]), "/h/.var/app/com.valvesoftware.Steam/data/Steam");
    assert_eq!(find_steam_root("/h", &vec![false, false, false, false]), "/h/.local/share/Steam");
    assert_eq!(find_steam_root("/h", &vec![]), "/h/.local/share/Steam");
    assert_eq!(find_steam_root("/h", &vec![false, false, true]), "/usr/share/steam");
}

#[test]
fn proton_search() {
    let c = proton_candidates("/s");
    assert_eq!(c.len(), 5);
    assert_eq!(c[0], "/s/compatibilitytools.d/proton-cachyos/proton");
    assert_eq!(c[4], "/usr/share/steam/compatibilitytools.d/proton/proton");
    assert_eq!(find_proton("/s", true, &vec![true]), Some("proton".to_string()));
    assert_eq!(
        find_proton("/s", false, &vec![false, false, true, true, false]),
        Some("/s/compatibilitytools.d/proton/proton".to_string())
    );
    assert_eq!(find_proton("/s", false, &vec![false; 5]), None);
    assert_eq!(
        proton_search_args(),
        strings(&["/usr/share/steam", "-name", "proton", "-type", "f", "-maxdepth", "5"])
    );
    assert_eq!(proton_from_search(Some("  /usr/share/steam/x/proton \n/other\n")), "/usr/share/steam/x/proton");
    assert_eq!(proton_from_search(Some("")), "proton");
    assert_eq!(proton_from_search(Some("\n/after\n")), "");
    assert_eq!(proton_from_search(None), "proton");
}

#[test]
fn wine_search() {
    assert_eq!(wine_candidates(), strings(&["wine", "wine-staging", "wine-stable"]));
    assert_eq!(find_wine(&vec![false, true, true]), "wine-staging");
    assert_eq!(find_wine(&vec![false, false, true]), "wine-stable");
    assert_eq!(find_wine(&vec![false, false, false]), "wine");
    assert_eq!(find_wine(&vec![]), "wine");
}

#[test]
fn crack_detection() {
    assert_eq!(crack_probe_files().len(), 16);
    assert!(is_cracked(&strings(&["CODEX.ini"])));
    assert!(is_cracked(&strings(&["steam_api64.dll", "steam_appid.txt"])));
    assert!(is_cracked(&strings(&["steam_api.dll", "steam_appid.txt"])));
    assert!(!is_cracked(&strings(&["steam_api64.dll", "steam_appid.txt", "installscript.vdf"])));
    assert!(!is_cracked(&strings(&["steam_api64.dll"])));
    assert!(!is_cracked(&strings(&["codex.ini"])));
    assert!(!is_cracked(&vec![]));
}

#[test]
fn runners() {
    assert_eq!(runner_for(false, false), Runner::Proton);
    assert_eq!(runner_for(true, false), Runner::Wine);
    assert_eq!(runner_for(false, true), Runner::Wine);
}

fn pairs(v: &[(&str, &str)]) -> Vec<(String, String)> {
    v.iter().map(|(a, b)| (a.to_string(), b.to_string())).collect()
}

fn chosen() -> ProfileSettings {
    ProfileSettings {
        mango: false,
        thermal: false,
        force_opengl: false,
        use_wine: false,
        add_to_menu: false,
        gamemode: false,
        fps_limit: false,
        unlocked: false,
    }
}

#[test]
fn environment_under_proton() {
    let c = ProfileSettings { force_opengl: true, ..chosen() };
    let e = launch_env("/p", "/s", GpuVendor::Intel, &c, Runner::Proton);
    assert_eq!(
        e,
        pairs(&[
            ("WINEPREFIX", "/p"),
            ("mesa_glthread", "true"),
            ("vblank_mode", "0"),
            ("WINEFSYNC", "1"),
            ("MESA_LOADER_DRIVER_OVERRIDE", "iris"),
            ("PROTON_USE_WINED3D", "1"),
            ("STEAM_COMPAT_DATA_PATH", "/p"),
            ("STEAM_COMPAT_CLIENT_INSTALL_PATH", "/s"),
        ])
    );
}

#[test]
fn environment_under_wine() {
    let c = ProfileSettings { force_opengl: true, ..chosen() };
    let e = launch_env("/p", "/s", GpuVendor::Amd, &c, Runner::Wine);
    assert_eq!(
        e,
        pairs(&[
            ("WINEPREFIX", "/p"),
            ("mesa_glthread", "true"),
            ("vblank_mode", "0"),
            ("WINEFSYNC", "1"),
            ("WINEDLLOVERRIDES", "dxgi=b;d3d11=b"),
        ])
    );
    assert_eq!(launch_env("/p", "/s", GpuVendor::Nvidia, &chosen(), Runner::Wine).len(), 4);
}

#[test]
fn frame_rate_cap() {
    let capped = ProfileSettings { fps_limit: true, ..chosen() };
    let e = launch_env("/p", "/s", GpuVendor::Intel, &capped, Runner::Proton);
    assert_eq!(
        e,
        pairs(&[
            ("WINEPREFIX", "/p"),
            ("mesa_glthread", "true"),
            ("vblank_mode", "0"),
            ("WINEFSYNC", "1"),
            ("MESA_LOADER_DRIVER_OVERRIDE", "iris"),
            ("DXVK_FRAME_RATE", "60"),
            ("STEAM_COMPAT_DATA_PATH", "/p"),
            ("STEAM_COMPAT_CLIENT_INSTALL_PATH", "/s"),
        ])
    );
    let unlocked = ProfileSettings { fps_limit: true, unlocked: true, ..chosen() };
    let e = launch_env("/p", "/s", GpuVendor::Amd, &unlocked, Runner::Wine);
    assert!(e.iter().all(|(k, _)| k != "DXVK_FRAME_RATE"));
    assert_eq!(e.len(), 4);
}

#[test]
fn commands_of_a_launch() {
    let mango = ProfileSettings { mango: true, ..chosen() };
    assert_eq!(
        launch_command(&mango, true, false, Runner::Wine, "wine", "Game.exe", "/g/Game.exe"),
        strings(&["mangohud", "wine", "Game.exe"])
    );
    assert_eq!(
        launch_command(&mango, false, true, Runner::Proton, "/s/proton", "Game.exe", "/g/Game.exe"),
        strings(&["/s/proton", "run", "/g/Game.exe"])
    );
    assert_eq!(
        launch_command(&chosen(), true, true, Runner::Proton, "proton", "Game.exe", "/g/Game.exe"),
        strings(&["proton", "run", "/g/Game.exe"])
    );
}

#[test]
fn gamemode_wraps_the_launch() {
    let both = ProfileSettings { mango: true, gamemode: true, ..chosen() };
    assert_eq!(
        launch_command(&both, true, true, Runner::Proton, "proton", "Game.exe", "/g/Game.exe"),
        strings(&["gamemoderun", "mangohud", "proton", "run", "/g/Game.exe"])
    );
    assert_eq!(
        launch_command(&both, true, false, Runner::Wine, "wine", "Game.exe", "/g/Game.exe"),
        strings(&["mangohud", "wine", "Game.exe"])
    );
    let gm = ProfileSettings { gamemode: true, ..chosen() };
    assert_eq!(
        launch_command(&gm, false, true, Runner::Wine, "wine", "Game.exe", "/g/Game.exe"),
        strings(&["gamemoderun", "wine", "Game.exe"])
    );
}
