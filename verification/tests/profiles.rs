use split_bridge::hw::Profile;
use split_bridge::profile::{
    dialog_args, parse_dialog_selection, parse_profile, profile_content, profile_dir,
    profile_entries, profile_path, reuse_answer, settings_from_profile, settings_source,
    LaunchSettings, ProfileSettings, SettingsSource,
};

fn settings(bits: [bool; 8]) -> ProfileSettings {
    ProfileSettings {
        mango: bits[0],
        thermal: bits[1],
        force_opengl: bits[2],
        use_wine: bits[3],
        add_to_menu: bits[4],
        gamemode: bits[5],
        fps_limit: bits[6],
        unlocked: bits[7],
    }
}

fn off() -> ProfileSettings {
    settings([false; 8])
}

#[test]
fn profile_lines_are_read() {
    let text = "MangoHud=true\nThermalGuard = true \nForceOpenGL=false\nUseWine=yes\nAddToMenu=true\r\n";
    assert_eq!(
        parse_profile(text),
        ProfileSettings { mango: true, thermal: true, add_to_menu: true, ..off() }
    );
}

#[test]
fn new_settings_are_read() {
    let text = "Gamemode=true\nFpsLimit=true\nUnlocked= true\n";
    assert_eq!(
        parse_profile(text),
        ProfileSettings { gamemode: true, fps_limit: true, unlocked: true, ..off() }
    );
}

#[test]
fn profile_later_lines_win_and_unknown_lines_are_ignored() {
    let text = "UseWine=true\nnoise\nGameMode=true\n=true\nUseWine=false\nForceOpenGL=true=x\nAddToMenu=true";
    assert_eq!(parse_profile(text), ProfileSettings { add_to_menu: true, ..off() });
}

#[test]
fn empty_profile_turns_everything_off() {
    assert_eq!(parse_profile(""), off());
}

#[test]
fn unrelated_lines_change_nothing() {
    let content = "MangoHud=true\nUseWine=true\nFpsLimit=true";
    let extra = "# comment\nVolume=11\n\nnot a setting";
    let base = parse_profile(content);
    assert_eq!(parse_profile(&format!("{}\n{}", content, extra)), base);
    assert_eq!(parse_profile(&format!("{}\n{}", extra, content)), base);
}

#[test]
fn interleaving_lines_of_different_settings_changes_nothing() {
    let a = "MangoHud=true\nUseWine=true\nMangoHud=false\nGamemode=true";
    let b = "UseWine=true\nGamemode=true\nMangoHud=true\nMangoHud=false";
    assert_eq!(parse_profile(a), parse_profile(b));
    assert_eq!(parse_profile(a), ProfileSettings { use_wine: true, gamemode: true, ..off() });
}

#[test]
fn profile_text_layout() {
    let entries = profile_entries(settings([true, false, true, false, true, true, false, true]));
    assert_eq!(
        profile_content(&entries),
        "MangoHud=true\nThermalGuard=false\nForceOpenGL=true\nUseWine=false\nAddToMenu=true\nGamemode=true\nFpsLimit=false\nUnlocked=true\n"
    );
}

#[test]
fn profile_reads_back_what_was_saved() {
    for bits in 0u16..256 {
        let mut b = [false; 8];
        for (k, slot) in b.iter_mut().enumerate() {
            *slot = bits & (1 << k) != 0;
        }
        let s = settings(b);
        assert_eq!(parse_profile(&profile_content(&profile_entries(s))), s);
    }
}

#[test]
fn profile_locations() {
    assert_eq!(profile_dir("/home/u"), "/home/u/.config/split/profiles");
    assert_eq!(profile_path("/home/u", "my_game"), "/home/u/.config/split/profiles/my_game.conf");
    assert_eq!(
        profile_path("/home/u", "my_game"),
        format!("{}/{}.conf", profile_dir("/home/u"), "my_game")
    );
}

#[test]
fn dialog_arguments_with_every_tool() {
    let args = dialog_args("Game.exe", Profile::Mid, true, true, true);
    let expected: Vec<&str> = vec![
        "--list",
        "--checklist",
        "--title=Split [Game.exe] [Mid]",
        "--column=",
        "--column=Option",
        "--width=480",
        "--height=480",
        "TRUE",
        "MangoHud Overlay",
        "TRUE",
        "Gamemode",
        "TRUE",
        "Thermal Guard",
        "FALSE",
        "FPS Limiter (60 FPS)",
        "FALSE",
        "Unlocked Mode (Benchmark)",
        "FALSE",
        "Force OpenGL (WineD3D)",
        "FALSE",
        "Use Wine instead of Proton",
        "TRUE",
        "Remember these settings",
        "FALSE",
        "Add to Application Menu",
    ];
    assert_eq!(args, expected);
}

#[test]
fn dialog_arguments_without_tools() {
    let args = dialog_args("x", Profile::Potato, false, false, false);
    assert_eq!(args.len(), 19);
    assert_eq!(args[2], "--title=Split [x] [Potato]");
    assert_eq!(args[7], "FALSE");
    assert_eq!(args[8], "FPS Limiter (60 FPS)");
    assert_eq!(args[10], "Unlocked Mode (Benchmark)");
    let only_gamemode = dialog_args("x", Profile::High, false, true, false);
    assert_eq!(only_gamemode[7], "TRUE");
    assert_eq!(only_gamemode[8], "Gamemode");
    assert_eq!(only_gamemode[9], "FALSE");
    let only_thermal = dialog_args("x", Profile::High, false, false, true);
    assert_eq!(only_thermal[8], "Thermal Guard");
}

#[test]
fn dialog_selection_is_read() {
    assert_eq!(
        parse_dialog_selection("MangoHud Overlay|Force OpenGL (WineD3D)|Remember these settings\n"),
        Some(LaunchSettings {
            chosen: ProfileSettings { mango: true, force_opengl: true, ..off() },
            save_profile: true,
        })
    );
    assert_eq!(
        parse_dialog_selection("Thermal Guard|Use Wine instead of Proton|Add to Application Menu"),
        Some(LaunchSettings {
            chosen: ProfileSettings { thermal: true, use_wine: true, add_to_menu: true, ..off() },
            save_profile: false,
        })
    );
    assert_eq!(
        parse_dialog_selection("Gamemode|FPS Limiter (60 FPS)|Unlocked Mode (Benchmark)"),
        Some(LaunchSettings {
            chosen: ProfileSettings { gamemode: true, fps_limit: true, unlocked: true, ..off() },
            save_profile: false,
        })
    );
}

#[test]
fn blank_dialog_selection_is_a_cancel() {
    assert_eq!(parse_dialog_selection(""), None);
    assert_eq!(parse_dialog_selection(" \n"), None);
}

#[test]
fn launch_settings_from_a_profile() {
    let s = settings([true, false, true, false, true, false, true, false]);
    assert_eq!(settings_from_profile(s), LaunchSettings { chosen: s, save_profile: false });
}

#[test]
fn remembered_settings_come_back_unsaved() {
    let first = parse_dialog_selection(
        "MangoHud Overlay|Gamemode|Thermal Guard|Unlocked Mode (Benchmark)|Use Wine instead of Proton|Remember these settings|Add to Application Menu",
    )
    .unwrap();
    assert!(first.save_profile);
    let text = profile_content(&profile_entries(first.chosen));
    let next = settings_from_profile(parse_profile(&text));
    assert_eq!(next, LaunchSettings { save_profile: false, ..first });
}

#[test]
fn settings_sources() {
    assert_eq!(settings_source(true, true), SettingsSource::SavedProfile);
    assert_eq!(settings_source(true, false), SettingsSource::MissingProfile);
    assert_eq!(settings_source(false, true), SettingsSource::AskReuse);
    assert_eq!(settings_source(false, false), SettingsSource::Dialog);
    assert_eq!(reuse_answer(true), SettingsSource::SavedProfile);
    assert_eq!(reuse_answer(false), SettingsSource::Dialog);
}

#[test]
fn five_line_profile_reads_back() {
    for bits in 0u8..32 {
        let b: Vec<bool> = (0..5).map(|k| bits & (1 << k) != 0).collect();
        let text = format!(
            "MangoHud={}\nThermalGuard={}\nForceOpenGL={}\nUseWine={}\nAddToMenu={}\n",
            b[0], b[1], b[2], b[3], b[4]
        );
        assert_eq!(
            parse_profile(&text),
            settings([b[0], b[1], b[2], b[3], b[4], false, false, false])
        );
    }
}

#[test]
fn first_five_settings_ignore_lines_for_the_others() {
    let content = "MangoHud=true\nUseWine=true\nAddToMenu=false";
    let extra = "Gamemode=true\nFpsLimit=true\n# note";
    let base = parse_profile(content);
    for joined in [format!("{}\n{}", content, extra), format!("{}\n{}", extra, content)] {
        let p = parse_profile(&joined);
        assert_eq!(
            (p.mango, p.thermal, p.force_opengl, p.use_wine, p.add_to_menu),
            (base.mango, base.thermal, base.force_opengl, base.use_wine, base.add_to_menu)
        );
        assert!(p.gamemode && p.fps_limit && !p.unlocked);
    }
}
