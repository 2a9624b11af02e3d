use std::path::{Path, PathBuf};

use libloadorder::game_settings::{ImplicitInputs, SettingsInputs};
use libloadorder::openmw_config::{
    default_global_config_dir, default_user_config_dir, default_user_data_dir, is_flatpak_install,
    resources_vfs_path, FixedPaths, OpenMWConfig, SystemProbes,
};
use libloadorder::{Error, GameId, GameSettings, LoadOrderMethod};

fn game_with_generic_paths(game_id: GameId) -> GameSettings {
    GameSettings::with_local_and_my_games_paths(
        game_id,
        "game",
        "local",
        "my games".to_string(),
        SettingsInputs::default(),
    )
    .unwrap()
}

fn paths(strings: &[String]) -> Vec<PathBuf> {
    strings.iter().map(PathBuf::from).collect()
}

#[test]
fn error_display_should_print_double_quoted_paths() {
    let string = Error::InvalidPath("foo".into()).message();

    assert_eq!("The path \"foo\" is invalid", string);
}

#[test]
fn id_should_be_the_id_the_struct_was_created_with() {
    let settings = game_with_generic_paths(GameId::Morrowind);
    assert_eq!(GameId::Morrowind, settings.id());
}

#[test]
fn load_order_method_should_be_timestamp_for_tes3_tes4_fo3_and_fonv() {
    let mut settings = game_with_generic_paths(GameId::Morrowind);
    assert_eq!(LoadOrderMethod::Timestamp, settings.load_order_method());

    settings = game_with_generic_paths(GameId::Oblivion);
    assert_eq!(LoadOrderMethod::Timestamp, settings.load_order_method());

    settings = game_with_generic_paths(GameId::Fallout3);
    assert_eq!(LoadOrderMethod::Timestamp, settings.load_order_method());

    settings = game_with_generic_paths(GameId::FalloutNV);
    assert_eq!(LoadOrderMethod::Timestamp, settings.load_order_method());
}

#[test]
fn load_order_method_should_be_textfile_for_tes5() {
    let settings = game_with_generic_paths(GameId::Skyrim);
    assert_eq!(LoadOrderMethod::Textfile, settings.load_order_method());
}

#[test]
fn load_order_method_should_be_asterisk_for_tes5se_tes5vr_fo4_fo4vr_and_starfield() {
    let mut settings = game_with_generic_paths(GameId::SkyrimSE);
    assert_eq!(LoadOrderMethod::Asterisk, settings.load_order_method());

    settings = game_with_generic_paths(GameId::SkyrimVR);
    assert_eq!(LoadOrderMethod::Asterisk, settings.load_order_method());

    settings = game_with_generic_paths(GameId::Fallout4);
    assert_eq!(LoadOrderMethod::Asterisk, settings.load_order_method());

    settings = game_with_generic_paths(GameId::Fallout4VR);
    assert_eq!(LoadOrderMethod::Asterisk, settings.load_order_method());

    settings = game_with_generic_paths(GameId::Starfield);
    assert_eq!(LoadOrderMethod::Asterisk, settings.load_order_method());
}

#[test]
fn load_order_method_should_be_openmw_for_openmw() {
    let settings = game_with_generic_paths(GameId::OpenMW);

    assert_eq!(LoadOrderMethod::OpenMW, settings.load_order_method());
}

#[test]
fn master_file_should_be_mapped_from_game_id() {
    let mut settings = game_with_generic_paths(GameId::OpenMW);
    assert_eq!("Morrowind.esm", settings.master_file());

    settings = game_with_generic_paths(GameId::Morrowind);
    assert_eq!("Morrowind.esm", settings.master_file());

    settings = game_with_generic_paths(GameId::Oblivion);
    assert_eq!("Oblivion.esm", settings.master_file());

    settings = game_with_generic_paths(GameId::Skyrim);
    assert_eq!("Skyrim.esm", settings.master_file());

    settings = game_with_generic_paths(GameId::SkyrimSE);
    assert_eq!("Skyrim.esm", settings.master_file());

    settings = game_with_generic_paths(GameId::SkyrimVR);
    assert_eq!("Skyrim.esm", settings.master_file());

    settings = game_with_generic_paths(GameId::Fallout3);
    assert_eq!("Fallout3.esm", settings.master_file());

    settings = game_with_generic_paths(GameId::FalloutNV);
    assert_eq!("FalloutNV.esm", settings.master_file());

    settings = game_with_generic_paths(GameId::Fallout4);
    assert_eq!("Fallout4.esm", settings.master_file());

    settings = game_with_generic_paths(GameId::Fallout4VR);
    assert_eq!("Fallout4.esm", settings.master_file());

    settings = game_with_generic_paths(GameId::Starfield);
    assert_eq!("Starfield.esm", settings.master_file());
}

#[test]
fn active_plugins_file_should_be_mapped_from_game_id() {
    let expected = [
        (GameId::OpenMW, "local/openmw.cfg"),
        (GameId::Morrowind, "game/Morrowind.ini"),
        (GameId::Oblivion, "local/Plugins.txt"),
        (GameId::Skyrim, "local/Plugins.txt"),
        (GameId::SkyrimSE, "local/Plugins.txt"),
        (GameId::SkyrimVR, "local/Plugins.txt"),
        (GameId::Fallout3, "local/Plugins.txt"),
        (GameId::FalloutNV, "local/Plugins.txt"),
        (GameId::Fallout4, "local/Plugins.txt"),
        (GameId::Fallout4VR, "local/Plugins.txt"),
        (GameId::Starfield, "local/Plugins.txt"),
    ];
    for (game_id, path) in expected {
        let settings = game_with_generic_paths(game_id);
        assert_eq!(Path::new(path), Path::new(settings.active_plugins_file()));
    }
}

#[test]
fn early_loading_plugins_should_be_mapped_from_game_id() {
    let mut settings = game_with_generic_paths(GameId::Skyrim);
    let mut plugins = vec!["Skyrim.esm"];
    assert_eq!(&plugins, settings.early_loading_plugins());

    settings = game_with_generic_paths(GameId::SkyrimSE);
    plugins = vec![
        "Skyrim.esm",
        "Update.esm",
        "Dawnguard.esm",
        "HearthFires.esm",
        "Dragonborn.esm",
    ];
    assert_eq!(&plugins, settings.early_loading_plugins());

    settings = game_with_generic_paths(GameId::SkyrimVR);
    plugins = vec![
        "Skyrim.esm",
        "Update.esm",
        "Dawnguard.esm",
        "HearthFires.esm",
        "Dragonborn.esm",
        "SkyrimVR.esm",
    ];
    assert_eq!(&plugins, settings.early_loading_plugins());

    settings = game_with_generic_paths(GameId::Fallout4);
    plugins = vec![
        "Fallout4.esm",
        "DLCRobot.esm",
        "DLCworkshop01.esm",
        "DLCCoast.esm",
        "DLCworkshop02.esm",
        "DLCworkshop03.esm",
        "DLCNukaWorld.esm",
        "DLCUltraHighResolution.esm",
    ];
    assert_eq!(&plugins, settings.early_loading_plugins());

    settings = game_with_generic_paths(GameId::OpenMW);
    plugins = vec!["builtin.omwscripts"];
    assert_eq!(&plugins, settings.early_loading_plugins());

    settings = game_with_generic_paths(GameId::Morrowind);
    assert!(settings.early_loading_plugins().is_empty());

    settings = game_with_generic_paths(GameId::Oblivion);
    assert!(settings.early_loading_plugins().is_empty());

    settings = game_with_generic_paths(GameId::Fallout3);
    assert!(settings.early_loading_plugins().is_empty());

    settings = game_with_generic_paths(GameId::FalloutNV);
    assert!(settings.early_loading_plugins().is_empty());

    settings = game_with_generic_paths(GameId::Fallout4VR);
    plugins = vec!["Fallout4.esm", "Fallout4_VR.esm"];
    assert_eq!(&plugins, settings.early_loading_plugins());

    settings = game_with_generic_paths(GameId::Starfield);
    plugins = vec![
        "Starfield.esm",
        "Constellation.esm",
        "OldMars.esm",
        "ShatteredSpace.esm",
        "SFBGS003.esm",
        "SFBGS004.esm",
        "SFBGS006.esm",
        "SFBGS007.esm",
        "SFBGS008.esm",
    ];
    assert_eq!(&plugins, settings.early_loading_plugins());
}

#[test]
fn implicitly_active_plugins_should_include_update_esm_for_skyrim() {
    let settings = game_with_generic_paths(GameId::Skyrim);
    let plugins = settings.implicitly_active_plugins();

    assert!(plugins.contains(&"Update.esm".to_string()));
}

#[test]
fn implicitly_active_plugins_should_include_blueprintships_starfield_esm_for_starfield() {
    let settings = game_with_generic_paths(GameId::Starfield);
    let plugins = settings.implicitly_active_plugins();

    assert!(plugins.contains(&"BlueprintShips-Starfield.esm".to_string()));
}

#[test]
fn is_implicitly_active_should_return_true_iff_the_plugin_is_implicitly_active() {
    let settings = game_with_generic_paths(GameId::Skyrim);
    assert!(settings.is_implicitly_active("Update.esm"));
    assert!(!settings.is_implicitly_active("Test.esm"));
}

#[test]
fn is_implicitly_active_should_match_case_insensitively() {
    let settings = game_with_generic_paths(GameId::Skyrim);
    assert!(settings.is_implicitly_active("update.esm"));
}

#[test]
fn loads_early_should_return_true_iff_the_plugin_loads_early() {
    let settings = game_with_generic_paths(GameId::SkyrimSE);
    assert!(settings.loads_early("Dawnguard.esm"));
    assert!(!settings.loads_early("Test.esm"));
}

#[test]
fn loads_early_should_match_case_insensitively() {
    let settings = game_with_generic_paths(GameId::SkyrimSE);
    assert!(settings.loads_early("dawnguard.esm"));
}

#[test]
fn plugins_folder_should_be_a_child_of_the_game_path() {
    let settings = game_with_generic_paths(GameId::Skyrim);
    assert_eq!(Path::new("game/Data"), Path::new(&settings.plugins_directory()));
}

#[test]
fn load_order_file_should_be_in_local_path_for_skyrim_and_none_for_other_games() {
    let mut settings = game_with_generic_paths(GameId::Skyrim);
    assert_eq!(
        Path::new("local/loadorder.txt"),
        Path::new(settings.load_order_file().unwrap())
    );

    for game_id in [
        GameId::SkyrimSE,
        GameId::OpenMW,
        GameId::Morrowind,
        GameId::Oblivion,
        GameId::Fallout3,
        GameId::FalloutNV,
        GameId::Fallout4,
    ] {
        settings = game_with_generic_paths(game_id);
        assert!(settings.load_order_file().is_none());
    }
}

#[test]
fn additional_plugins_directories_should_be_empty_if_fallout4_is_not_from_the_microsoft_store() {
    let settings = game_with_generic_paths(GameId::Fallout4);

    assert!(settings.additional_plugins_directories().is_empty());
}

#[test]
fn additional_plugins_directories_should_not_be_empty_if_game_is_starfield() {
    let settings = game_with_generic_paths(GameId::Starfield);

    assert_eq!(
        vec![Path::new("my games").join("Data")],
        paths(settings.additional_plugins_directories())
    );
}

#[test]
fn plugin_path_should_return_plugins_dir_subpath_if_name_does_not_match_any_external_plugin() {
    let settings = game_with_generic_paths(GameId::Fallout4);

    let plugin_name = "DLCCoast.esm";
    assert_eq!(
        Path::new(&settings.plugins_directory()).join(plugin_name),
        PathBuf::from(settings.plugin_path(plugin_name))
    );
}

#[test]
fn openmw_config_reduce_into_should_append_config_values_unless_second_replace_contains_config() {
    let first = OpenMWConfig {
        config: vec!["a".into()],
        ..Default::default()
    };
    let second = OpenMWConfig {
        config: vec!["b".into()],
        ..Default::default()
    };
    let merged = second.reduce_into(first);

    assert_eq!(vec!["a".to_string(), "b".into()], merged.config);

    let third = OpenMWConfig {
        replace: vec!["config".into()],
        config: vec!["c".into()],
        ..Default::default()
    };
    let merged = third.reduce_into(merged);

    assert_eq!(vec!["c".to_string()], merged.config);
}

#[test]
fn openmw_config_reduce_into_should_append_data_values_unless_second_replace_contains_data() {
    let first = OpenMWConfig {
        data: vec!["a".into()],
        ..Default::default()
    };
    let second = OpenMWConfig {
        data: vec!["b".into()],
        ..Default::default()
    };
    let merged = second.reduce_into(first);

    assert_eq!(vec!["a".to_string(), "b".into()], merged.data);

    let third = OpenMWConfig {
        replace: vec!["data".into()],
        data: vec!["c".into()],
        ..Default::default()
    };
    let merged = third.reduce_into(merged);

    assert_eq!(vec!["c".to_string()], merged.data);
}

#[test]
fn openmw_config_into_additional_data_paths_should_use_data_local_and_data_paths() {
    let config = OpenMWConfig {
        data_local: Some("a".into()),
        data: vec!["b".into(), "c".into()],
        ..Default::default()
    };

    assert_eq!(
        vec!["a".to_string(), "b".into(), "c".into()],
        config.into_additional_data_paths()
    );
}

fn game_with_ccc_plugins(game_id: GameId, plugin_names: &[&str]) -> GameSettings {
    let inputs = SettingsInputs {
        implicit: ImplicitInputs {
            ccc_lines: Some(plugin_names.iter().map(|n| n.to_string()).collect()),
            ..ImplicitInputs::default()
        },
        ..SettingsInputs::default()
    };
    GameSettings::with_local_and_my_games_paths(game_id, "game", "", String::new(), inputs).unwrap()
}

#[test]
fn early_loading_plugins_should_include_plugins_loaded_from_ccc_file() {
    let mut plugins = vec![
        "Skyrim.esm",
        "Update.esm",
        "Dawnguard.esm",
        "HearthFires.esm",
        "Dragonborn.esm",
        "ccBGSSSE002-ExoticArrows.esl",
        "ccBGSSSE003-Zombies.esl",
        "ccBGSSSE004-RuinsEdge.esl",
        "ccBGSSSE006-StendarsHammer.esl",
        "ccBGSSSE007-Chrysamere.esl",
        "ccBGSSSE010-PetDwarvenArmoredMudcrab.esl",
        "ccBGSSSE014-SpellPack01.esl",
        "ccBGSSSE019-StaffofSheogorath.esl",
        "ccMTYSSE001-KnightsoftheNine.esl",
        "ccQDRSSE001-SurvivalMode.esl",
    ];
    let mut settings = game_with_ccc_plugins(GameId::SkyrimSE, &plugins[5..]);
    assert_eq!(&plugins, settings.early_loading_plugins());

    plugins = vec![
        "Fallout4.esm",
        "DLCRobot.esm",
        "DLCworkshop01.esm",
        "DLCCoast.esm",
        "DLCworkshop02.esm",
        "DLCworkshop03.esm",
        "DLCNukaWorld.esm",
        "DLCUltraHighResolution.esm",
        "ccBGSFO4001-PipBoy(Black).esl",
        "ccBGSFO4002-PipBoy(Blue).esl",
        "ccBGSFO4003-PipBoy(Camo01).esl",
        "ccBGSFO4004-PipBoy(Camo02).esl",
        "ccBGSFO4006-PipBoy(Chrome).esl",
        "ccBGSFO4012-PipBoy(Red).esl",
        "ccBGSFO4014-PipBoy(White).esl",
        "ccBGSFO4016-Prey.esl",
        "ccBGSFO4017-Mauler.esl",
        "ccBGSFO4018-GaussRiflePrototype.esl",
        "ccBGSFO4019-ChineseStealthArmor.esl",
        "ccBGSFO4020-PowerArmorSkin(Black).esl",
        "ccBGSFO4022-PowerArmorSkin(Camo01).esl",
        "ccBGSFO4023-PowerArmorSkin(Camo02).esl",
        "ccBGSFO4025-PowerArmorSkin(Chrome).esl",
        "ccBGSFO4038-HorseArmor.esl",
        "ccBGSFO4039-TunnelSnakes.esl",
        "ccBGSFO4041-DoomMarineArmor.esl",
        "ccBGSFO4042-BFG.esl",
        "ccBGSFO4043-DoomChainsaw.esl",
        "ccBGSFO4044-HellfirePowerArmor.esl",
        "ccFSVFO4001-ModularMilitaryBackpack.esl",
        "ccFSVFO4002-MidCenturyModern.esl",
        "ccFRSFO4001-HandmadeShotgun.esl",
        "ccEEJFO4001-DecorationPack.esl",
    ];
    settings = game_with_ccc_plugins(GameId::Fallout4, &plugins[8..]);
    assert_eq!(&plugins, settings.early_loading_plugins());
}

#[test]
fn early_loading_plugins_should_ignore_later_duplicate_entries() {
    let settings = game_with_ccc_plugins(GameId::Starfield, &["Starfield.esm", "test.esm"]);

    let expected = vec![
        "Starfield.esm",
        "Constellation.esm",
        "OldMars.esm",
        "ShatteredSpace.esm",
        "SFBGS003.esm",
        "SFBGS004.esm",
        "SFBGS006.esm",
        "SFBGS007.esm",
        "SFBGS008.esm",
        "test.esm",
    ];
    assert_eq!(&expected, settings.early_loading_plugins());
}

#[test]
fn implicitly_active_plugins_should_include_early_loading_plugins() {
    let settings = GameSettings::with_local_and_my_games_paths(
        GameId::SkyrimSE,
        "game",
        "",
        String::new(),
        SettingsInputs::default(),
    )
    .unwrap();

    assert_eq!(settings.early_loading_plugins(), settings.implicitly_active_plugins());
}

fn path_string(path: PathBuf) -> String {
    path.to_string_lossy().into_owned()
}

/// What this system shows of OpenMW's directories, with none of the known
/// install locations present.
fn system_probes() -> SystemProbes {
    SystemProbes {
        home_dir: dirs::home_dir().map(path_string),
        config_dir: dirs::config_dir().map(path_string),
        data_local_dir: dirs::data_local_dir().map(path_string),
        ..SystemProbes::default()
    }
}

#[test]
fn resources_vfs_path_should_be_relative_to_game_path_if_not_defined_in_config() {
    let game_path = Path::new("tmp").join("game");

    let path = resources_vfs_path(&path_string(game_path.clone()), OpenMWConfig::default());

    assert_eq!(game_path.join("resources/vfs"), PathBuf::from(path));
}

#[test]
fn default_user_config_dir_on_linux_non_flatpak_should_use_user_config() {
    let path = default_user_config_dir(false, &system_probes()).unwrap();

    assert_eq!(dirs::config_dir().unwrap().join("openmw"), PathBuf::from(path));
}

#[test]
fn default_user_data_dir_on_linux_flatpak_should_use_user_flatpak_data_dir() {
    let path = default_user_data_dir(true, &system_probes()).unwrap();

    assert_eq!(
        dirs::home_dir().unwrap().join(".var/app/org.openmw.OpenMW/data/openmw"),
        PathBuf::from(path)
    );
}

#[test]
fn default_user_data_dir_on_linux_non_flatpak_should_user_local_data() {
    let path = default_user_data_dir(false, &system_probes()).unwrap();

    assert_eq!(dirs::data_local_dir().unwrap().join("openmw"), PathBuf::from(path));
}

#[test]
fn default_global_config_dir_on_linux_should_use_root_etc_folder_if_not_flatpak() {
    let path = default_global_config_dir("tmp", false, &system_probes());

    assert_eq!(Path::new("/etc/openmw"), Path::new(&path));
}

#[test]
fn is_flatpak_install_should_be_false_if_no_metadata_file_exists() {
    assert!(!is_flatpak_install(None));
}

#[test]
fn fixed_paths_on_linux_should_set_flatpak_app_path_to_none_if_is_not_flatpak_install() {
    let paths = FixedPaths::new("tmp", &system_probes()).unwrap();

    assert_eq!(Path::new("tmp"), Path::new(&paths.local));
    assert_eq!(dirs::config_dir().unwrap().join("openmw"), PathBuf::from(&paths.user_config));
    assert_eq!(dirs::data_local_dir().unwrap().join("openmw"), PathBuf::from(&paths.user_data));
    assert_eq!(Path::new("/etc/openmw"), Path::new(&paths.global_config));
    assert_eq!(Path::new("/usr/share/openmw"), Path::new(&paths.global_data));
    assert!(paths.flatpak_app.is_none());
}

#[test]
fn early_loading_plugins_should_lead_the_implicitly_active_plugins() {
    for game_id in [GameId::Skyrim, GameId::SkyrimSE, GameId::Fallout4, GameId::Starfield, GameId::OpenMW] {
        let settings = game_with_ccc_plugins(game_id, &["a.esl", "Skyrim.esm", "b.esl", "A.ESL"]);
        let early = settings.early_loading_plugins();
        let implicit = settings.implicitly_active_plugins();
        assert_eq!(early, &implicit[..early.len()]);
        for names in [early, implicit] {
            for (i, a) in names.iter().enumerate() {
                for b in &names[i + 1..] {
                    assert!(!a.eq_ignore_ascii_case(b), "{a} and {b} in {names:?}");
                }
            }
        }
    }
}
