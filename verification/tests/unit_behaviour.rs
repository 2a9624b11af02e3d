use std::path::Path;

use libloadorder::game_settings::{
    appdata_folder_name, my_games_path, plugins_directory, ImplicitInputs, InstallProbes,
    SettingsInputs,
};
use libloadorder::ghostable_path::{
    as_ghosted_path, as_unghosted_path, has_ghost_extension, resolve_path,
};
use libloadorder::ini::{
    filter_test_files, map_steam_language,
    map_windows_system_language, merge_test_files, read_test_files, test_files,
    test_files_ini_paths, use_my_games_directory,
};
use libloadorder::openmw_config::{
    load_config, parse_path_value, read_active_plugin_names, resolve_path_value, user_config_dir,
    ConfigLoadStep, ConfigLoader, FixedPaths, OpenMWConfig, SystemProbes,
};
use libloadorder::plugin::{has_plugin_extension, trim_dot_ghost, trim_dot_ghost_unchecked};
use libloadorder::{GameId, GameSettings};

fn fixed_paths() -> FixedPaths {
    FixedPaths {
        local: "a".into(),
        user_config: "b".into(),
        user_data: "c".into(),
        global_config: "d".into(),
        global_data: "e".into(),
        flatpak_app: Some("f".into()),
    }
}

fn join(a: &str, b: &str) -> String {
    Path::new(a).join(b).to_str().unwrap().to_string()
}

fn no_inputs() -> SettingsInputs {
    SettingsInputs {
        probes: InstallProbes::default(),
        oblivion_ini: None,
        openmw_config: OpenMWConfig::default(),
        implicit: ImplicitInputs::default(),
    }
}

#[test]
fn game_id_supports_light_plugins_should_be_false_until_fallout_4() {
    assert!(!GameId::OpenMW.supports_light_plugins());
    assert!(!GameId::Morrowind.supports_light_plugins());
    assert!(!GameId::Oblivion.supports_light_plugins());
    assert!(!GameId::Skyrim.supports_light_plugins());
    assert!(GameId::SkyrimSE.supports_light_plugins());
    assert!(GameId::SkyrimVR.supports_light_plugins());
    assert!(!GameId::Fallout3.supports_light_plugins());
    assert!(!GameId::FalloutNV.supports_light_plugins());
    assert!(GameId::Fallout4.supports_light_plugins());
    assert!(GameId::Fallout4VR.supports_light_plugins());
    assert!(GameId::Starfield.supports_light_plugins());
}

#[test]
fn game_id_allow_plugin_ghosting_should_be_false_for_openmw_only() {
    assert!(!GameId::OpenMW.allow_plugin_ghosting());
    assert!(GameId::Morrowind.allow_plugin_ghosting());
    assert!(GameId::Oblivion.allow_plugin_ghosting());
    assert!(GameId::Skyrim.allow_plugin_ghosting());
    assert!(GameId::SkyrimSE.allow_plugin_ghosting());
    assert!(GameId::SkyrimVR.allow_plugin_ghosting());
    assert!(GameId::Fallout3.allow_plugin_ghosting());
    assert!(GameId::FalloutNV.allow_plugin_ghosting());
    assert!(GameId::Fallout4.allow_plugin_ghosting());
    assert!(GameId::Fallout4VR.allow_plugin_ghosting());
    assert!(GameId::Starfield.allow_plugin_ghosting());
}

#[test]
fn new_should_use_an_empty_local_path_for_morrowind() {
    let settings = GameSettings::new(GameId::Morrowind, "game", "", no_inputs()).unwrap();

    assert_eq!("", settings.my_games_path());
}

#[test]
fn new_should_determine_correct_local_path_for_openmw_on_linux() {
    let config_path = Path::new("/etc/openmw");

    // OpenMW's configs load from the game directory, else from the guessed
    // global config directory; neither holds a config here.
    let probes = SystemProbes {
        config_dir: Some("/home/user/.config".into()),
        data_local_dir: Some("/home/user/.local/share".into()),
        home_dir: Some("/home/user".into()),
        ..Default::default()
    };
    let fixed = FixedPaths::new("game", &probes).unwrap();
    let (loader, first_dir) = ConfigLoader::start(&fixed);
    assert_eq!("game", first_dir);
    let state = match loader.step(None) {
        ConfigLoadStep::Read(loader, dir) => {
            assert_eq!("/etc/openmw", dir);
            match loader.step(None) {
                ConfigLoadStep::Done(state) => state,
                ConfigLoadStep::Read(_, _) => panic!("no more configs should be read"),
            }
        }
        ConfigLoadStep::Done(_) => panic!("the global config should be read"),
    };

    let settings =
        GameSettings::new(GameId::OpenMW, "game", &user_config_dir(&state), no_inputs()).unwrap();

    assert_eq!(
        config_path.join("openmw.cfg").to_str().unwrap(),
        settings.active_plugins_file()
    );
    assert_eq!(config_path.to_str().unwrap(), settings.my_games_path());
}

#[test]
fn appdata_folder_name_should_be_mapped_from_game_id() {
    // The game's files are unused for most game IDs.
    let probes = InstallProbes::default();

    assert!(appdata_folder_name(GameId::OpenMW, &probes).is_none());

    assert!(appdata_folder_name(GameId::Morrowind, &probes).is_none());

    let mut folder = appdata_folder_name(GameId::Oblivion, &probes).unwrap();
    assert_eq!("Oblivion", folder);

    folder = appdata_folder_name(GameId::Skyrim, &probes).unwrap();
    assert_eq!("Skyrim", folder);

    folder = appdata_folder_name(GameId::SkyrimSE, &probes).unwrap();
    assert_eq!("Skyrim Special Edition", folder);

    folder = appdata_folder_name(GameId::SkyrimVR, &probes).unwrap();
    assert_eq!("Skyrim VR", folder);

    folder = appdata_folder_name(GameId::Fallout3, &probes).unwrap();
    assert_eq!("Fallout3", folder);

    folder = appdata_folder_name(GameId::FalloutNV, &probes).unwrap();
    assert_eq!("FalloutNV", folder);

    folder = appdata_folder_name(GameId::Fallout4, &probes).unwrap();
    assert_eq!("Fallout4", folder);

    folder = appdata_folder_name(GameId::Fallout4VR, &probes).unwrap();
    assert_eq!("Fallout4VR", folder);

    folder = appdata_folder_name(GameId::Starfield, &probes).unwrap();
    assert_eq!("Starfield", folder);
}

#[test]
fn my_games_path_should_be_relative_to_local_path_on_linux() {
    let probes = InstallProbes::default();
    let local_path = "wineprefix/drive_c/Users/user/AppData/Local/Game";
    let parent_path = "wineprefix/drive_c/Users/user/Documents/My Games";

    let path = my_games_path(GameId::Morrowind, &probes, local_path).unwrap();
    assert!(path.is_none());

    let path = my_games_path(GameId::Oblivion, &probes, local_path).unwrap().unwrap();
    assert_eq!(join(parent_path, "Oblivion"), path);

    let path = my_games_path(GameId::Skyrim, &probes, local_path).unwrap().unwrap();
    assert_eq!(join(parent_path, "Skyrim"), path);

    let path = my_games_path(GameId::SkyrimSE, &probes, local_path).unwrap().unwrap();
    assert_eq!(join(parent_path, "Skyrim Special Edition"), path);

    let path = my_games_path(GameId::SkyrimVR, &probes, local_path).unwrap().unwrap();
    assert_eq!(join(parent_path, "Skyrim VR"), path);

    let path = my_games_path(GameId::Fallout3, &probes, local_path).unwrap().unwrap();
    assert_eq!(join(parent_path, "Fallout3"), path);

    let path = my_games_path(GameId::FalloutNV, &probes, local_path).unwrap().unwrap();
    assert_eq!(join(parent_path, "FalloutNV"), path);

    let path = my_games_path(GameId::Fallout4, &probes, local_path).unwrap().unwrap();
    assert_eq!(join(parent_path, "Fallout4"), path);

    let path = my_games_path(GameId::Fallout4VR, &probes, local_path).unwrap().unwrap();
    assert_eq!(join(parent_path, "Fallout4VR"), path);

    let path = my_games_path(GameId::Starfield, &probes, local_path).unwrap().unwrap();
    assert_eq!(join(parent_path, "Starfield"), path);
}

#[test]
fn my_games_path_should_be_local_path_for_openmw() {
    let local_path = "path/to/local";

    let path = my_games_path(GameId::OpenMW, &InstallProbes::default(), local_path)
        .unwrap()
        .unwrap();
    assert_eq!(local_path, path);
}

#[test]
fn plugins_directory_should_be_mapped_from_game_id() {
    let data_path = "Data";
    let closure = |game_id| plugins_directory(game_id, "", OpenMWConfig::default());

    assert_eq!("resources/vfs", closure(GameId::OpenMW));
    assert_eq!("Data Files", closure(GameId::Morrowind));
    assert_eq!(data_path, closure(GameId::Oblivion));
    assert_eq!(data_path, closure(GameId::Skyrim));
    assert_eq!(data_path, closure(GameId::SkyrimSE));
    assert_eq!(data_path, closure(GameId::SkyrimVR));
    assert_eq!(data_path, closure(GameId::Fallout3));
    assert_eq!(data_path, closure(GameId::FalloutNV));
    assert_eq!(data_path, closure(GameId::Fallout4));
    assert_eq!(data_path, closure(GameId::Fallout4VR));
    assert_eq!(data_path, closure(GameId::Starfield));
}

#[test]
fn has_ghost_extension_should_be_true_iff_path_ends_in_dot_ghost() {
    assert!(has_ghost_extension("Data/plugin.esp.ghost"));
    assert!(!has_ghost_extension("Data/plugin.esp"));
    assert!(!has_ghost_extension("Data/plugin"));
}

#[test]
fn as_ghosted_path_should_return_given_path_if_it_ends_in_dot_ghost() {
    let path = "Data/plugin.esp.ghost";
    let ghosted_path = as_ghosted_path(path).unwrap();

    assert_eq!(path, ghosted_path);
}

#[test]
fn as_ghosted_path_should_return_path_with_dot_ghost_extension() {
    let path = "Data/plugin.esp";
    let ghosted_path = as_ghosted_path(path).unwrap();

    assert_eq!("Data/plugin.esp.ghost", ghosted_path);
}

#[test]
fn as_ghosted_path_should_error_if_the_given_path_does_not_have_a_filename() {
    assert!(as_ghosted_path("/").is_err());
}

#[test]
fn as_unghosted_path_should_return_path_unchanged_if_it_does_not_end_in_dot_ghost() {
    let path = "Data/plugin.esp";
    let unghosted_path = as_unghosted_path(path).unwrap();

    assert_eq!("Data/plugin.esp", unghosted_path);
}

#[test]
fn as_unghosted_path_should_remove_dot_ghost_suffix() {
    let path = "Data/plugin.esp.ghost";
    let unghosted_path = as_unghosted_path(path).unwrap();

    assert_eq!("Data/plugin.esp", unghosted_path);
}

#[test]
fn resolve_path_should_error_if_no_path_exists() {
    assert!(resolve_path("foo").is_err());
}

#[test]
fn map_steam_language_should_map_languages_supported_by_starfield() {
    assert_eq!("de", map_steam_language("german"));
    assert_eq!("fr", map_steam_language("french"));
    assert_eq!("it", map_steam_language("italian"));
    assert_eq!("es", map_steam_language("spanish"));
    assert_eq!("es", map_steam_language("latam"));
    assert_eq!("zhhans", map_steam_language("schinese"));
    assert_eq!("ja", map_steam_language("japanese"));
    assert_eq!("pl", map_steam_language("polish"));
    assert_eq!("ptbr", map_steam_language("brazilian"));
}

#[test]
fn map_steam_language_should_map_unrecognised_languages_to_en() {
    assert_eq!("en", map_steam_language("russian"));
}

#[test]
fn map_windows_system_language_should_map_languages_supported_by_starfield() {
    assert_eq!("en", map_windows_system_language("en-whatever"));
    assert_eq!("fr", map_windows_system_language("fr-whatever"));
    assert_eq!("es", map_windows_system_language("es-whatever"));
    assert_eq!("pl", map_windows_system_language("pl-whatever"));
    assert_eq!("de", map_windows_system_language("de-whatever"));
    assert_eq!("it", map_windows_system_language("it-whatever"));
    assert_eq!("ja", map_windows_system_language("ja-whatever"));
    assert_eq!("ptbr", map_windows_system_language("pt-BR"));
    assert_eq!("zhhans", map_windows_system_language("zh-Hans"));
}

#[test]
fn map_windows_system_language_should_map_unrecognised_languages_to_en() {
    assert_eq!("en", map_steam_language("ru"));
    assert_eq!("en", map_steam_language("pt-PT"));
    assert_eq!("en", map_steam_language("zh-Hant"));
}

#[test]
fn use_my_games_directory_should_be_true_if_the_ini_path_does_not_exist() {
    assert!(use_my_games_directory("does_not_exist", None).unwrap());
}

#[test]
fn read_test_files_should_return_array_of_nones_if_path_does_not_exist() {
    let test_files = read_test_files("missing.ini", None).unwrap();

    assert_eq!(10, test_files.len());
    assert!(test_files.iter().all(Option::is_none));
}

#[test]
fn merge_test_files_should_overwrite_values_if_the_overrider_value_is_not_none() {
    let mut files1: Vec<Option<String>> = vec![None; 10];
    let mut files2: Vec<Option<String>> = vec![None; 10];

    files1[0] = Some("a".to_owned());

    files2[1] = Some("b".to_owned());
    files2[2] = Some("c".to_owned());
    files2[3] = Some("d".to_owned());
    files2[4] = Some("e".to_owned());
    files2[5] = Some("f".to_owned());
    files2[6] = Some("g".to_owned());
    files2[7] = Some("h".to_owned());
    files2[8] = Some("i".to_owned());
    files2[9] = Some("j".to_owned());

    let output = merge_test_files(files1.clone(), &files2.clone());

    assert_eq!("a", output[0].as_ref().unwrap());
    assert_eq!("b", output[1].as_ref().unwrap());
    assert_eq!("c", output[2].as_ref().unwrap());
    assert_eq!("d", output[3].as_ref().unwrap());
    assert_eq!("e", output[4].as_ref().unwrap());
    assert_eq!("f", output[5].as_ref().unwrap());
    assert_eq!("g", output[6].as_ref().unwrap());
    assert_eq!("h", output[7].as_ref().unwrap());
    assert_eq!("i", output[8].as_ref().unwrap());
    assert_eq!("j", output[9].as_ref().unwrap());

    files2[0] = Some("aa".to_owned());

    let output = merge_test_files(files1, &files2);

    assert_eq!("aa", output[0].as_ref().unwrap());
}

#[test]
fn filter_test_files_should_remove_none_and_empty_string_values() {
    let mut files: Vec<Option<String>> = vec![None; 10];

    files[0] = Some("a".to_owned());
    files[1] = None;
    files[2] = Some("c".to_owned());
    files[3] = Some(String::new());
    files[4] = Some("e".to_owned());

    let output = filter_test_files(files);

    assert_eq!(vec!["a", "c", "e"], output);
}

#[test]
fn test_files_for_morrowind_should_return_an_empty_vec() {
    let paths = test_files_ini_paths(GameId::Morrowind, "", "", true, false, "en");
    let files: Vec<(String, Option<Vec<u8>>)> = paths.into_iter().map(|p| (p, None)).collect();
    let files = test_files(GameId::Morrowind, &files).unwrap();

    assert!(files.is_empty());
}

#[test]
fn read_active_plugin_names_should_not_error_if_the_given_path_does_not_exist() {
    let data_paths = read_active_plugin_names("missing", None).unwrap();

    assert!(data_paths.is_empty());
}

#[test]
fn openmw_config_reduce_into_should_replace_the_first_resources_only_if_it_is_none() {
    let first = OpenMWConfig::default();
    let second = OpenMWConfig {
        resources: Some("a".into()),
        ..Default::default()
    };
    let merged = second.reduce_into(first);

    assert_eq!(Some("a".into()), merged.resources);

    let third = OpenMWConfig {
        resources: Some("b".into()),
        ..Default::default()
    };
    let merged = third.reduce_into(merged);

    assert_eq!(Some("a".into()), merged.resources);
}

#[test]
fn openmw_config_reduce_into_should_replace_the_first_data_local_only_if_it_is_none() {
    let first = OpenMWConfig::default();
    let second = OpenMWConfig {
        data_local: Some("a".into()),
        ..Default::default()
    };
    let merged = second.reduce_into(first);

    assert_eq!(Some("a".into()), merged.data_local);

    let third = OpenMWConfig {
        data_local: Some("b".into()),
        ..Default::default()
    };
    let merged = third.reduce_into(merged);

    assert_eq!(Some("a".into()), merged.data_local);
}

#[test]
fn openmw_config_reduce_into_should_append_replace_values_unless_second_replace_contains_replace() {
    let first = OpenMWConfig {
        replace: vec!["a".into()],
        ..Default::default()
    };
    let second = OpenMWConfig {
        replace: vec!["b".into()],
        ..Default::default()
    };
    let merged = second.reduce_into(first);

    assert_eq!(vec!["a".to_string(), "b".into()], merged.replace);

    let third = OpenMWConfig {
        replace: vec!["c".into(), "replace".into()],
        ..Default::default()
    };
    let merged = third.reduce_into(merged);

    assert_eq!(vec!["c".to_string(), "replace".into()], merged.replace);
}

#[test]
fn openmw_config_reduce_into_should_append_content_values_unless_second_replace_contains_content() {
    let first = OpenMWConfig {
        content: vec!["a".into()],
        ..Default::default()
    };
    let second = OpenMWConfig {
        content: vec!["b".into()],
        ..Default::default()
    };
    let merged = second.reduce_into(first);

    assert_eq!(vec!["a".to_string(), "b".into()], merged.content);

    let third = OpenMWConfig {
        replace: vec!["content".into()],
        content: vec!["c".into()],
        ..Default::default()
    };
    let merged = third.reduce_into(merged);

    assert_eq!(vec!["c".to_string()], merged.content);
}

#[test]
fn parse_path_value_should_strip_enclosing_double_quotes_and_ampersand_escapes() {
    let parsed = parse_path_value("\"Path\\&&&\"&a&&&&\\Data Files\"");

    assert_eq!("Path\\&\"a&&\\Data Files", parsed);
}

#[test]
fn parse_path_value_should_return_an_unquoted_value_as_is() {
    let value = "&\"&\"";
    let parsed = parse_path_value(value);

    assert_eq!(value, parsed);
}

#[test]
fn resolve_path_value_should_return_empty_path_if_value_is_empty() {
    let resolved = resolve_path_value(String::new(), "", &fixed_paths());

    assert_eq!(Some(String::new()), resolved);
}

#[test]
fn resolve_path_value_should_resolve_a_relative_path_to_the_config_directory() {
    let value = "relative/path";
    let config_dir = "config/directory";
    let resolved = resolve_path_value(value.to_string(), config_dir, &fixed_paths());

    assert_eq!(Some(join(config_dir, value)), resolved);
}

#[test]
fn resolve_path_value_should_replace_app_prefix_if_flatpak_app_path_is_defined() {
    let value = "/app/path/to/somewhere".to_string();
    let resolved = resolve_path_value(value, "", &fixed_paths());

    assert_eq!(
        Some(join(&fixed_paths().flatpak_app.unwrap(), "path/to/somewhere")),
        resolved
    );
}

#[test]
fn resolve_path_value_should_not_replace_app_prefix_if_flatpak_app_path_is_not_defined() {
    let value = "/app/path/to/somewhere";
    let mut fixed_paths = fixed_paths();
    fixed_paths.flatpak_app = None;
    let resolved = resolve_path_value(value.to_string(), "", &fixed_paths);

    assert_eq!(Some(value.to_string()), resolved);
}

#[test]
fn resolve_path_value_should_not_replace_token_that_appears_after_the_start_of_the_value() {
    let value = "prefix?userconfig?";
    let config_dir = "config/directory";
    let resolved = resolve_path_value(value.to_string(), config_dir, &fixed_paths());

    assert_eq!(Some(join(config_dir, value)), resolved);
}

#[test]
fn resolve_path_value_should_replace_local_token_prefix() {
    let value = "?local?suffix";
    let fixed_paths = fixed_paths();
    let resolved = resolve_path_value(value.to_string(), "", &fixed_paths);

    assert_eq!(Some(join(&fixed_paths.local, "suffix")), resolved);
}

#[test]
fn resolve_path_value_should_replace_userconfig_token_prefix() {
    let value = "?userconfig?suffix";
    let fixed_paths = fixed_paths();
    let resolved = resolve_path_value(value.to_string(), "", &fixed_paths);

    assert_eq!(Some(join(&fixed_paths.user_config, "suffix")), resolved);
}

#[test]
fn resolve_path_value_should_replace_userdata_token_prefix() {
    let value = "?userdata?suffix";
    let fixed_paths = fixed_paths();
    let resolved = resolve_path_value(value.to_string(), "", &fixed_paths);

    assert_eq!(Some(join(&fixed_paths.user_data, "suffix")), resolved);
}

#[test]
fn resolve_path_value_should_replace_global_token_prefix() {
    let value = "?global?suffix";
    let fixed_paths = fixed_paths();
    let resolved = resolve_path_value(value.to_string(), "", &fixed_paths);

    assert_eq!(Some(join(&fixed_paths.global_data, "suffix")), resolved);
}

#[test]
fn resolve_path_value_should_return_none_if_token_prefix_is_unrecognised() {
    let value = "?other?suffix";
    let fixed_paths = fixed_paths();
    let resolved = resolve_path_value(value.to_string(), "", &fixed_paths);

    assert!(resolved.is_none());
}

#[test]
fn resolve_path_value_should_handle_token_with_no_suffix() {
    let value = "?local?";
    let fixed_paths = fixed_paths();
    let resolved = resolve_path_value(value.to_string(), "", &fixed_paths);

    assert_eq!(Some(fixed_paths.local), resolved);
}

#[test]
fn resolve_path_value_should_return_a_value_starting_with_a_question_mark_but_not_containing_another_unchanged(
) {
    let value = "?local";
    let resolved = resolve_path_value(value.to_string(), "", &fixed_paths());

    assert_eq!(Some(value.to_string()), resolved);
}

#[test]
fn load_config_should_not_error_if_the_given_path_does_not_exist() {
    let config = load_config("missing", None, &fixed_paths()).unwrap();

    assert!(config.is_none());
}

#[test]
fn load_game_configs_should_use_global_config_dir_as_user_config_dir_if_no_configs_are_found() {
    let fixed_paths = fixed_paths();
    // Neither the local nor the global config directory holds a config.
    let (loader, _) = ConfigLoader::start(&fixed_paths);
    let loader = match loader.step(None) {
        ConfigLoadStep::Read(loader, _) => loader,
        ConfigLoadStep::Done(_) => panic!("the global config should be read"),
    };
    let state = match loader.step(None) {
        ConfigLoadStep::Done(state) => state,
        ConfigLoadStep::Read(_, _) => panic!("no more configs should be read"),
    };

    assert!(state.loaded_configs.is_empty());
    assert_eq!(fixed_paths.global_config, state.user_config_dir);
}

#[test]
fn has_plugin_extension_should_recognise_openmw_extensions_for_openmw() {
    assert!(has_plugin_extension("plugin.omwgame", GameId::OpenMW));
    assert!(has_plugin_extension("plugin.omwaddon", GameId::OpenMW));
    assert!(has_plugin_extension("plugin.omwscripts", GameId::OpenMW));
}

#[test]
fn has_plugin_extension_should_recognise_esp_and_esm_extensions_for_all_games() {
    for ext in ["plugin.esp", "plugin.esm"] {
        assert!(has_plugin_extension(ext, GameId::OpenMW));
        assert!(has_plugin_extension(ext, GameId::Morrowind));
        assert!(has_plugin_extension(ext, GameId::Oblivion));
        assert!(has_plugin_extension(ext, GameId::Skyrim));
        assert!(has_plugin_extension(ext, GameId::SkyrimSE));
        assert!(has_plugin_extension(ext, GameId::SkyrimVR));
        assert!(has_plugin_extension(ext, GameId::Fallout3));
        assert!(has_plugin_extension(ext, GameId::FalloutNV));
        assert!(has_plugin_extension(ext, GameId::Fallout4));
        assert!(has_plugin_extension(ext, GameId::Fallout4VR));
        assert!(has_plugin_extension(ext, GameId::Starfield));
    }
}

#[test]
fn has_plugin_extension_should_recognise_ghosted_esp_and_esm_extensions_for_all_games_other_than_openmw(
) {
    for ext in ["plugin.esp.ghost", "plugin.esm.ghost"] {
        assert!(!has_plugin_extension(ext, GameId::OpenMW));
        assert!(has_plugin_extension(ext, GameId::Morrowind));
        assert!(has_plugin_extension(ext, GameId::Oblivion));
        assert!(has_plugin_extension(ext, GameId::Skyrim));
        assert!(has_plugin_extension(ext, GameId::SkyrimSE));
        assert!(has_plugin_extension(ext, GameId::SkyrimVR));
        assert!(has_plugin_extension(ext, GameId::Fallout3));
        assert!(has_plugin_extension(ext, GameId::FalloutNV));
        assert!(has_plugin_extension(ext, GameId::Fallout4));
        assert!(has_plugin_extension(ext, GameId::Fallout4VR));
        assert!(has_plugin_extension(ext, GameId::Starfield));
    }
}

#[test]
fn has_plugin_extension_should_recognise_esl_extension_and_ghosted_esl_for_fo4_and_later_games() {
    assert!(!has_plugin_extension("plugin.esl", GameId::OpenMW));
    assert!(!has_plugin_extension("plugin.esl", GameId::Morrowind));
    assert!(!has_plugin_extension("plugin.esl", GameId::Oblivion));
    assert!(!has_plugin_extension("plugin.esl", GameId::Skyrim));
    assert!(has_plugin_extension("plugin.esl", GameId::SkyrimSE));
    assert!(has_plugin_extension("plugin.esl", GameId::SkyrimVR));
    assert!(!has_plugin_extension("plugin.esl", GameId::Fallout3));
    assert!(!has_plugin_extension("plugin.esl", GameId::FalloutNV));
    assert!(has_plugin_extension("plugin.esl", GameId::Fallout4));
    assert!(has_plugin_extension("plugin.esl", GameId::Fallout4VR));
    assert!(has_plugin_extension("plugin.esl", GameId::Starfield));

    assert!(!has_plugin_extension("plugin.esl.ghost", GameId::OpenMW));
    assert!(!has_plugin_extension("plugin.esl.ghost", GameId::Morrowind));
    assert!(!has_plugin_extension("plugin.esl.ghost", GameId::Oblivion));
    assert!(!has_plugin_extension("plugin.esl.ghost", GameId::Skyrim));
    assert!(has_plugin_extension("plugin.esl.ghost", GameId::SkyrimSE));
    assert!(has_plugin_extension("plugin.esl.ghost", GameId::SkyrimVR));
    assert!(!has_plugin_extension("plugin.esl.ghost", GameId::Fallout3));
    assert!(!has_plugin_extension("plugin.esl.ghost", GameId::FalloutNV));
    assert!(has_plugin_extension("plugin.esl.ghost", GameId::Fallout4));
    assert!(has_plugin_extension("plugin.esl.ghost", GameId::Fallout4VR));
    assert!(has_plugin_extension("plugin.esl.ghost", GameId::Starfield));
}

#[test]
fn trim_dot_ghost_should_trim_the_ghost_extension_if_the_game_allows_ghosting() {
    let ghosted = "plugin.esp.ghost";
    let unghosted = "plugin.esp";

    assert_eq!(ghosted, trim_dot_ghost(ghosted, GameId::OpenMW));
    assert_eq!(unghosted, trim_dot_ghost(ghosted, GameId::Morrowind));
    assert_eq!(unghosted, trim_dot_ghost(ghosted, GameId::Oblivion));
    assert_eq!(unghosted, trim_dot_ghost(ghosted, GameId::Skyrim));
    assert_eq!(unghosted, trim_dot_ghost(ghosted, GameId::SkyrimSE));
    assert_eq!(unghosted, trim_dot_ghost(ghosted, GameId::SkyrimVR));
    assert_eq!(unghosted, trim_dot_ghost(ghosted, GameId::Fallout3));
    assert_eq!(unghosted, trim_dot_ghost(ghosted, GameId::FalloutNV));
    assert_eq!(unghosted, trim_dot_ghost(ghosted, GameId::Fallout4));
    assert_eq!(unghosted, trim_dot_ghost(ghosted, GameId::Fallout4VR));
    assert_eq!(unghosted, trim_dot_ghost(ghosted, GameId::Starfield));
}

#[test]
fn trim_dot_ghost_unchecked_should_trim_the_ghost_extension() {
    let ghosted = "plugin.esp.ghost";
    let unghosted = "plugin.esp";

    assert_eq!(unghosted, trim_dot_ghost_unchecked(ghosted));
    assert_eq!(unghosted, trim_dot_ghost_unchecked(unghosted));
}

#[test]
fn config_loader_should_read_each_config_directory_once() {
    let fixed_paths = fixed_paths();
    let (loader, _) = ConfigLoader::start(&fixed_paths);
    // The local config names "x" twice and "y"; "x"'s config names "y" again.
    let local = OpenMWConfig {
        config: vec!["x".into(), "y".into(), "x".into()],
        ..Default::default()
    };
    let mut step = loader.step(Some(local));
    let mut read = Vec::new();
    loop {
        match step {
            ConfigLoadStep::Read(loader, dir) => {
                assert!(!read.contains(&dir), "{dir} read twice");
                read.push(dir.clone());
                let config = OpenMWConfig {
                    config: if dir == "x" { vec!["y".into()] } else { Vec::new() },
                    ..Default::default()
                };
                step = loader.step(Some(config));
            }
            ConfigLoadStep::Done(state) => {
                assert_eq!(3, state.loaded_configs.len());
                break;
            }
        }
    }
    assert_eq!(vec!["x".to_string(), "y".to_string()], read);
}
