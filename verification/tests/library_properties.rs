use libloadorder::encoding::strict_encode;
use libloadorder::game_settings::{deduplicate, ImplicitInputs, InstallProbes, SettingsInputs};
use libloadorder::ini::read_ini;
use libloadorder::load_order::load::{map_plugin_lines, read_plugin_names};
use libloadorder::message::decimal_string;
use libloadorder::openmw_config::{escape_openmw_data_value, parse_path_value, OpenMWConfig};
use libloadorder::plugin::PluginHeader;
use libloadorder::{Error, GameId, GameSettings, LoadOrder, Plugin};

fn inputs() -> SettingsInputs {
    SettingsInputs {
        probes: InstallProbes::default(),
        oblivion_ini: None,
        openmw_config: OpenMWConfig::default(),
        implicit: ImplicitInputs::default(),
    }
}

fn header(is_master: bool) -> PluginHeader {
    PluginHeader {
        is_master_file: is_master,
        is_light_plugin: false,
        is_medium_plugin: false,
        is_blueprint_plugin: false,
        masters: Vec::new(),
    }
}

fn plugin(game: GameId, name: &str, is_master: bool, active: bool, time: i128) -> Plugin {
    Plugin::with_header(&format!("game/Data/{}", name), game, active, time, header(is_master)).unwrap()
}

fn load_order(game: GameId) -> LoadOrder {
    LoadOrder::new(GameSettings::with_local_path(game, "game", "local", inputs()).unwrap())
}

fn names(load_order: &LoadOrder) -> Vec<String> {
    load_order.plugin_names()
}

#[test]
fn saving_timestamps_gives_distinct_padded_times_in_load_order() {
    let mut lo = load_order(GameId::Oblivion);
    lo.insert(plugin(GameId::Oblivion, "A.esm", true, true, 100));
    lo.insert(plugin(GameId::Oblivion, "B.esp", false, true, 100));
    lo.insert(plugin(GameId::Oblivion, "C.esp", false, false, 50));
    assert_eq!(vec!["A.esm", "B.esp", "C.esp"], names(&lo));

    lo.save_load_order_using_timestamps();

    let times: Vec<i128> = lo.plugins().iter().map(|p| p.modification_time()).collect();
    assert_eq!(vec![50, 100, 60_000_000_100], times);
}

#[test]
fn timestamps_saved_for_a_load_order_sort_back_into_it() {
    let mut lo = load_order(GameId::Oblivion);
    lo.insert(plugin(GameId::Oblivion, "A.esm", true, true, 300));
    lo.insert(plugin(GameId::Oblivion, "B.esm", true, true, 10));
    lo.insert(plugin(GameId::Oblivion, "C.esp", false, true, 300));
    lo.insert(plugin(GameId::Oblivion, "D.esp", false, false, 5));
    let before = names(&lo);

    lo.save_load_order_using_timestamps();
    lo.sort_by_timestamps();

    assert_eq!(before, names(&lo));
}

#[test]
fn sorting_by_timestamps_puts_masters_first_then_orders_by_time() {
    let mut lo = load_order(GameId::Oblivion);
    lo.insert(plugin(GameId::Oblivion, "A.esm", true, true, 300));
    lo.insert(plugin(GameId::Oblivion, "B.esm", true, true, 10));
    lo.insert(plugin(GameId::Oblivion, "C.esp", false, true, 300));
    lo.insert(plugin(GameId::Oblivion, "D.esp", false, false, 5));

    lo.sort_by_timestamps();

    assert_eq!(vec!["B.esm", "A.esm", "D.esp", "C.esp"], names(&lo));
}

#[test]
fn load_order_file_contents_read_back_as_the_same_names() {
    let mut lo = load_order(GameId::Skyrim);
    lo.insert(plugin(GameId::Skyrim, "Skyrim.esm", true, true, 0));
    lo.insert(plugin(GameId::Skyrim, "Blank.esp", false, false, 0));
    lo.insert(plugin(GameId::Skyrim, "Blank - Different.esp", false, true, 0));

    let contents = lo.load_order_file_contents();

    assert_eq!("Skyrim.esm\nBlank.esp\nBlank - Different.esp\n", contents);
    assert_eq!(names(&lo), map_plugin_lines(&contents));
}

#[test]
fn map_plugin_lines_skips_comments_and_empty_lines_and_carriage_returns() {
    let lines = map_plugin_lines("# comment\r\nA.esp\r\n\r\nB.esp");
    assert_eq!(vec!["A.esp", "B.esp"], lines);
}

#[test]
fn escaped_data_value_reads_back_unchanged() {
    let path = "C:/Games/Morrowind & \"Mods\"/Data";
    let escaped = escape_openmw_data_value(path);

    assert_eq!("\"C:/Games/Morrowind && &\"Mods&\"/Data\"", escaped);
    assert_eq!(path, parse_path_value(&escaped));
}

#[test]
fn deduplicate_keeps_the_first_of_each_set_of_matching_names() {
    let mut plugin_names: Vec<String> =
        vec!["a.esp".into(), "b.esp".into(), "A.ESP".into(), "c.esp".into(), "B.esp".into()];
    deduplicate(&mut plugin_names);
    assert_eq!(vec!["a.esp", "b.esp", "c.esp"], plugin_names);
}

#[test]
fn decimal_string_writes_numbers_as_display_does() {
    assert_eq!("0", decimal_string(0));
    assert_eq!("7", decimal_string(7));
    assert_eq!("1234567", decimal_string(1_234_567));
    assert_eq!(u64::MAX.to_string(), decimal_string(u64::MAX));
}

#[test]
fn error_messages_follow_their_formats() {
    assert_eq!(
        "The plugin \"a.esp\" is not in the load order",
        Error::PluginNotFound("a.esp".into()).message()
    );
    assert_eq!(
        "Maximum number of active plugins exceeded: there are 3 active full plugins, 2 active medium plugins and 1 active light plugins",
        Error::TooManyActivePlugins { light_count: 1, medium_count: 2, full_count: 3 }.message()
    );
    assert_eq!("The path \"a/b\" is invalid", Error::InvalidPath("a/b".into()).message());
    assert_eq!(
        "Error returned by the operating system, code -5: \"x\\\"y\"",
        Error::SystemError(-5, "x\"y".into()).message()
    );
    assert_eq!(
        "String could not be decoded from Windows-1252, bytes are [0A, FF]",
        Error::DecodeError(vec![0x0A, 0xFF]).message()
    );
    assert_eq!(
        "Attempted to load the early-loading plugin \"Update.esm\" at position 4, its expected position is 1",
        Error::InvalidEarlyLoadingPluginPosition { name: "Update.esm".into(), pos: 4, expected_pos: 1 }
            .message()
    );
    assert_eq!(
        "Failed to parse ini file at \"x.ini\", error at line 2, column 10: bad",
        Error::IniParsingError { path: "x.ini".into(), line: 2, column: 10, message: "bad".into() }
            .message()
    );
}

#[test]
fn strict_encode_maps_characters_to_windows_1252_bytes() {
    assert_eq!(vec![0x80, b'a', 0xE9], strict_encode("€aé").unwrap());
    assert_eq!(Err(Error::EncodeError("中.esp".into())), strict_encode("中.esp"));
}

#[test]
fn active_plugins_file_contents_are_windows_1252_lines() {
    let mut lo = load_order(GameId::Oblivion);
    lo.insert(plugin(GameId::Oblivion, "Blàñk.esm", true, true, 0));
    lo.insert(plugin(GameId::Oblivion, "Other.esp", false, false, 0));
    lo.insert(plugin(GameId::Oblivion, "Third.esp", false, true, 0));

    let bytes = lo.textfile_active_plugins_file_contents().unwrap();

    let mut expected = vec![b'B', b'l', 0xE0, 0xF1, b'k', b'.', b'e', b's', b'm', b'\n'];
    expected.extend_from_slice(b"Third.esp\n");
    assert_eq!(expected, bytes);
    assert_eq!(vec!["Blàñk.esm", "Third.esp"], read_plugin_names(Some(&bytes)).unwrap());
}

#[test]
fn active_plugins_file_contents_fail_on_a_name_that_windows_1252_lacks() {
    let mut lo = load_order(GameId::Oblivion);
    lo.insert(plugin(GameId::Oblivion, "中.esp", false, true, 0));

    assert_eq!(
        Err(Error::EncodeError("中.esp".into())),
        lo.textfile_active_plugins_file_contents()
    );
}

#[test]
fn read_plugin_names_decodes_windows_1252() {
    let names = read_plugin_names(Some(&[0x80, b'.', b'e', b's', b'p', b'\n'])).unwrap();
    assert_eq!(vec!["€.esp"], names);
    assert_eq!(Vec::<String>::new(), read_plugin_names(None).unwrap());
}

#[test]
fn read_ini_parses_sections_and_keys() {
    let doc = read_ini("x.ini", b"[General]\nsTestFile1=a.esp\n").unwrap();
    assert_eq!(Some("a.esp".to_string()), doc.get_from(Some("General"), "sTestFile1"));
    assert_eq!(None, doc.get_from(Some("General"), "sTestFile2"));
}

#[test]
fn read_ini_reports_the_path_of_a_file_it_cannot_parse() {
    match read_ini("broken.ini", b"[General\nsTestFile1=a.esp\n") {
        Err(Error::IniParsingError { path, .. }) => assert_eq!("broken.ini", path),
        other => panic!("unexpected result: {:?}", other.is_ok()),
    }
}

#[test]
fn plugin_names_match_case_insensitively() {
    let p = plugin(GameId::Skyrim, "Blàñk.esp", false, false, 0);
    assert!(p.name_matches("BLÀÑK.ESP"));
    assert!(p.name_matches("blàñk.esp"));
    assert!(!p.name_matches("Blank.esp"));
}

#[test]
fn plugin_paths_without_a_file_name_or_plugin_extension_are_refused() {
    assert_eq!(
        Some(Error::NoFilename("game/..".into())),
        Plugin::with_header("game/..", GameId::Skyrim, false, 0, header(false)).err()
    );
    assert_eq!(
        Some(Error::InvalidPath("game/Blank.txt".into())),
        Plugin::with_header("game/Blank.txt", GameId::Skyrim, false, 0, header(false)).err()
    );
}

#[test]
fn activating_then_deactivating_a_plugin_changes_its_state() {
    let mut lo = load_order(GameId::Oblivion);
    lo.insert(plugin(GameId::Oblivion, "Blank.esp", false, false, 0));
    assert!(!lo.is_active("Blank.esp"));

    lo.activate("blank.esp").unwrap();
    assert!(lo.is_active("Blank.esp"));

    lo.deactivate("BLANK.ESP").unwrap();
    assert!(!lo.is_active("Blank.esp"));
}

#[test]
fn activating_a_plugin_that_is_not_loaded_fails() {
    let mut lo = load_order(GameId::Oblivion);
    assert_eq!(Err(Error::PluginNotFound("Missing.esp".into())), lo.activate("Missing.esp"));
}

#[test]
fn set_active_plugins_activates_exactly_those_given() {
    let mut lo = load_order(GameId::Oblivion);
    lo.insert(plugin(GameId::Oblivion, "A.esm", true, true, 0));
    lo.insert(plugin(GameId::Oblivion, "B.esp", false, false, 0));
    lo.insert(plugin(GameId::Oblivion, "C.esp", false, true, 0));

    lo.set_active_plugins(&["B.esp", "A.esm"]).unwrap();

    assert_eq!(vec!["A.esm", "B.esp"], lo.active_plugin_names());
}

#[test]
fn add_then_index_of_gives_the_position_returned() {
    let mut lo = load_order(GameId::Oblivion);
    lo.insert(plugin(GameId::Oblivion, "A.esm", true, true, 0));
    lo.insert(plugin(GameId::Oblivion, "C.esp", false, true, 0));

    let index = lo.add("B.esm", Ok(plugin(GameId::Oblivion, "B.esm", true, false, 0))).unwrap();

    assert_eq!(1, index);
    assert_eq!(Some(1), lo.index_of("b.esm"));
    assert_eq!(
        Err(Error::DuplicatePlugin("B.esm".into())),
        lo.add("B.esm", Ok(plugin(GameId::Oblivion, "B.esm", true, false, 0)))
    );
}

/// The header of a Skyrim plugin with no subrecords and the given flags.
fn skyrim_header_bytes(flags: u32) -> Vec<u8> {
    let mut bytes = b"TES4".to_vec();
    bytes.extend_from_slice(&0u32.to_le_bytes());
    bytes.extend_from_slice(&flags.to_le_bytes());
    bytes.extend_from_slice(&[0; 12]);
    bytes
}

#[test]
fn plugin_with_path_reads_the_header_flags_with_esplugin() {
    let master = Plugin::with_path("game/Data/Blank.esm", GameId::Skyrim, false, 0, &skyrim_header_bytes(1)).unwrap();
    assert!(master.is_master_file());
    assert!(master.masters().is_empty());

    let plugin = Plugin::with_path("game/Data/Blank.esp", GameId::Skyrim, true, 0, &skyrim_header_bytes(0)).unwrap();
    assert!(!plugin.is_master_file());
    assert!(plugin.is_active());
    assert_eq!("Blank.esp", plugin.name());
}

#[test]
fn plugin_with_path_fails_on_data_that_is_not_a_plugin() {
    let result = Plugin::with_path("game/Data/Bad.esp", GameId::Skyrim, false, 0, b"TES3");
    assert!(matches!(
        result,
        Err(Error::PluginParsingError(..)) | Err(Error::IoError(..))
    ));
}

#[test]
fn game_id_should_map_to_libespm_id_correctly() {
    assert_eq!(esplugin::GameId::Morrowind, GameId::Morrowind.to_esplugin_id());
    assert_eq!(esplugin::GameId::Oblivion, GameId::Oblivion.to_esplugin_id());
    assert_eq!(esplugin::GameId::Skyrim, GameId::Skyrim.to_esplugin_id());
    assert_eq!(esplugin::GameId::SkyrimSE, GameId::SkyrimSE.to_esplugin_id());
    assert_eq!(esplugin::GameId::SkyrimSE, GameId::SkyrimVR.to_esplugin_id());
    assert_eq!(esplugin::GameId::Fallout3, GameId::Fallout3.to_esplugin_id());
    assert_eq!(esplugin::GameId::FalloutNV, GameId::FalloutNV.to_esplugin_id());
    assert_eq!(esplugin::GameId::Fallout4, GameId::Fallout4.to_esplugin_id());
    assert_eq!(esplugin::GameId::Fallout4, GameId::Fallout4VR.to_esplugin_id());
    assert_eq!(esplugin::GameId::Starfield, GameId::Starfield.to_esplugin_id());
}
