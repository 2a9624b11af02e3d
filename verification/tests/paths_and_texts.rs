use libloadorder::game_settings::{choose_plugin_path, plugin_path};
use libloadorder::ini::steam_manifest_language;
use libloadorder::load_order::writable::starts_with_blueprint_ships;
use libloadorder::message::hex_bytes_debug;
use libloadorder::openmw_config::{openmw_cfg_text, read_active_plugin_names};
use libloadorder::vdf::{user_config_language, vdf_error_message, VdfError, VdfValue};
use libloadorder::{Error, GameId};

fn found(paths: &[Option<&str>]) -> Vec<Option<String>> {
    paths.iter().map(|p| p.map(String::from)).collect()
}

#[test]
fn choose_plugin_path_should_take_the_last_directory_holding_the_plugin_for_openmw() {
    let f = found(&[Some("d1/a.esp"), None, Some("d3/a.esp"), None]);
    assert_eq!("d3/a.esp", choose_plugin_path(GameId::OpenMW, "a.esp", "Data", &f));
}

#[test]
fn choose_plugin_path_should_take_the_first_directory_holding_the_plugin_for_other_games() {
    let f = found(&[None, Some("d2/a.esp"), Some("d3/a.esp")]);
    assert_eq!("d2/a.esp", choose_plugin_path(GameId::Starfield, "a.esp", "Data", &f));
    assert_eq!("d2/a.esp", choose_plugin_path(GameId::Fallout4, "a.esp", "Data", &f));
}

#[test]
fn choose_plugin_path_should_fall_back_to_the_plugins_directory() {
    let f = found(&[None, None]);
    assert_eq!("Data/a.esp", choose_plugin_path(GameId::OpenMW, "a.esp", "Data", &f));
    assert_eq!("Data/a.esp", choose_plugin_path(GameId::Skyrim, "a.esp", "Data", &Vec::new()));
}

#[test]
fn plugin_path_should_join_the_plugins_directory_without_additional_directories() {
    let dir = "game/Data".to_string();
    assert_eq!("game/Data/a.esp", plugin_path(GameId::Oblivion, "a.esp", &dir, &Vec::new()));
    assert_eq!("game/Data/a.esp", plugin_path(GameId::OpenMW, "a.esp", &dir, &Vec::new()));
}

#[test]
fn openmw_cfg_text_should_replace_data_and_content_and_keep_other_entries() {
    let existing = "resources=foo\ndata=\"old\"\ncontent=Old.esp\nfallback=x\n[Section]\nkey=value\n";
    let data = vec!["\"a\"".to_string()];
    let names = vec!["A.esp".to_string(), "B.esp".to_string()];
    let text = openmw_cfg_text("cfg/openmw.cfg", Some(existing), &data, &names).unwrap();
    assert_eq!(
        "resources=foo\nfallback=x\ndata=\"a\"\ncontent=A.esp\ncontent=B.esp\n\n[Section]\nkey=value\n",
        text
    );
}

#[test]
fn openmw_cfg_text_should_write_only_the_values_where_there_is_no_file() {
    let data = vec!["\"a\"".to_string()];
    let names = vec!["A.esp".to_string()];
    let text = openmw_cfg_text("cfg/openmw.cfg", None, &data, &names).unwrap();
    assert_eq!("data=\"a\"\ncontent=A.esp\n", text);
}

#[test]
fn openmw_cfg_text_should_not_escape_backslashes() {
    let data = vec!["\"C:\\Games\"".to_string()];
    let text = openmw_cfg_text("cfg/openmw.cfg", None, &data, &Vec::new()).unwrap();
    assert_eq!("data=\"C:\\Games\"\n", text);
}

#[test]
fn openmw_cfg_text_should_error_on_an_unparseable_file() {
    let result = openmw_cfg_text("cfg/openmw.cfg", Some("=b\n"), &Vec::new(), &Vec::new());
    match result {
        Err(Error::IniParsingError { path, .. }) => assert_eq!("cfg/openmw.cfg", path),
        other => panic!("unexpected result: {other:?}"),
    }
}

const MANIFEST: &str = "\"AppState\"\n{\n\t\"appid\"\t\t\"1716740\"\n\t\"UserConfig\"\n\t{\n\t\t\"language\"\t\t\"german\"\n\t}\n}\n";

#[test]
fn steam_manifest_language_should_read_the_user_config_language() {
    assert_eq!(
        Ok(Some("german".to_string())),
        steam_manifest_language("appmanifest_1716740.acf", MANIFEST)
    );
}

#[test]
fn steam_manifest_language_should_be_none_without_a_user_config_language() {
    let text = "\"AppState\"\n{\n\t\"appid\"\t\t\"1716740\"\n}\n";
    assert_eq!(Ok(None), steam_manifest_language("appmanifest_1716740.acf", text));
}

#[test]
fn steam_manifest_language_should_error_on_an_unparseable_manifest() {
    match steam_manifest_language("appmanifest_1716740.acf", "\"AppState\"\n{\n") {
        Err(Error::VdfParsingError(path, message)) => {
            assert_eq!("appmanifest_1716740.acf", path);
            assert!(!message.is_empty());
        }
        other => panic!("unexpected result: {other:?}"),
    }
}

#[test]
fn hex_bytes_debug_should_format_bytes_as_upper_case_hex_pairs() {
    assert_eq!("[]", hex_bytes_debug(&[]));
    assert_eq!("[0A]", hex_bytes_debug(&[0x0A]));
    assert_eq!("[00, 7F, FF]", hex_bytes_debug(&[0x00, 0x7F, 0xFF]));
    assert_eq!(format!("{:02X?}", [1u8, 0xAB, 0x10]), hex_bytes_debug(&[1, 0xAB, 0x10]));
}

#[test]
fn decode_error_message_should_list_the_bytes_in_hex() {
    assert_eq!(
        "String could not be decoded from Windows-1252, bytes are [81, 8D]",
        Error::DecodeError(vec![0x81, 0x8D]).message()
    );
}

#[test]
fn starts_with_blueprint_ships_should_compare_the_prefix_case_insensitively() {
    assert!(starts_with_blueprint_ships("BlueprintShips-A.esm"));
    assert!(starts_with_blueprint_ships("blueprintships-a.esp"));
    assert!(starts_with_blueprint_ships("BlueprintShips-"));
    assert!(!starts_with_blueprint_ships("BlueprintShips.esm"));
    assert!(!starts_with_blueprint_ships("Blueprint"));
    assert!(!starts_with_blueprint_ships("A BlueprintShips-.esm"));
}

fn obj(entries: Vec<(&str, Vec<VdfValue>)>) -> VdfValue {
    VdfValue::Obj(entries.into_iter().map(|(k, v)| (k.to_string(), v)).collect())
}

fn string(s: &str) -> VdfValue {
    VdfValue::Str(s.to_string())
}

#[test]
fn user_config_language_should_take_the_first_language_of_the_first_user_config() {
    let manifest = obj(vec![
        ("UserConfig", vec![
            obj(vec![("language", vec![string("french"), string("german")])]),
            obj(vec![("language", vec![string("polish")])]),
        ]),
        ("appid", vec![string("1716740")]),
    ]);
    assert_eq!(Some("french".to_string()), user_config_language(&manifest));
}

#[test]
fn user_config_language_should_be_none_where_the_lookup_fails() {
    let not_a_string = obj(vec![("UserConfig", vec![obj(vec![("language", vec![obj(vec![])])])])]);
    assert_eq!(None, user_config_language(&not_a_string));
    let other_case = obj(vec![("UserConfig", vec![obj(vec![("Language", vec![string("german")])])])]);
    assert_eq!(None, user_config_language(&other_case));
    let no_user_config = obj(vec![("appid", vec![string("1716740")])]);
    assert_eq!(None, user_config_language(&no_user_config));
    assert_eq!(None, user_config_language(&string("german")));
}

#[test]
fn vdf_error_message_should_describe_each_error() {
    assert_eq!("Invalid character \"\u{0}\"", vdf_error_message(&VdfError::RawRender('\u{0}')));
    assert_eq!("bad", vdf_error_message(&VdfError::EscapedParse("bad".to_string())));
    assert_eq!("worse", vdf_error_message(&VdfError::Render("worse".to_string())));
}

#[test]
fn openmw_cfg_text_should_read_back_as_the_names_written() {
    let existing = "resources=foo\ncontent=Old.esp\n[Section]\nkey=value\n";
    let data = vec!["\"C:\\Games\\Data\"".to_string()];
    let names = vec!["Blank.esp".to_string(), "Blank - Different.esp".to_string()];
    let text = openmw_cfg_text("cfg/openmw.cfg", Some(existing), &data, &names).unwrap();
    assert_eq!(names, read_active_plugin_names("cfg/openmw.cfg", Some(&text)).unwrap());
}
