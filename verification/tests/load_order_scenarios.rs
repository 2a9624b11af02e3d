use libloadorder::game_settings::{ImplicitInputs, SettingsInputs};
use libloadorder::load_order::timestamp::plugin_sorter;
use libloadorder::plugin::PluginHeader;
use libloadorder::load_order::load::{check_self_consistency, textfile_listed_names};
use libloadorder::{Error, GameId, GameSettings, LoadOrder, Plugin};

const NON_ASCII: &str = "Blàñk.esp";

/// What the header of each plugin file that the scenarios copy holds: its
/// master, light and medium flags and its masters.
fn source_header(name: &str) -> (bool, bool, bool, Vec<&'static str>) {
    match name {
        "Blank.esm" | "Blank - Different.esm" | "Blank.full.esm" => (true, false, false, vec![]),
        "Blank.esp" | "Blank - Different.esp" => (false, false, false, vec![]),
        "Blank - Master Dependent.esp" => (false, false, false, vec!["Blank.esm"]),
        "Blank - Master Dependent.esm" => (true, false, false, vec!["Blank.esm"]),
        "Blank - Different Master Dependent.esm" => (true, false, false, vec!["Blank - Different.esm"]),
        "Blank - Different Master Dependent.esp" => (false, false, false, vec!["Blank - Different.esm"]),
        "Blank - Plugin Dependent.esp" => (false, false, false, vec!["Blank.esp"]),
        "Blank.medium.esm" => (true, false, true, vec![]),
        "Blank.small.esm" => (true, true, false, vec![]),
        "Blank - Override.esp" => (false, false, false, vec!["Blank.full.esm"]),
        "Blank - Override.full.esm" => (true, false, false, vec!["Blank.full.esm"]),
        other => panic!("no plugin file named {other}"),
    }
}

/// The header of `target`, a copy of the plugin file `source`, as the game
/// reads it: for the games with light plugins an `.esm` or `.esl` file is a
/// master and an `.esl` file is light.
fn header(game_id: GameId, source: &str, target: &str, master_flag: Option<bool>) -> PluginHeader {
    let (master, light, medium, masters) = source_header(source);
    let unghosted = target.strip_suffix(".ghost").unwrap_or(target);
    let extension = unghosted.rsplit('.').next().unwrap_or("").to_ascii_lowercase();
    let has_light_plugins = matches!(
        game_id,
        GameId::SkyrimSE | GameId::SkyrimVR | GameId::Fallout4 | GameId::Fallout4VR | GameId::Starfield
    );
    let master_by_extension = has_light_plugins && (extension == "esm" || extension == "esl");
    PluginHeader {
        is_master_file: master_flag.unwrap_or(master) || master_by_extension,
        is_light_plugin: has_light_plugins && (light || extension == "esl"),
        is_medium_plugin: game_id == GameId::Starfield && medium,
        is_blueprint_plugin: false,
        masters: masters.into_iter().map(String::from).collect(),
    }
}

fn copied_plugin(game_id: GameId, source: &str, target: &str, active: bool) -> Plugin {
    let path = format!("game/Data/{target}");
    Plugin::with_header(&path, game_id, active, 0, header(game_id, source, target, None)).unwrap()
}

fn plugin(game_id: GameId, name: &str, active: bool) -> Plugin {
    copied_plugin(game_id, name, name, active)
}

/// A plugin copied from `source` with its master flag set as given.
fn flagged_plugin(game_id: GameId, source: &str, target: &str, master: bool) -> Plugin {
    let path = format!("game/Data/{target}");
    Plugin::with_header(&path, game_id, false, 0, header(game_id, source, target, Some(master))).unwrap()
}

fn settings(game_id: GameId) -> GameSettings {
    GameSettings::with_local_and_my_games_paths(
        game_id,
        "game",
        "game/local",
        "game/my games".to_string(),
        SettingsInputs::default(),
    )
    .unwrap()
}

/// A load order holding `Blank.esp` (active) and, for games other than
/// Starfield, `Blank - Different.esp`.
fn prepare(game_id: GameId) -> LoadOrder {
    let mut load_order = LoadOrder::new(settings(game_id));
    load_order.insert(plugin(game_id, "Blank.esp", true));
    if game_id != GameId::Starfield {
        load_order.insert(plugin(game_id, "Blank - Different.esp", false));
    }
    load_order
}

fn prepare_with_ghosted_plugin() -> LoadOrder {
    let mut load_order = prepare(GameId::Oblivion);
    load_order.insert(copied_plugin(
        GameId::Oblivion,
        "Blank - Different.esm",
        "Blank - Different.esm.ghost",
        false,
    ));
    load_order
}

fn prepare_bulk_plugins(
    load_order: &mut LoadOrder,
    source: &str,
    count: usize,
    name: impl Fn(usize) -> String,
) -> Vec<String> {
    let game_id = load_order.game_settings().id();
    let names: Vec<String> = (0..count).map(name).collect();
    for n in &names {
        load_order.insert(copied_plugin(game_id, source, n, false));
    }
    names
}

fn prepare_bulk_full_plugins(load_order: &mut LoadOrder) -> Vec<String> {
    let source = if load_order.game_settings().id() == GameId::Starfield {
        "Blank.full.esm"
    } else {
        "Blank.esm"
    };
    prepare_bulk_plugins(load_order, source, 260, |i| format!("Blank{i}.full.esm"))
}

fn prepare_bulk_medium_plugins(load_order: &mut LoadOrder) -> Vec<String> {
    prepare_bulk_plugins(load_order, "Blank.medium.esm", 260, |i| format!("Blank{i}.medium.esm"))
}

fn prepare_bulk_light_plugins(load_order: &mut LoadOrder) -> Vec<String> {
    prepare_bulk_plugins(load_order, "Blank.small.esm", 5000, |i| format!("Blank{i}.small.esm"))
}

/// Puts the game's first early loader at the start, for the games that
/// have one among the scenarios' files.
fn prepend_early_loader(load_order: &mut LoadOrder) {
    let game_id = load_order.game_settings().id();
    let (source, target) = match game_id {
        GameId::SkyrimSE => ("Blank.esm", "Skyrim.esm"),
        GameId::Starfield => ("Blank.full.esm", "Starfield.esm"),
        _ => return,
    };
    load_order.insert(copied_plugin(game_id, source, target, false));
}

/// Adds a plugin as the game would find it installed (`installed` is the
/// plugin as loaded from its file).
fn add(load_order: &mut LoadOrder, name: &str, installed: Option<Plugin>) -> Result<usize, Error> {
    let candidate = installed.ok_or_else(|| Error::InvalidPath(format!("game/Data/{name}")));
    load_order.add(name, candidate)
}

fn add_file(load_order: &mut LoadOrder, name: &str) -> Result<usize, Error> {
    let game_id = load_order.game_settings().id();
    add(load_order, name, Some(plugin(game_id, name, false)))
}

fn strs(names: &[String]) -> Vec<&str> {
    names.iter().map(String::as_str).collect()
}

#[test]
fn add_should_error_if_the_plugin_is_already_in_the_load_order() {
    let mut load_order = prepare(GameId::Oblivion);

    assert!(add_file(&mut load_order, "Blank.esm").is_ok());
    assert!(add_file(&mut load_order, "Blank.esm").is_err());
}

#[test]
fn add_should_error_if_given_a_master_that_would_hoist_a_non_master() {
    let mut load_order = prepare(GameId::Oblivion);

    let different = flagged_plugin(GameId::Oblivion, "Blank - Different.esm", "Blank - Different.esm", false);
    assert!(add(&mut load_order, "Blank - Different.esm", Some(different)).is_ok());

    assert!(add_file(&mut load_order, "Blank - Different Master Dependent.esm").is_err());
}

#[test]
fn add_should_error_if_the_plugin_is_not_valid() {
    let mut load_order = prepare(GameId::Oblivion);

    assert!(add(&mut load_order, "invalid.esm", None).is_err());
}

#[test]
fn add_should_insert_a_master_before_non_masters() {
    let mut load_order = prepare(GameId::Oblivion);

    assert!(!load_order.plugins()[1].is_master_file());

    assert_eq!(0, add_file(&mut load_order, "Blank.esm").unwrap());
    assert_eq!(0, load_order.index_of("Blank.esm").unwrap());
}

#[test]
fn add_should_append_a_non_master() {
    let mut load_order = prepare(GameId::Oblivion);

    assert_eq!(2, add_file(&mut load_order, "Blank - Master Dependent.esp").unwrap());
    assert_eq!(2, load_order.index_of("Blank - Master Dependent.esp").unwrap());
}

#[test]
fn add_should_hoist_a_non_master_that_a_master_depends_on() {
    let mut load_order = prepare(GameId::Oblivion);

    assert!(add_file(&mut load_order, "Blank - Different Master Dependent.esm").is_ok());

    let different = flagged_plugin(GameId::Oblivion, "Blank - Different.esm", "Blank - Different.esm", false);
    assert_eq!(0, add(&mut load_order, "Blank - Different.esm", Some(different)).unwrap());
}

#[test]
fn add_should_hoist_a_master_that_a_master_depends_on() {
    let mut load_order = prepare(GameId::Oblivion);

    let plugin_name = "Blank - Master Dependent.esm";
    assert_eq!(0, add_file(&mut load_order, plugin_name).unwrap());

    assert_eq!(0, add_file(&mut load_order, "Blank.esm").unwrap());
}

#[test]
fn remove_should_error_if_the_plugin_is_not_in_the_load_order() {
    let mut load_order = prepare(GameId::Oblivion);
    assert!(load_order.remove_with_install_state("Blank.esm", true).is_err());
}

#[test]
fn remove_should_error_if_the_plugin_is_installed() {
    let mut load_order = prepare(GameId::Oblivion);
    assert!(load_order.remove_with_install_state("Blank.esp", true).is_err());
}

#[test]
fn activate_should_activate_the_plugin_with_the_given_filename() {
    let mut load_order = prepare(GameId::Oblivion);

    assert!(load_order.activate("Blank - Different.esp").is_ok());
    assert!(load_order.is_active("Blank - Different.esp"));
}

#[test]
fn activate_should_error_if_the_plugin_is_not_valid() {
    let mut load_order = prepare(GameId::Oblivion);

    assert!(load_order.activate("missing.esp").is_err());
    assert!(load_order.index_of("missing.esp").is_none());
}

#[test]
fn activate_should_error_if_the_plugin_is_not_already_in_the_load_order() {
    let mut load_order = prepare(GameId::Oblivion);

    assert!(load_order.activate("Blank.esm").is_err());
    assert!(!load_order.is_active("Blank.esm"));
}

#[test]
fn activate_should_be_case_insensitive() {
    let mut load_order = prepare(GameId::Oblivion);

    assert!(load_order.activate("Blank - different.esp").is_ok());
    assert!(load_order.is_active("Blank - Different.esp"));
}

#[test]
fn activate_should_throw_if_increasing_the_number_of_active_plugins_past_the_limit() {
    let mut load_order = prepare(GameId::Oblivion);

    let plugins = prepare_bulk_full_plugins(&mut load_order);
    for plugin in &plugins[..254] {
        load_order.activate(plugin).unwrap();
    }

    assert!(load_order.activate("Blank - Different.esp").is_err());
    assert!(!load_order.is_active("Blank - Different.esp"));
}

#[test]
fn activate_should_succeed_if_at_the_active_plugins_limit_and_the_plugin_is_already_active() {
    let mut load_order = prepare(GameId::Oblivion);

    let plugins = prepare_bulk_full_plugins(&mut load_order);
    for plugin in &plugins[..254] {
        load_order.activate(plugin).unwrap();
    }

    assert!(load_order.is_active("Blank.esp"));
    assert!(load_order.activate("Blank.esp").is_ok());
}

#[test]
fn activate_should_fail_if_at_the_active_plugins_limit_and_the_plugin_is_an_update_plugin() {
    let mut load_order = prepare(GameId::Starfield);

    let plugins = prepare_bulk_full_plugins(&mut load_order);
    for plugin in &plugins[..254] {
        load_order.activate(plugin).unwrap();
    }

    let name = "Blank - Override.esp";
    load_order.insert(plugin(GameId::Starfield, name, false));

    assert!(!load_order.is_active(name));

    assert!(load_order.activate(name).is_err());
    assert!(!load_order.is_active(name));
}

#[test]
fn activate_should_count_active_update_plugins_towards_limit() {
    let mut load_order = prepare(GameId::Starfield);

    let plugins = prepare_bulk_full_plugins(&mut load_order);
    for plugin in &plugins[..254] {
        load_order.activate(plugin).unwrap();
    }

    let name = "Blank - Override.esp";
    load_order.insert(plugin(GameId::Starfield, name, false));

    assert!(!load_order.is_active(name));

    assert!(load_order.activate(name).is_err());
    assert!(!load_order.is_active(name));
}

#[test]
fn activate_should_lower_the_full_plugin_limit_if_a_light_plugin_is_present() {
    let mut load_order = prepare(GameId::Starfield);

    let plugins = prepare_bulk_full_plugins(&mut load_order);
    for plugin in &plugins[..252] {
        load_order.activate(plugin).unwrap();
    }

    let name = "Blank.small.esm";
    load_order.insert(plugin(GameId::Starfield, name, false));
    load_order.activate(name).unwrap();

    let name = &plugins[253];
    assert!(!load_order.is_active(name));

    assert!(load_order.activate(name).is_ok());
    assert!(load_order.is_active(name));

    let name = &plugins[254];
    assert!(!load_order.is_active(name));

    assert!(load_order.activate(name).is_err());
    assert!(!load_order.is_active(name));
}

#[test]
fn activate_should_lower_the_full_plugin_limit_if_a_medium_plugin_is_present() {
    let mut load_order = prepare(GameId::Starfield);

    let plugins = prepare_bulk_full_plugins(&mut load_order);
    for plugin in &plugins[..252] {
        load_order.activate(plugin).unwrap();
    }

    let name = "Blank.medium.esm";
    load_order.insert(plugin(GameId::Starfield, name, false));
    load_order.activate(name).unwrap();

    let name = &plugins[253];
    assert!(!load_order.is_active(name));

    assert!(load_order.activate(name).is_ok());
    assert!(load_order.is_active(name));

    let name = &plugins[254];
    assert!(!load_order.is_active(name));

    assert!(load_order.activate(name).is_err());
    assert!(!load_order.is_active(name));
}

#[test]
fn activate_should_lower_the_full_plugin_limit_if_light_and_medium_plugins_are_present() {
    let mut load_order = prepare(GameId::Starfield);

    let plugins = prepare_bulk_full_plugins(&mut load_order);
    for plugin in &plugins[..251] {
        load_order.activate(plugin).unwrap();
    }

    for name in ["Blank.medium.esm", "Blank.small.esm"] {
        load_order.insert(plugin(GameId::Starfield, name, false));
        load_order.activate(name).unwrap();
    }

    let name = &plugins[252];
    assert!(!load_order.is_active(name));

    assert!(load_order.activate(name).is_ok());
    assert!(load_order.is_active(name));

    let name = &plugins[253];
    assert!(!load_order.is_active(name));

    assert!(load_order.activate(name).is_err());
    assert!(!load_order.is_active(name));
}

#[test]
fn activate_should_check_full_medium_and_small_plugins_active_limits_separately() {
    let mut load_order = prepare(GameId::Starfield);

    let full = prepare_bulk_full_plugins(&mut load_order);
    let medium = prepare_bulk_medium_plugins(&mut load_order);
    let light = prepare_bulk_light_plugins(&mut load_order);

    let mut plugin_refs = Vec::with_capacity(4603);
    plugin_refs.extend(full[..252].iter().map(String::as_str));
    plugin_refs.extend(medium[..255].iter().map(String::as_str));
    plugin_refs.extend(light[..4095].iter().map(String::as_str));

    assert!(load_order.set_active_plugins(&plugin_refs).is_ok());

    let name = &full[252];
    assert!(!load_order.is_active(name));
    assert!(load_order.activate(name).is_ok());
    assert!(load_order.is_active(name));

    let name = &medium[255];
    assert!(!load_order.is_active(name));
    assert!(load_order.activate(name).is_ok());
    assert!(load_order.is_active(name));

    let name = &light[4095];
    assert!(!load_order.is_active(name));
    assert!(load_order.activate(name).is_ok());
    assert!(load_order.is_active(name));

    let name = &full[253];
    assert!(load_order.activate(name).is_err());
    assert!(!load_order.is_active(name));

    let name = &medium[256];
    assert!(load_order.activate(name).is_err());
    assert!(!load_order.is_active(name));

    let name = &light[4096];
    assert!(load_order.activate(name).is_err());
    assert!(!load_order.is_active(name));
}

#[test]
fn deactivate_should_deactivate_the_plugin_with_the_given_filename() {
    let mut load_order = prepare(GameId::Oblivion);

    assert!(load_order.is_active("Blank.esp"));
    assert!(load_order.deactivate("Blank.esp").is_ok());
    assert!(!load_order.is_active("Blank.esp"));
}

#[test]
fn deactivate_should_error_if_the_plugin_is_not_in_the_load_order() {
    let mut load_order = prepare(GameId::Oblivion);

    assert!(load_order.deactivate("missing.esp").is_err());
    assert!(load_order.index_of("missing.esp").is_none());
}

#[test]
fn deactivate_should_error_if_given_an_implicitly_active_plugin() {
    let mut load_order = prepare(GameId::SkyrimSE);

    prepend_early_loader(&mut load_order);

    assert!(load_order.activate("Skyrim.esm").is_ok());
    assert!(load_order.deactivate("Skyrim.esm").is_err());
    assert!(load_order.is_active("Skyrim.esm"));
}

#[test]
fn deactivate_should_error_if_given_a_missing_implicitly_active_plugin() {
    let mut load_order = prepare(GameId::Skyrim);

    assert!(load_order.deactivate("Update.esm").is_err());
    assert!(load_order.index_of("Update.esm").is_none());
}

#[test]
fn deactivate_should_do_nothing_if_the_plugin_is_inactive() {
    let mut load_order = prepare(GameId::Skyrim);

    assert!(!load_order.is_active("Blank - Different.esp"));
    assert!(load_order.deactivate("Blank - Different.esp").is_ok());
    assert!(!load_order.is_active("Blank - Different.esp"));
}

#[test]
fn set_active_plugins_should_error_if_passed_an_invalid_plugin_name() {
    let mut load_order = prepare(GameId::Oblivion);

    let active_plugins = ["missing.esp"];
    assert!(load_order.set_active_plugins(&active_plugins).is_err());
    assert_eq!(1, load_order.active_plugin_names().len());
}

#[test]
fn set_active_plugins_should_error_if_the_given_plugins_are_missing_implicitly_active_plugins() {
    let mut load_order = prepare(GameId::SkyrimSE);

    prepend_early_loader(&mut load_order);

    let active_plugins = ["Blank.esp"];
    assert!(load_order.set_active_plugins(&active_plugins).is_err());
    assert_eq!(1, load_order.active_plugin_names().len());
}

#[test]
fn set_active_plugins_should_error_if_a_missing_implicitly_active_plugin_is_given() {
    let mut load_order = prepare(GameId::Skyrim);

    let active_plugins = ["Update.esm", "Blank.esp"];
    assert!(load_order.set_active_plugins(&active_plugins).is_err());
    assert_eq!(1, load_order.active_plugin_names().len());
}

#[test]
fn set_active_plugins_should_error_if_given_plugins_not_in_the_load_order() {
    let mut load_order = prepare(GameId::Oblivion);

    let active_plugins = ["Blank - Master Dependent.esp", NON_ASCII];
    assert!(load_order.set_active_plugins(&active_plugins).is_err());
    assert!(!load_order.is_active("Blank - Master Dependent.esp"));
    assert!(load_order.index_of("Blank - Master Dependent.esp").is_none());
    assert!(!load_order.is_active(NON_ASCII));
    assert!(load_order.index_of(NON_ASCII).is_none());
}

#[test]
fn set_active_plugins_should_deactivate_all_plugins_not_given() {
    let mut load_order = prepare(GameId::Oblivion);

    let active_plugins = ["Blank - Different.esp"];
    assert!(load_order.is_active("Blank.esp"));
    assert!(load_order.set_active_plugins(&active_plugins).is_ok());
    assert!(!load_order.is_active("Blank.esp"));
}

#[test]
fn set_active_plugins_should_activate_all_given_plugins() {
    let mut load_order = prepare(GameId::Oblivion);

    let active_plugins = ["Blank - Different.esp"];
    assert!(!load_order.is_active("Blank - Different.esp"));
    assert!(load_order.set_active_plugins(&active_plugins).is_ok());
    assert!(load_order.is_active("Blank - Different.esp"));
}

#[test]
fn set_active_plugins_should_count_update_plugins_towards_limit() {
    let mut load_order = prepare(GameId::Starfield);

    let blank_override = "Blank - Override.esp";
    load_order.insert(plugin(GameId::Starfield, blank_override, false));

    let mut active_plugins = vec![blank_override.to_owned()];

    let plugins = prepare_bulk_full_plugins(&mut load_order);
    for plugin in plugins.into_iter().take(255) {
        active_plugins.push(plugin);
    }

    assert!(load_order.set_active_plugins(&strs(&active_plugins)).is_err());
    assert_eq!(1, load_order.active_plugin_names().len());
}

#[test]
fn set_active_plugins_should_lower_the_full_plugin_limit_if_a_light_plugin_is_present() {
    let mut load_order = prepare(GameId::Starfield);

    let full = prepare_bulk_full_plugins(&mut load_order);

    let name = "Blank.small.esm";
    load_order.insert(plugin(GameId::Starfield, name, false));

    let mut plugin_refs = vec![name];
    plugin_refs.extend(full[..254].iter().map(String::as_str));

    assert!(load_order.set_active_plugins(&plugin_refs).is_ok());
    assert_eq!(255, load_order.active_plugin_names().len());

    plugin_refs.push(full[254].as_str());

    assert!(load_order.set_active_plugins(&plugin_refs).is_err());
    assert_eq!(255, load_order.active_plugin_names().len());
}

#[test]
fn set_active_plugins_should_lower_the_full_plugin_limit_if_a_medium_plugin_is_present() {
    let mut load_order = prepare(GameId::Starfield);

    let full = prepare_bulk_full_plugins(&mut load_order);

    let name = "Blank.medium.esm";
    load_order.insert(plugin(GameId::Starfield, name, false));

    let mut plugin_refs = vec![name];
    plugin_refs.extend(full[..254].iter().map(String::as_str));

    assert!(load_order.set_active_plugins(&plugin_refs).is_ok());
    assert_eq!(255, load_order.active_plugin_names().len());

    plugin_refs.push(full[254].as_str());

    assert!(load_order.set_active_plugins(&plugin_refs).is_err());
    assert_eq!(255, load_order.active_plugin_names().len());
}

#[test]
fn set_active_plugins_should_lower_the_full_plugin_limit_if_light_and_plugins_are_present() {
    let mut load_order = prepare(GameId::Starfield);

    let full = prepare_bulk_full_plugins(&mut load_order);

    let medium_plugin = "Blank.medium.esm";
    let light_plugin = "Blank.small.esm";
    load_order.insert(plugin(GameId::Starfield, medium_plugin, false));
    load_order.insert(plugin(GameId::Starfield, light_plugin, false));

    let mut plugin_refs = vec![medium_plugin, light_plugin];
    plugin_refs.extend(full[..253].iter().map(String::as_str));

    assert!(load_order.set_active_plugins(&plugin_refs).is_ok());
    assert_eq!(255, load_order.active_plugin_names().len());

    plugin_refs.push(full[253].as_str());

    assert!(load_order.set_active_plugins(&plugin_refs).is_err());
    assert_eq!(255, load_order.active_plugin_names().len());
}

#[test]
fn set_active_plugins_should_count_full_medium_and_small_plugins_separately() {
    let mut load_order = prepare(GameId::Starfield);

    let full = prepare_bulk_full_plugins(&mut load_order);
    let medium = prepare_bulk_medium_plugins(&mut load_order);
    let light = prepare_bulk_light_plugins(&mut load_order);

    let mut plugin_refs = Vec::with_capacity(4064);
    plugin_refs.extend(full[..252].iter().map(String::as_str));
    plugin_refs.extend(medium[..256].iter().map(String::as_str));
    plugin_refs.extend(light[..4096].iter().map(String::as_str));

    assert!(load_order.set_active_plugins(&plugin_refs).is_ok());
    assert_eq!(4604, load_order.active_plugin_names().len());
}

#[test]
fn set_active_plugins_should_error_if_given_more_than_254_full_plugins() {
    let mut load_order = prepare(GameId::Starfield);

    let full = prepare_bulk_full_plugins(&mut load_order);

    let plugin_refs: Vec<_> = full[..256].iter().map(String::as_str).collect();

    assert!(load_order.set_active_plugins(&plugin_refs).is_err());
    assert_eq!(1, load_order.active_plugin_names().len());
}

#[test]
fn set_active_plugins_should_error_if_given_more_than_256_medium_plugins() {
    let mut load_order = prepare(GameId::Starfield);

    let medium = prepare_bulk_medium_plugins(&mut load_order);

    let plugin_refs: Vec<_> = medium[..257].iter().map(String::as_str).collect();

    assert!(load_order.set_active_plugins(&plugin_refs).is_err());
    assert_eq!(1, load_order.active_plugin_names().len());
}

#[test]
fn set_active_plugins_should_error_if_given_more_than_4096_light_plugins() {
    let mut load_order = prepare(GameId::Starfield);

    let light = prepare_bulk_light_plugins(&mut load_order);

    let plugin_refs: Vec<_> = light[..4097].iter().map(String::as_str).collect();

    assert!(load_order.set_active_plugins(&plugin_refs).is_err());
    assert_eq!(1, load_order.active_plugin_names().len());
}

#[test]
fn plugin_names_should_return_filenames_for_plugins_in_load_order() {
    let load_order = prepare(GameId::Oblivion);

    let expected_plugin_names = vec!["Blank.esp", "Blank - Different.esp"];
    assert_eq!(expected_plugin_names, load_order.plugin_names());
}

#[test]
fn plugin_names_should_return_unghosted_filenames() {
    let load_order = prepare_with_ghosted_plugin();

    let expected_plugin_names = vec!["Blank - Different.esm", "Blank.esp", "Blank - Different.esp"];
    assert_eq!(expected_plugin_names, load_order.plugin_names());
}

#[test]
fn index_of_should_return_none_if_the_plugin_is_not_in_the_load_order() {
    let load_order = prepare(GameId::Oblivion);

    assert!(load_order.index_of("Blank.esm").is_none());
}

#[test]
fn index_of_should_return_some_index_if_the_plugin_is_in_the_load_order() {
    let load_order = prepare(GameId::Oblivion);

    assert_eq!(0, load_order.index_of("Blank.esp").unwrap());
}

#[test]
fn index_of_should_be_case_insensitive() {
    let load_order = prepare(GameId::Oblivion);

    assert_eq!(0, load_order.index_of("blank.esp").unwrap());
}

#[test]
fn plugin_at_should_return_none_if_given_an_out_of_bounds_index() {
    let load_order = prepare(GameId::Oblivion);

    assert!(load_order.plugin_at(3).is_none());
}

#[test]
fn plugin_at_should_return_some_filename_if_given_an_in_bounds_index() {
    let load_order = prepare(GameId::Oblivion);

    assert_eq!("Blank.esp", load_order.plugin_at(0).unwrap());
}

#[test]
fn plugin_at_should_return_some_unghosted_filename() {
    let load_order = prepare_with_ghosted_plugin();

    assert_eq!("Blank - Different.esm", load_order.plugin_at(0).unwrap());
}

#[test]
fn active_plugin_names_should_return_filenames_for_active_plugins_in_load_order() {
    let load_order = prepare(GameId::Oblivion);

    let expected_plugin_names = vec!["Blank.esp"];
    assert_eq!(expected_plugin_names, load_order.active_plugin_names());
}

#[test]
fn is_active_should_return_false_for_an_inactive_plugin() {
    let load_order = prepare(GameId::Oblivion);

    assert!(!load_order.is_active("Blank - Different.esp"));
}

#[test]
fn is_active_should_return_false_a_plugin_not_in_the_load_order() {
    let load_order = prepare(GameId::Oblivion);

    assert!(!load_order.is_active("missing.esp"));
}

#[test]
fn is_active_should_return_true_for_an_active_plugin() {
    let load_order = prepare(GameId::Oblivion);

    assert!(load_order.is_active("Blank.esp"));
}

#[test]
fn is_active_should_be_case_insensitive() {
    let load_order = prepare(GameId::Oblivion);

    assert!(load_order.is_active("blank.esp"));
}

#[test]
fn name_should_return_the_plugin_filename_without_any_ghost_extension() {
    let plugin = copied_plugin(GameId::Oblivion, "Blank.esp", "Blank.esp.ghost", false);
    assert_eq!("Blank.esp", plugin.name());

    let plugin = copied_plugin(GameId::Oblivion, "Blank.esp", "Blank.esp", false);
    assert_eq!("Blank.esp", plugin.name());

    let plugin = copied_plugin(GameId::Oblivion, "Blank.esm", "Blank.esm.ghost", false);
    assert_eq!("Blank.esm", plugin.name());
}

#[test]
fn name_matches_should_ignore_plugin_ghost_extension() {
    let plugin = copied_plugin(GameId::Skyrim, "Blank.esp", "BlanK.esp.GHoSt", false);
    assert!(plugin.name_matches("Blank.esp"));
}

#[test]
fn name_matches_should_ignore_string_ghost_suffix() {
    let plugin = copied_plugin(GameId::Skyrim, "Blank.esp", "BlanK.esp", false);
    assert!(plugin.name_matches("Blank.esp.GHoSt"));
}

#[test]
fn modification_time_should_return_the_plugin_modification_time_at_creation() {
    let mtime: i128 = 1_700_000_000_123_456_789;
    let plugin = Plugin::with_header(
        "game/Data/Blank.esp",
        GameId::Oblivion,
        false,
        mtime,
        header(GameId::Oblivion, "Blank.esp", "Blank.esp", None),
    )
    .unwrap();
    assert_eq!(mtime, plugin.modification_time());
}

#[test]
fn is_active_should_be_false() {
    let plugin = plugin(GameId::Oblivion, "Blank.esp", false);

    assert!(!plugin.is_active());
}

#[test]
fn is_master_file_should_be_true_if_the_plugin_is_a_master_file() {
    let plugin = plugin(GameId::Oblivion, "Blank.esm", false);

    assert!(plugin.is_master_file());
}

#[test]
fn is_master_file_should_be_false_if_the_plugin_is_not_a_master_file() {
    let plugin = plugin(GameId::Oblivion, "Blank.esp", false);

    assert!(!plugin.is_master_file());
}

#[test]
fn is_light_plugin_should_be_true_for_esl_files_only() {
    let plugin = copied_plugin(GameId::SkyrimSE, "Blank.esp", "Blank.esp", false);
    assert!(!plugin.is_master_file());

    let plugin = copied_plugin(GameId::SkyrimSE, "Blank.esm", "Blank.esm", false);
    assert!(!plugin.is_light_plugin());

    let plugin = copied_plugin(GameId::SkyrimSE, "Blank.esm", "Blank.esl", false);
    assert!(plugin.is_light_plugin());

    let plugin = copied_plugin(GameId::SkyrimSE, "Blank - Different.esp", "Blank - Different.esl", false);
    assert!(plugin.is_light_plugin());
}

#[test]
fn activate_should_unghost_a_ghosted_plugin() {
    let mut plugin = copied_plugin(GameId::Oblivion, "Blank.esp", "Blank.esp.ghost", false);

    plugin.activate().unwrap();

    assert!(plugin.is_active());
    assert_eq!("Blank.esp", plugin.name());
    assert_eq!("game/Data/Blank.esp", plugin.path());
    assert_eq!(
        Some(("game/Data/Blank.esp.ghost".to_string(), "game/Data/Blank.esp".to_string())),
        plugin.take_pending_rename()
    );
}

#[test]
fn deactivate_should_not_ghost_a_plugin() {
    let mut plugin = plugin(GameId::Oblivion, "Blank.esp", false);

    plugin.deactivate();

    assert!(!plugin.is_active());
    assert_eq!("game/Data/Blank.esp", plugin.path());
    assert_eq!(None, plugin.take_pending_rename());
}

#[test]
fn ignore_active_plugins_file_should_be_false_for_fallout4_when_test_files_are_not_configured() {
    let load_order = prepare(GameId::Fallout4);

    assert!(!load_order.ignores_active_plugins_file());
}

#[test]
fn ignore_active_plugins_file_should_be_false_for_fallout4vr_when_test_files_are_not_configured() {
    let load_order = prepare(GameId::Fallout4VR);

    assert!(!load_order.ignores_active_plugins_file());
}

#[test]
fn ignore_active_plugins_file_should_be_false_for_starfield_when_test_files_are_not_configured() {
    let load_order = prepare(GameId::Starfield);

    assert!(!load_order.ignores_active_plugins_file());
}

#[test]
fn activate_should_allow_more_than_255_plugins_to_be_active() {
    let mut load_order = LoadOrder::new(settings(GameId::OpenMW));

    let plugins = prepare_bulk_full_plugins(&mut load_order);
    for name in &plugins[..260] {
        load_order.activate(name).unwrap();
        assert!(load_order.is_active(name));
    }
}

#[test]
fn plugin_sorter_should_sort_in_descending_filename_order_if_timestamps_are_equal() {
    let mut plugin1 = plugin(GameId::Morrowind, "Blank.esp", false);
    let mut plugin2 = plugin(GameId::Morrowind, "Blank - Different.esp", false);

    plugin1.set_modification_time(2_000_000_000);
    plugin2.set_modification_time(2_000_000_000);

    assert!(plugin_sorter(&plugin1, &plugin2));
}

#[test]
fn activate_should_take_the_full_plugin_limit_from_the_plugins_active_before() {
    let mut load_order = prepare(GameId::SkyrimSE);
    let full = prepare_bulk_full_plugins(&mut load_order);
    for name in &full[..254] {
        assert!(load_order.activate(name).is_ok());
    }
    assert_eq!(255, load_order.active_plugin_names().len());

    let name = "Blank.small.esm";
    load_order.insert(plugin(GameId::SkyrimSE, name, false));
    assert!(load_order.activate(name).is_ok());
    assert!(load_order.is_active(name));
    assert_eq!(256, load_order.active_plugin_names().len());
}

#[test]
fn set_active_plugins_should_take_the_full_plugin_limit_from_the_plugins_active_before() {
    let mut load_order = prepare(GameId::SkyrimSE);
    let full = prepare_bulk_full_plugins(&mut load_order);
    load_order.insert(plugin(GameId::SkyrimSE, "Blank.small.esm", true));

    let plugin_refs: Vec<&str> = full[..255].iter().map(String::as_str).collect();
    assert_eq!(
        Err(Error::TooManyActivePlugins { light_count: 0, medium_count: 0, full_count: 255 }),
        load_order.set_active_plugins(&plugin_refs)
    );
    assert_eq!(
        vec!["Blank.small.esm", "Blank.esp"],
        load_order.active_plugin_names()
    );
}

fn names_of(load_order: &LoadOrder) -> Vec<String> {
    load_order.plugin_names()
}

#[test]
fn is_ambiguous_should_return_false_if_all_loaded_plugins_are_listed_in_active_plugins_file() {
    let load_order = prepare(GameId::SkyrimSE);
    let listed = names_of(&load_order);
    assert!(!load_order.asterisk_is_ambiguous(&listed));
}

#[test]
fn is_ambiguous_should_ignore_plugins_that_are_listed_in_active_plugins_file_but_not_loaded() {
    let load_order = prepare(GameId::SkyrimSE);
    assert!(load_order.index_of("missing.esp").is_none());
    let mut listed = names_of(&load_order);
    listed.push("missing.esp".to_string());
    assert!(!load_order.asterisk_is_ambiguous(&listed));
}

#[test]
fn is_ambiguous_should_ignore_blueprint_plugins() {
    let mut load_order = prepare(GameId::Starfield);
    let listed = names_of(&load_order);
    let mut header = header(GameId::Starfield, "Blank.full.esm", "Blueprint.esp", None);
    header.is_blueprint_plugin = true;
    let blueprint = Plugin::with_header("game/Data/Blueprint.esp", GameId::Starfield, false, 0, header).unwrap();
    load_order.insert(blueprint);
    assert!(!load_order.asterisk_is_ambiguous(&listed));
}

#[test]
fn is_ambiguous_should_ignore_blueprint_ships_plugins() {
    let mut load_order = prepare(GameId::Starfield);
    let listed = names_of(&load_order);
    load_order.insert(copied_plugin(GameId::Starfield, "Blank.full.esm", "BlueprintShips-Blank.esm", false));
    assert!(!load_order.asterisk_is_ambiguous(&listed));
}

#[test]
fn is_ambiguous_should_not_ignore_blueprint_ships_plugins_outside_starfield() {
    let mut load_order = prepare(GameId::SkyrimSE);
    let listed = names_of(&load_order);
    load_order.insert(copied_plugin(GameId::SkyrimSE, "Blank.esm", "blueprintships-Blank.esm", false));
    assert!(load_order.asterisk_is_ambiguous(&listed));
}

#[test]
fn is_ambiguous_should_return_true_if_there_are_loaded_plugins_not_in_active_plugins_file() {
    let load_order = prepare(GameId::SkyrimSE);
    let mut listed = names_of(&load_order);
    listed.pop();
    assert!(load_order.asterisk_is_ambiguous(&listed));
}

/// Whether a textfile-based load order is ambiguous, given the names that
/// `loadorder.txt` and `plugins.txt` list (`None` where a file is missing).
fn textfile_ambiguity(load_order: &LoadOrder, load_order_names: Option<&[&str]>, active_names: Option<&[&str]>) -> bool {
    let to_vec = |n: &[&str]| n.iter().map(|s| s.to_string()).collect::<Vec<String>>();
    let consistency = check_self_consistency(
        load_order.game_settings().id(),
        true,
        load_order_names.map(to_vec),
        active_names.map(to_vec),
    );
    let names = textfile_listed_names(
        consistency,
        load_order_names.map(to_vec),
        active_names.map(to_vec).unwrap_or_default(),
    );
    load_order.textfile_is_ambiguous(names.as_ref())
}

#[test]
fn is_ambiguous_should_return_true_if_load_order_is_not_self_consistent() {
    let load_order = prepare(GameId::Skyrim);
    let active = [NON_ASCII, "Blank.esm", "missing.esp"];
    let load_order_file = [NON_ASCII, "missing.esp", "Blank.esm"];
    assert!(textfile_ambiguity(&load_order, Some(&load_order_file), Some(&active)));
}

#[test]
fn is_ambiguous_should_return_true_if_active_plugins_and_load_order_files_do_not_exist() {
    let load_order = prepare(GameId::Skyrim);
    assert!(textfile_ambiguity(&load_order, None, None));
}

#[test]
fn is_ambiguous_should_return_true_if_only_active_plugins_file_exists_and_does_not_list_all_loaded_plugins() {
    let load_order = prepare(GameId::Skyrim);
    let names = names_of(&load_order);
    let listed: Vec<&str> = names[..names.len() - 1].iter().map(String::as_str).collect();
    assert!(textfile_ambiguity(&load_order, None, Some(&listed)));
}

#[test]
fn is_ambiguous_should_return_false_if_only_active_plugins_file_exists_and_lists_all_loaded_plugins() {
    let load_order = prepare(GameId::Skyrim);
    let names = names_of(&load_order);
    let listed: Vec<&str> = names.iter().map(String::as_str).collect();
    assert!(!textfile_ambiguity(&load_order, None, Some(&listed)));
}

#[test]
fn is_ambiguous_should_return_true_if_only_load_order_file_exists_and_does_not_list_all_loaded_plugins() {
    let load_order = prepare(GameId::Skyrim);
    let names = names_of(&load_order);
    let listed: Vec<&str> = names[..names.len() - 1].iter().map(String::as_str).collect();
    assert!(textfile_ambiguity(&load_order, Some(&listed), None));
}

#[test]
fn is_ambiguous_should_return_false_if_only_load_order_file_exists_and_lists_all_loaded_plugins() {
    let load_order = prepare(GameId::Skyrim);
    let names = names_of(&load_order);
    let listed: Vec<&str> = names.iter().map(String::as_str).collect();
    assert!(!textfile_ambiguity(&load_order, Some(&listed), None));
}

#[test]
fn is_ambiguous_should_return_true_if_active_plugins_and_load_order_files_exist_and_load_order_file_does_not_list_all_loaded_plugins() {
    let load_order = prepare(GameId::Skyrim);
    let names = names_of(&load_order);
    let listed: Vec<&str> = names[..names.len() - 1].iter().map(String::as_str).collect();
    assert!(textfile_ambiguity(&load_order, Some(&listed), Some(&listed)));
}

#[test]
fn is_ambiguous_should_return_false_if_active_plugins_and_load_order_files_exist_and_load_order_file_lists_all_loaded_plugins() {
    let load_order = prepare(GameId::Skyrim);
    let names = names_of(&load_order);
    let all: Vec<&str> = names.iter().map(String::as_str).collect();
    let active: Vec<&str> = all[..all.len() - 1].to_vec();
    assert!(!textfile_ambiguity(&load_order, Some(&all), Some(&active)));
}

#[test]
fn save_should_not_write_blueprint_ships_plugins_to_plugins_txt() {
    let mut load_order = prepare(GameId::Starfield);
    for name in ["BlueprintShips-A.esm", "BlueprintShips-B.esm"] {
        let mut p = copied_plugin(GameId::Starfield, "Blank.full.esm", name, false);
        assert!(p.activate().is_ok());
        load_order.insert(p);
    }
    let bytes = load_order.asterisk_active_plugins_file_contents().unwrap();
    assert_eq!("*Blank.esp\n", String::from_utf8(bytes).unwrap());
}

#[test]
fn save_should_not_write_plugins_that_start_with_blueprint_ships_to_plugins_txt() {
    let mut load_order = prepare(GameId::Starfield);
    for name in ["BlueprintShips-A.esp", "blueprintships-B.esp"] {
        load_order.insert(copied_plugin(GameId::Starfield, "Blank.esp", name, false));
    }
    let bytes = load_order.asterisk_active_plugins_file_contents().unwrap();
    assert_eq!("*Blank.esp\n", String::from_utf8(bytes).unwrap());
}

#[test]
fn hoist_masters_should_leave_an_already_hoisted_load_order_unchanged() {
    let mut load_order = LoadOrder::new(settings(GameId::Oblivion));
    load_order.insert(plugin(GameId::Oblivion, "Blank.esm", true));
    load_order.insert(plugin(GameId::Oblivion, "Blank - Master Dependent.esm", false));
    load_order.insert(plugin(GameId::Oblivion, "Blank.esp", true));
    let before = load_order.plugin_names();
    load_order.hoist_masters();
    assert_eq!(before, load_order.plugin_names());
}

#[test]
fn apply_load_order_should_only_reorder_the_plugins() {
    let mut load_order = LoadOrder::new(settings(GameId::OpenMW));
    for name in ["Blank.esp", "Blank - Master Dependent.esp", "Blank.esm", "Blank - Different.esp"] {
        load_order.insert(plugin(GameId::OpenMW, name, true));
    }
    let mut before = load_order.plugin_names();
    let active: Vec<(String, bool)> = vec![
        ("Blank - Different.esp".to_string(), true),
        ("Blank.esp".to_string(), true),
    ];
    load_order.apply_load_order(&active);
    let mut after = load_order.plugin_names();
    before.sort();
    after.sort();
    assert_eq!(before, after);
}

#[test]
fn is_ambiguous_should_ignore_the_active_plugins_file_for_fallout4_when_test_files_are_configured() {
    let inputs = SettingsInputs {
        implicit: ImplicitInputs {
            test_files: vec!["Blank.esp".to_string()],
            valid_test_files: vec![true],
            ..ImplicitInputs::default()
        },
        ..SettingsInputs::default()
    };
    let settings = GameSettings::with_local_and_my_games_paths(
        GameId::Fallout4,
        "game",
        "game/local",
        "game/my games".to_string(),
        inputs,
    )
    .unwrap();
    let mut load_order = LoadOrder::new(settings);
    load_order.insert(plugin(GameId::Fallout4, "Blank.esp", true));
    load_order.insert(plugin(GameId::Fallout4, "Blank - Different.esp", false));

    // The file lists every plugin, but it is ignored, so no names are listed.
    assert!(load_order.ignores_active_plugins_file());
    let listed: Vec<String> = if load_order.ignores_active_plugins_file() {
        Vec::new()
    } else {
        load_order.plugin_names()
    };
    assert!(load_order.asterisk_is_ambiguous(&listed));
}

#[test]
fn activating_a_ghosted_plugin_in_a_load_order_should_leave_its_rename_pending() {
    let mut load_order = prepare(GameId::Oblivion);
    load_order.insert(copied_plugin(GameId::Oblivion, "Blank.esp", "Ghosted.esp.ghost", false));
    assert!(load_order.activate("Ghosted.esp").is_ok());
    assert_eq!(
        vec![("game/Data/Ghosted.esp.ghost".to_string(), "game/Data/Ghosted.esp".to_string())],
        load_order.take_pending_renames()
    );
    assert!(load_order.take_pending_renames().is_empty());
}

#[test]
fn set_active_plugins_should_leave_renames_pending_for_ghosted_plugins() {
    let mut load_order = prepare(GameId::Oblivion);
    load_order.insert(copied_plugin(GameId::Oblivion, "Blank.esp", "Ghosted.esp.ghost", false));
    assert!(load_order.set_active_plugins(&["Blank.esp", "Ghosted.esp"]).is_ok());
    assert_eq!(
        vec![("game/Data/Ghosted.esp.ghost".to_string(), "game/Data/Ghosted.esp".to_string())],
        load_order.take_pending_renames()
    );
    assert_eq!(vec!["Blank.esp", "Ghosted.esp"], load_order.active_plugin_names());
}
