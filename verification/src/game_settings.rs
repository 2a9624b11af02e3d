//! The settings of a game install: its paths and its hardcoded plugins.
use vstd::prelude::*;

use crate::enums::{Error, GameId, LoadOrderMethod};
use crate::encoding::windows_1252_decoded;
use crate::enums::game_allows_plugin_ghosting;
use crate::ghostable_path::{path_exists, resolve_path, spec_alternative_path};
use crate::ini::{ini_parsed, spec_get_from, spec_read_ini, use_my_games_directory};
use crate::openmw_config::{additional_data_paths, resources_vfs_path, OpenMWConfig, OpenMWConfigView};
use crate::paths::{extension, join, parent, std_path_extension, std_path_join, std_path_parent, std_path_with_extension, with_extension};
use crate::plugin::{has_plugin_extension, spec_has_plugin_extension};
use crate::seqs::{first_index, last_index, lemma_first_index_is, lemma_first_index_none, lemma_last_index_is, lemma_last_index_none};
use crate::text::{clone_strings, eq_icase, ieq_ascii, iends_with_ascii, opt_view, owned, str_less, str_lt, strings_view, unicase_eq};

verus! {

/// What the load order logic reads of a game's settings.
pub struct GameSettingsView {
    pub id: GameId,
    pub game_path: Seq<char>,
    pub plugins_directory: Seq<char>,
    pub plugins_file_path: Seq<char>,
    pub my_games_path: Seq<char>,
    pub load_order_path: Option<Seq<char>>,
    pub implicitly_active_plugins: Seq<Seq<char>>,
    pub early_loading_plugins: Seq<Seq<char>>,
    pub additional_plugins_directories: Seq<Seq<char>>,
    pub test_files: Seq<Seq<char>>,
}

/// One of the names matches `name` (by `unicase::eq`).
pub open spec fn names_contain(names: Seq<Seq<char>>, name: Seq<char>) -> bool {
    exists|i: int| 0 <= i < names.len() && unicase_eq(#[trigger] names[i], name)
}

pub open spec fn spec_load_order_method(id: GameId) -> LoadOrderMethod {
    match id {
        GameId::OpenMW => LoadOrderMethod::OpenMW,
        GameId::Morrowind | GameId::Oblivion | GameId::Fallout3 | GameId::FalloutNV => LoadOrderMethod::Timestamp,
        GameId::Skyrim => LoadOrderMethod::Textfile,
        _ => LoadOrderMethod::Asterisk,
    }
}

#[derive(Debug)]
pub struct GameSettings {
    id: GameId,
    game_path: String,
    plugins_directory: String,
    plugins_file_path: String,
    my_games_path: String,
    load_order_path: Option<String>,
    implicitly_active_plugins: Vec<String>,
    early_loading_plugins: Vec<String>,
    additional_plugins_directories: Vec<String>,
    test_files: Vec<String>,
}

impl View for GameSettings {
    type V = GameSettingsView;

    closed spec fn view(&self) -> GameSettingsView {
        GameSettingsView {
            id: self.id,
            game_path: self.game_path@,
            plugins_directory: self.plugins_directory@,
            plugins_file_path: self.plugins_file_path@,
            my_games_path: self.my_games_path@,
            load_order_path: match self.load_order_path {
                Some(p) => Some(p@),
                None => None,
            },
            implicitly_active_plugins: strings_view(self.implicitly_active_plugins@),
            early_loading_plugins: strings_view(self.early_loading_plugins@),
            additional_plugins_directories: strings_view(self.additional_plugins_directories@),
            test_files: strings_view(self.test_files@),
        }
    }
}

impl Clone for GameSettings {
    fn clone(&self) -> (res: GameSettings)
        ensures
            res@ == self@,
    {
        GameSettings {
            id: self.id,
            game_path: self.game_path.clone(),
            plugins_directory: self.plugins_directory.clone(),
            plugins_file_path: self.plugins_file_path.clone(),
            my_games_path: self.my_games_path.clone(),
            load_order_path: match &self.load_order_path {
                Some(p) => Some(p.clone()),
                None => None,
            },
            implicitly_active_plugins: clone_strings(&self.implicitly_active_plugins),
            early_loading_plugins: clone_strings(&self.early_loading_plugins),
            additional_plugins_directories: clone_strings(&self.additional_plugins_directories),
            test_files: clone_strings(&self.test_files),
        }
    }
}

impl GameSettings {
    pub fn id(&self) -> (res: GameId)
        ensures
            res == self@.id,
    {
        self.id
    }

    pub fn load_order_method(&self) -> (res: LoadOrderMethod)
        ensures
            res == spec_load_order_method(self@.id),
    {
        match self.id {
            GameId::OpenMW => LoadOrderMethod::OpenMW,
            GameId::Morrowind | GameId::Oblivion | GameId::Fallout3 | GameId::FalloutNV => LoadOrderMethod::Timestamp,
            GameId::Skyrim => LoadOrderMethod::Textfile,
            GameId::SkyrimSE | GameId::SkyrimVR | GameId::Fallout4 | GameId::Fallout4VR
            | GameId::Starfield => LoadOrderMethod::Asterisk,
        }
    }

    pub fn implicitly_active_plugins(&self) -> (res: &Vec<String>)
        ensures
            strings_view(res@) == self@.implicitly_active_plugins,
    {
        &self.implicitly_active_plugins
    }

    pub fn is_implicitly_active(&self, plugin: &str) -> (res: bool)
        ensures
            res == names_contain(self@.implicitly_active_plugins, plugin@),
    {
        any_name_matches(&self.implicitly_active_plugins, plugin)
    }

    pub fn early_loading_plugins(&self) -> (res: &Vec<String>)
        ensures
            strings_view(res@) == self@.early_loading_plugins,
    {
        &self.early_loading_plugins
    }

    pub fn loads_early(&self, plugin: &str) -> (res: bool)
        ensures
            res == names_contain(self@.early_loading_plugins, plugin@),
    {
        any_name_matches(&self.early_loading_plugins, plugin)
    }

    pub fn test_files(&self) -> (res: &Vec<String>)
        ensures
            strings_view(res@) == self@.test_files,
    {
        &self.test_files
    }

    pub fn plugins_directory(&self) -> (res: String)
        ensures
            res@ == self@.plugins_directory,
    {
        self.plugins_directory.clone()
    }

    pub fn active_plugins_file(&self) -> (res: &String)
        ensures
            res@ == self@.plugins_file_path,
    {
        &self.plugins_file_path
    }

    pub fn load_order_file(&self) -> (res: Option<&String>)
        ensures
            match res {
                Some(p) => self@.load_order_path == Some(p@),
                None => self@.load_order_path is None,
            },
    {
        match &self.load_order_path {
            Some(p) => Some(p),
            None => None,
        }
    }

    pub fn additional_plugins_directories(&self) -> (res: &Vec<String>)
        ensures
            strings_view(res@) == self@.additional_plugins_directories,
    {
        &self.additional_plugins_directories
    }

    pub fn set_additional_plugins_directories(&mut self, paths: Vec<String>)
        ensures
            final(self)@ == (GameSettingsView {
                additional_plugins_directories: strings_view(paths@),
                ..old(self)@
            }),
    {
        self.additional_plugins_directories = paths;
    }

    pub fn game_path(&self) -> (res: &String)
        ensures
            res@ == self@.game_path,
    {
        &self.game_path
    }

    pub fn my_games_path(&self) -> (res: &String)
        ensures
            res@ == self@.my_games_path,
    {
        &self.my_games_path
    }
}

/// Whether one of the names matches `name` (by `unicase::eq`).
pub fn any_name_matches(names: &Vec<String>, name: &str) -> (res: bool)
    ensures
        res == names_contain(strings_view(names@), name@),
        !res ==> !strings_view(names@).contains(name@),
{
    let mut i: usize = 0;
    while i < names.len()
        invariant
            i <= names.len(),
            forall|j: int| 0 <= j < i ==> !unicase_eq(#[trigger] strings_view(names@)[j], name@)
                && strings_view(names@)[j] != name@,
        decreases names.len() - i,
    {
        if eq_icase(names[i].as_str(), name) {
            assert(unicase_eq(strings_view(names@)[i as int], name@));
            return true;
        }
        i = i + 1;
    }
    false
}

/// What the library learns of a game's install from the files in it: an
/// Enderal launcher, GOG's `Galaxy64.dll`, Epic's 64-bit and 32-bit
/// `EOSSDK-*-Shipping.dll`, and a Microsoft Store `appxmanifest.xml` in the
/// game directory or in its parent.
#[derive(Default)]
pub struct InstallProbes {
    pub is_enderal: bool,
    pub has_galaxy64_dll: bool,
    pub has_eossdk_win64_dll: bool,
    pub has_eossdk_win32_dll: bool,
    pub has_appx_manifest: bool,
    pub has_parent_appx_manifest: bool,
}

/// Whether the game was installed from the Microsoft Store: older games
/// keep their manifest in the parent directory.
pub open spec fn spec_is_microsoft_store_install(game_id: GameId, probes: InstallProbes) -> bool {
    match game_id {
        GameId::Morrowind | GameId::Oblivion | GameId::Fallout3 | GameId::FalloutNV => probes.has_parent_appx_manifest,
        GameId::SkyrimSE | GameId::Fallout4 | GameId::Starfield => probes.has_appx_manifest,
        _ => false,
    }
}

pub fn is_microsoft_store_install(game_id: GameId, probes: &InstallProbes) -> (res: bool)
    ensures
        res == spec_is_microsoft_store_install(game_id, *probes),
{
    match game_id {
        GameId::Morrowind | GameId::Oblivion | GameId::Fallout3 | GameId::FalloutNV => probes.has_parent_appx_manifest,
        GameId::SkyrimSE | GameId::Fallout4 | GameId::Starfield => probes.has_appx_manifest,
        _ => false,
    }
}

pub open spec fn spec_skyrim_se_appdata_folder_name(probes: InstallProbes) -> Seq<char> {
    if probes.is_enderal {
        if probes.has_galaxy64_dll { "Enderal Special Edition GOG"@ } else { "Enderal Special Edition"@ }
    } else if probes.has_galaxy64_dll {
        "Skyrim Special Edition GOG"@
    } else if probes.has_eossdk_win64_dll {
        "Skyrim Special Edition EPIC"@
    } else if spec_is_microsoft_store_install(GameId::SkyrimSE, probes) {
        "Skyrim Special Edition MS"@
    } else {
        "Skyrim Special Edition"@
    }
}

/// The name of a game's folder in the local application data directory,
/// which depends on where the game was bought.
pub open spec fn spec_appdata_folder_name(game_id: GameId, probes: InstallProbes) -> Option<Seq<char>> {
    match game_id {
        GameId::Morrowind | GameId::OpenMW => None,
        GameId::Oblivion => Some("Oblivion"@),
        GameId::Skyrim => Some(if probes.is_enderal { "enderal"@ } else { "Skyrim"@ }),
        GameId::SkyrimSE => Some(spec_skyrim_se_appdata_folder_name(probes)),
        GameId::SkyrimVR => Some("Skyrim VR"@),
        GameId::Fallout3 => Some("Fallout3"@),
        GameId::FalloutNV => Some(if probes.has_eossdk_win32_dll { "FalloutNV_Epic"@ } else { "FalloutNV"@ }),
        GameId::Fallout4 => Some(if spec_is_microsoft_store_install(GameId::Fallout4, probes) {
            "Fallout4 MS"@
        } else if probes.has_eossdk_win64_dll {
            "Fallout4 EPIC"@
        } else {
            "Fallout4"@
        }),
        GameId::Fallout4VR => Some("Fallout4VR"@),
        GameId::Starfield => Some("Starfield"@),
    }
}

pub fn skyrim_appdata_folder_name(probes: &InstallProbes) -> (res: &'static str)
    ensures
        Some(res@) == spec_appdata_folder_name(GameId::Skyrim, *probes),
{
    if probes.is_enderal { "enderal" } else { "Skyrim" }
}

pub fn skyrim_se_appdata_folder_name(probes: &InstallProbes) -> (res: &'static str)
    ensures
        res@ == spec_skyrim_se_appdata_folder_name(*probes),
{
    if probes.is_enderal {
        if probes.has_galaxy64_dll { "Enderal Special Edition GOG" } else { "Enderal Special Edition" }
    } else if probes.has_galaxy64_dll {
        "Skyrim Special Edition GOG"
    } else if probes.has_eossdk_win64_dll {
        "Skyrim Special Edition EPIC"
    } else if is_microsoft_store_install(GameId::SkyrimSE, probes) {
        "Skyrim Special Edition MS"
    } else {
        "Skyrim Special Edition"
    }
}

pub fn falloutnv_appdata_folder_name(probes: &InstallProbes) -> (res: &'static str)
    ensures
        Some(res@) == spec_appdata_folder_name(GameId::FalloutNV, *probes),
{
    if probes.has_eossdk_win32_dll { "FalloutNV_Epic" } else { "FalloutNV" }
}

pub fn fallout4_appdata_folder_name(probes: &InstallProbes) -> (res: &'static str)
    ensures
        Some(res@) == spec_appdata_folder_name(GameId::Fallout4, *probes),
{
    if is_microsoft_store_install(GameId::Fallout4, probes) {
        "Fallout4 MS"
    } else if probes.has_eossdk_win64_dll {
        "Fallout4 EPIC"
    } else {
        "Fallout4"
    }
}

pub fn appdata_folder_name(game_id: GameId, probes: &InstallProbes) -> (res: Option<&'static str>)
    ensures
        match res {
            Some(n) => spec_appdata_folder_name(game_id, *probes) == Some(n@),
            None => spec_appdata_folder_name(game_id, *probes) is None,
        },
{
    match game_id {
        GameId::Morrowind | GameId::OpenMW => None,
        GameId::Oblivion => Some("Oblivion"),
        GameId::Skyrim => Some(skyrim_appdata_folder_name(probes)),
        GameId::SkyrimSE => Some(skyrim_se_appdata_folder_name(probes)),
        GameId::SkyrimVR => Some("Skyrim VR"),
        GameId::Fallout3 => Some("Fallout3"),
        GameId::FalloutNV => Some(falloutnv_appdata_folder_name(probes)),
        GameId::Fallout4 => Some(fallout4_appdata_folder_name(probes)),
        GameId::Fallout4VR => Some("Fallout4VR"),
        GameId::Starfield => Some("Starfield"),
    }
}

/// The name of a game's folder in the My Games directory.
pub open spec fn spec_my_games_folder_name(game_id: GameId, probes: InstallProbes) -> Option<Seq<char>> {
    match game_id {
        GameId::OpenMW => Some("OpenMW"@),
        GameId::Skyrim => Some(if probes.is_enderal { "Enderal"@ } else { "Skyrim"@ }),
        _ => spec_appdata_folder_name(game_id, probes),
    }
}

pub fn skyrim_my_games_folder_name(probes: &InstallProbes) -> (res: &'static str)
    ensures
        Some(res@) == spec_my_games_folder_name(GameId::Skyrim, *probes),
{
    if probes.is_enderal { "Enderal" } else { "Skyrim" }
}

pub fn my_games_folder_name(game_id: GameId, probes: &InstallProbes) -> (res: Option<&'static str>)
    ensures
        match res {
            Some(n) => spec_my_games_folder_name(game_id, *probes) == Some(n@),
            None => spec_my_games_folder_name(game_id, *probes) is None,
        },
{
    match game_id {
        GameId::OpenMW => Some("OpenMW"),
        GameId::Skyrim => Some(skyrim_my_games_folder_name(probes)),
        _ => appdata_folder_name(game_id, probes),
    }
}

/// A game's local application data path on Linux, where there is no way to
/// find the local application data directory: OpenMW's is its user config
/// directory, and games without a local folder need none.
pub fn local_path(game_id: GameId, probes: &InstallProbes, openmw_user_config_dir: &str) -> (res: Result<Option<String>, Error>)
    ensures
        game_id == GameId::OpenMW ==> (res matches Ok(Some(p)) && p@ == openmw_user_config_dir@),
        game_id != GameId::OpenMW ==> (if spec_appdata_folder_name(game_id, *probes) is None {
            res matches Ok(None)
        } else {
            res == Err::<Option<String>, Error>(Error::NoLocalAppData)
        }),
{
    if game_id == GameId::OpenMW {
        Ok(Some(owned(openmw_user_config_dir)))
    } else if appdata_folder_name(game_id, probes).is_none() {
        Ok(None)
    } else {
        Err(Error::NoLocalAppData)
    }
}

/// The documents directory, relative to a local path that should end in
/// `AppData/Local/<Game>`.
pub open spec fn spec_documents_path(local_path: Seq<char>) -> Seq<char> {
    match std_path_parent(local_path) {
        Some(a) => match std_path_parent(a) {
            Some(b) => match std_path_parent(b) {
                Some(c) => std_path_join(c, "Documents"@),
                None => std_path_join(local_path, "../../../Documents"@),
            },
            None => std_path_join(local_path, "../../../Documents"@),
        },
        None => std_path_join(local_path, "../../../Documents"@),
    }
}

pub fn documents_path(local_path: &str) -> (res: Option<String>)
    ensures
        res matches Some(p) && p@ == spec_documents_path(local_path@),
{
    match parent(local_path) {
        Some(a) => match parent(a.as_str()) {
            Some(b) => match parent(b.as_str()) {
                Some(c) => Some(join(c.as_str(), "Documents")),
                None => Some(join(local_path, "../../../Documents")),
            },
            None => Some(join(local_path, "../../../Documents")),
        },
        None => Some(join(local_path, "../../../Documents")),
    }
}

/// A game's My Games directory: OpenMW's is its local path.
pub open spec fn spec_my_games_path(game_id: GameId, probes: InstallProbes, local_path: Seq<char>) -> Option<Seq<char>> {
    if game_id == GameId::OpenMW {
        Some(local_path)
    } else {
        match spec_my_games_folder_name(game_id, probes) {
            Some(f) => Some(std_path_join(std_path_join(spec_documents_path(local_path), "My Games"@), f)),
            None => None,
        }
    }
}

pub fn my_games_path(game_id: GameId, probes: &InstallProbes, local_path: &str) -> (res: Result<Option<String>, Error>)
    ensures
        res matches Ok(p) && opt_view(p) == spec_my_games_path(game_id, *probes, local_path@),
{
    if game_id == GameId::OpenMW {
        return Ok(Some(owned(local_path)));
    }
    match my_games_folder_name(game_id, probes) {
        None => Ok(None),
        Some(folder) => match documents_path(local_path) {
            Some(d) => Ok(Some(join(join(d.as_str(), "My Games").as_str(), folder))),
            None => Err(Error::NoDocumentsPath),
        },
    }
}

/// A game's plugins directory: OpenMW's is its `resources/vfs` directory.
pub open spec fn spec_plugins_directory(game_id: GameId, game_path: Seq<char>, openmw_config: OpenMWConfigView) -> Seq<char> {
    match game_id {
        GameId::OpenMW => std_path_join(match openmw_config.resources {
            Some(r) => r,
            None => std_path_join(game_path, "resources"@),
        }, "vfs"@),
        GameId::Morrowind => std_path_join(game_path, "Data Files"@),
        _ => std_path_join(game_path, "Data"@),
    }
}

pub fn plugins_directory(game_id: GameId, game_path: &str, openmw_config: OpenMWConfig) -> (res: String)
    ensures
        res@ == spec_plugins_directory(game_id, game_path@, openmw_config@),
{
    match game_id {
        GameId::OpenMW => resources_vfs_path(game_path, openmw_config),
        GameId::Morrowind => join(game_path, "Data Files"),
        _ => join(game_path, "Data"),
    }
}

/// The directories of the Microsoft Store Fallout 4 DLCs, relative to the
/// game path.
pub open spec fn ms_fo4_dlc_dirs() -> Seq<Seq<char>> {
    seq![
        "../../Fallout 4- Automatron (PC)/Content/Data"@,
        "../../Fallout 4- Nuka-World (PC)/Content/Data"@,
        "../../Fallout 4- Wasteland Workshop (PC)/Content/Data"@,
        "../../Fallout 4- High Resolution Texture Pack/Content/Data"@,
        "../../Fallout 4- Vault-Tec Workshop (PC)/Content/Data"@,
        "../../Fallout 4- Far Harbor (PC)/Content/Data"@,
        "../../Fallout 4- Contraptions Workshop (PC)/Content/Data"@,
    ]
}

/// The directories besides the plugins directory that hold a game's
/// plugins: OpenMW's are those its configs add.
pub open spec fn spec_additional_plugins_directories(
    game_id: GameId,
    game_path: Seq<char>,
    my_games_path: Seq<char>,
    probes: InstallProbes,
    openmw_config: OpenMWConfigView,
) -> Seq<Seq<char>> {
    if game_id == GameId::Fallout4 && spec_is_microsoft_store_install(game_id, probes) {
        ms_fo4_dlc_dirs().map_values(|d: Seq<char>| std_path_join(game_path, d))
    } else if game_id == GameId::Starfield {
        seq![std_path_join(my_games_path, "Data"@)]
    } else if game_id == GameId::OpenMW {
        match openmw_config.data_local {
            Some(p) => seq![p] + openmw_config.data,
            None => openmw_config.data,
        }
    } else {
        Seq::empty()
    }
}

pub fn additional_plugins_directories(
    game_id: GameId,
    game_path: &str,
    my_games_path: &str,
    probes: &InstallProbes,
    openmw_config: OpenMWConfig,
) -> (res: Vec<String>)
    ensures
        strings_view(res@) == spec_additional_plugins_directories(game_id, game_path@, my_games_path@, *probes, openmw_config@),
{
    let mut res: Vec<String> = Vec::new();
    if game_id == GameId::Fallout4 && is_microsoft_store_install(game_id, probes) {
        res.push(join(game_path, "../../Fallout 4- Automatron (PC)/Content/Data"));
        res.push(join(game_path, "../../Fallout 4- Nuka-World (PC)/Content/Data"));
        res.push(join(game_path, "../../Fallout 4- Wasteland Workshop (PC)/Content/Data"));
        res.push(join(game_path, "../../Fallout 4- High Resolution Texture Pack/Content/Data"));
        res.push(join(game_path, "../../Fallout 4- Vault-Tec Workshop (PC)/Content/Data"));
        res.push(join(game_path, "../../Fallout 4- Far Harbor (PC)/Content/Data"));
        res.push(join(game_path, "../../Fallout 4- Contraptions Workshop (PC)/Content/Data"));
        assert(strings_view(res@) =~= ms_fo4_dlc_dirs().map_values(|d: Seq<char>| std_path_join(game_path@, d)));
        res
    } else if game_id == GameId::Starfield {
        res.push(join(my_games_path, "Data"));
        assert(strings_view(res@) =~= seq![std_path_join(my_games_path@, "Data"@)]);
        res
    } else if game_id == GameId::OpenMW {
        additional_data_paths(openmw_config)
    } else {
        assert(strings_view(res@) =~= Seq::<Seq<char>>::empty());
        res
    }
}

/// Skyrim's `loadorder.txt`, in its local path; other games have none.
pub fn load_order_path(game_id: GameId, local_path: &str) -> (res: Option<String>)
    ensures
        opt_view(res) == if game_id == GameId::Skyrim { Some(std_path_join(local_path@, "loadorder.txt"@)) } else { None },
{
    match game_id {
        GameId::Skyrim => Some(join(local_path, "loadorder.txt")),
        _ => None,
    }
}

/// Where Oblivion reads `Plugins.txt`: its local path, unless its ini in the
/// game directory (whose bytes `oblivion_ini` holds, `None` where it does
/// not exist) turns off the My Games directory.
pub fn oblivion_plugins_file_path(game_path: &str, local_path: &str, oblivion_ini: Option<&[u8]>) -> (res: Result<String, Error>)
    ensures
        match oblivion_ini {
            None => res matches Ok(p) && p@ == std_path_join(local_path@, "Plugins.txt"@),
            Some(bytes) => match ini_parsed(windows_1252_decoded(bytes@), false, false) {
                Ok(d) => res matches Ok(p) && p@ == std_path_join(
                    if spec_get_from(d, Some("General"@), "bUseMyGamesDirectory"@) != Some("0"@) { local_path@ } else { game_path@ },
                    "Plugins.txt"@),
                Err(_) => res is Err && spec_read_ini(std_path_join(game_path@, "Oblivion.ini"@), bytes@, Err(res->Err_0)),
            },
        },
{
    let ini_path = join(game_path, "Oblivion.ini");
    let use_my_games = match use_my_games_directory(ini_path.as_str(), oblivion_ini) {
        Ok(b) => b,
        Err(e) => return Err(e),
    };
    let parent_path = if use_my_games { local_path } else { game_path };
    Ok(join(parent_path, "Plugins.txt"))
}

/// The file that lists a game's active plugins.
pub fn plugins_file_path(game_id: GameId, game_path: &str, local_path: &str, oblivion_ini: Option<&[u8]>) -> (res: Result<String, Error>)
    ensures
        game_id == GameId::OpenMW ==> (res matches Ok(p) && p@ == std_path_join(local_path@, "openmw.cfg"@)),
        game_id == GameId::Morrowind ==> (res matches Ok(p) && p@ == std_path_join(game_path@, "Morrowind.ini"@)),
        game_id == GameId::Oblivion ==> match oblivion_ini {
            None => res matches Ok(p) && p@ == std_path_join(local_path@, "Plugins.txt"@),
            Some(bytes) => match ini_parsed(windows_1252_decoded(bytes@), false, false) {
                Ok(d) => res matches Ok(p) && p@ == std_path_join(
                    if spec_get_from(d, Some("General"@), "bUseMyGamesDirectory"@) != Some("0"@) { local_path@ } else { game_path@ },
                    "Plugins.txt"@),
                Err(_) => res is Err && spec_read_ini(std_path_join(game_path@, "Oblivion.ini"@), bytes@, Err(res->Err_0)),
            },
        },
        !(game_id == GameId::OpenMW || game_id == GameId::Morrowind || game_id == GameId::Oblivion)
            ==> (res matches Ok(p) && p@ == std_path_join(local_path@, "Plugins.txt"@)),
{
    match game_id {
        GameId::OpenMW => Ok(join(local_path, "openmw.cfg")),
        GameId::Morrowind => Ok(join(game_path, "Morrowind.ini")),
        GameId::Oblivion => oblivion_plugins_file_path(game_path, local_path, oblivion_ini),
        _ => Ok(join(local_path, "Plugins.txt")),
    }
}

/// The Creation Club files that list early loading plugins, in the order in
/// which they are looked for: the first that exists is used.
pub open spec fn spec_ccc_file_paths(game_id: GameId, game_path: Seq<char>, my_games_path: Seq<char>) -> Seq<Seq<char>> {
    match game_id {
        GameId::Fallout4 => seq![std_path_join(game_path, "Fallout4.ccc"@)],
        GameId::SkyrimSE => seq![std_path_join(game_path, "Skyrim.ccc"@)],
        GameId::Starfield => seq![std_path_join(my_games_path, "Starfield.ccc"@), std_path_join(game_path, "Starfield.ccc"@)],
        _ => Seq::empty(),
    }
}

pub fn ccc_file_paths(game_id: GameId, game_path: &str, my_games_path: &str) -> (res: Vec<String>)
    ensures
        strings_view(res@) == spec_ccc_file_paths(game_id, game_path@, my_games_path@),
{
    let mut res: Vec<String> = Vec::new();
    match game_id {
        GameId::Fallout4 => res.push(join(game_path, "Fallout4.ccc")),
        GameId::SkyrimSE => res.push(join(game_path, "Skyrim.ccc")),
        GameId::Starfield => {
            res.push(join(my_games_path, "Starfield.ccc"));
            res.push(join(game_path, "Starfield.ccc"));
        },
        _ => {},
    }
    assert(strings_view(res@) =~= spec_ccc_file_paths(game_id, game_path@, my_games_path@));
    res
}

/// The plugins that a game always loads first, in their load order.
pub open spec fn spec_hardcoded_plugins(game_id: GameId) -> Seq<Seq<char>> {
    match game_id {
        GameId::Skyrim => seq!["Skyrim.esm"@],
        GameId::SkyrimSE => seq!["Skyrim.esm"@, "Update.esm"@, "Dawnguard.esm"@, "HearthFires.esm"@, "Dragonborn.esm"@],
        GameId::SkyrimVR => seq!["Skyrim.esm"@, "Update.esm"@, "Dawnguard.esm"@, "HearthFires.esm"@, "Dragonborn.esm"@, "SkyrimVR.esm"@],
        GameId::Fallout4 => seq!["Fallout4.esm"@, "DLCRobot.esm"@, "DLCworkshop01.esm"@, "DLCCoast.esm"@,
            "DLCworkshop02.esm"@, "DLCworkshop03.esm"@, "DLCNukaWorld.esm"@, "DLCUltraHighResolution.esm"@],
        GameId::Fallout4VR => seq!["Fallout4.esm"@, "Fallout4_VR.esm"@],
        GameId::Starfield => seq!["Starfield.esm"@, "Constellation.esm"@, "OldMars.esm"@, "ShatteredSpace.esm"@,
            "SFBGS003.esm"@, "SFBGS004.esm"@, "SFBGS006.esm"@, "SFBGS007.esm"@, "SFBGS008.esm"@],
        GameId::OpenMW => seq!["builtin.omwscripts"@],
        _ => Seq::empty(),
    }
}

fn push_all(v: &mut Vec<String>, names: &[&str])
    ensures
        strings_view(final(v)@) == strings_view(old(v)@) + names@.map_values(|n: &str| n@),
{
    let mut i: usize = 0;
    while i < names.len()
        invariant
            i <= names.len(),
            strings_view(v@) == strings_view(old(v)@) + names@.take(i as int).map_values(|n: &str| n@),
        decreases names.len() - i,
    {
        let ghost before = v@;
        v.push(owned(names[i]));
        assert(names@.take(i + 1).map_values(|n: &str| n@) =~= names@.take(i as int).map_values(|n: &str| n@).push(names@[i as int]@));
        assert(strings_view(v@) =~= strings_view(before).push(names@[i as int]@));
        i = i + 1;
    }
    assert(names@.take(names.len() as int) =~= names@);
}

pub fn hardcoded_plugins(game_id: GameId) -> (res: Vec<String>)
    ensures
        strings_view(res@) == spec_hardcoded_plugins(game_id),
{
    let mut res: Vec<String> = Vec::new();
    match game_id {
        GameId::Skyrim => push_all(&mut res, &["Skyrim.esm"]),
        GameId::SkyrimSE => push_all(&mut res, &["Skyrim.esm", "Update.esm", "Dawnguard.esm", "HearthFires.esm", "Dragonborn.esm"]),
        GameId::SkyrimVR => push_all(&mut res, &["Skyrim.esm", "Update.esm", "Dawnguard.esm", "HearthFires.esm", "Dragonborn.esm", "SkyrimVR.esm"]),
        GameId::Fallout4 => push_all(&mut res, &["Fallout4.esm", "DLCRobot.esm", "DLCworkshop01.esm", "DLCCoast.esm",
            "DLCworkshop02.esm", "DLCworkshop03.esm", "DLCNukaWorld.esm", "DLCUltraHighResolution.esm"]),
        GameId::Fallout4VR => push_all(&mut res, &["Fallout4.esm", "Fallout4_VR.esm"]),
        GameId::Starfield => push_all(&mut res, &["Starfield.esm", "Constellation.esm", "OldMars.esm", "ShatteredSpace.esm",
            "SFBGS003.esm", "SFBGS004.esm", "SFBGS006.esm", "SFBGS007.esm", "SFBGS008.esm"]),
        GameId::OpenMW => push_all(&mut res, &["builtin.omwscripts"]),
        _ => {},
    }
    assert(strings_view(res@) =~= spec_hardcoded_plugins(game_id));
    res
}

/// The names without those that match an earlier kept name (by
/// `unicase::eq`): the first of each is kept.
pub open spec fn spec_deduplicate(names: Seq<Seq<char>>) -> Seq<Seq<char>>
    decreases names.len(),
{
    if names.len() == 0 {
        Seq::empty()
    } else {
        let kept = spec_deduplicate(names.drop_last());
        if names_contain(kept, names.last()) {
            kept
        } else {
            kept.push(names.last())
        }
    }
}

/// Removes duplicates, keeping only the first instance of each plugin.
pub fn deduplicate(plugin_names: &mut Vec<String>)
    ensures
        strings_view(final(plugin_names)@) == spec_deduplicate(strings_view(old(plugin_names)@)),
{
    let ghost names = strings_view(plugin_names@);
    let mut kept: Vec<String> = Vec::new();
    let mut i: usize = 0;
    assert(names.take(0) =~= Seq::<Seq<char>>::empty());
    assert(strings_view(kept@) =~= Seq::<Seq<char>>::empty());
    while i < plugin_names.len()
        invariant
            i <= plugin_names.len(),
            names == strings_view(plugin_names@),
            strings_view(kept@) == spec_deduplicate(names.take(i as int)),
        decreases plugin_names.len() - i,
    {
        assert(names.take(i + 1).drop_last() =~= names.take(i as int));
        assert(names.take(i + 1).last() == plugin_names@[i as int]@);
        if !any_name_matches(&kept, plugin_names[i].as_str()) {
            let ghost before = kept@;
            kept.push(plugin_names[i].clone());
            assert(strings_view(kept@) =~= strings_view(before).push(plugin_names@[i as int]@));
        }
        i = i + 1;
    }
    assert(names.take(plugin_names.len() as int) =~= names);
    *plugin_names = kept;
}

/// After `deduplicate`, no two names match each other, and each name
/// given is kept or matches one that is.
pub proof fn law_deduplicated_names_distinct(names: Seq<Seq<char>>)
    ensures
        forall|i: int, j: int| 0 <= i < j < spec_deduplicate(names).len()
            ==> !unicase_eq(#[trigger] spec_deduplicate(names)[i], #[trigger] spec_deduplicate(names)[j]),
        forall|i: int| 0 <= i < names.len()
            ==> spec_deduplicate(names).contains(#[trigger] names[i]) || names_contain(spec_deduplicate(names), names[i]),
    decreases names.len(),
{
    if names.len() > 0 {
        let init = names.drop_last();
        law_deduplicated_names_distinct(init);
        let kept = spec_deduplicate(init);
        let x = names.last();
        let r = spec_deduplicate(names);
        if !names_contain(kept, x) {
            assert forall|i: int, j: int| 0 <= i < j < r.len() implies !unicase_eq(#[trigger] r[i], #[trigger] r[j]) by {
                assert(r[i] == kept[i]);
                if j < kept.len() {
                    assert(r[j] == kept[j]);
                } else {
                    assert(r[j] == x);
                }
            }
            assert forall|i: int| 0 <= i < names.len() implies r.contains(#[trigger] names[i]) || names_contain(r, names[i]) by {
                if i < init.len() {
                    assert(names[i] == init[i]);
                    if kept.contains(init[i]) {
                        let k = choose|k: int| 0 <= k < kept.len() && kept[k] == init[i];
                        assert(r[k] == kept[k]);
                    } else {
                        let k = choose|k: int| 0 <= k < kept.len() && unicase_eq(#[trigger] kept[k], init[i]);
                        assert(r[k] == kept[k]);
                    }
                } else {
                    assert(r[kept.len() as int] == x);
                }
            }
        } else {
            assert forall|i: int| 0 <= i < names.len() implies r.contains(#[trigger] names[i]) || names_contain(r, names[i]) by {
                if i < init.len() {
                    assert(names[i] == init[i]);
                }
            }
        }
    }
}

/// Whether two strings are equal once ASCII letters are folded to lower
/// case (`str::eq_ignore_ascii_case`).
pub fn eq_ignore_ascii_case(a: &str, b: &str) -> (res: bool)
    ensures
        res == ieq_ascii(a@, b@),
{
    if a.unicode_len() != b.unicode_len() {
        return false;
    }
    let r = iends_with_ascii(a, b);
    assert(a@.subrange(a@.len() - b@.len(), a@.len() as int) =~= a@);
    r
}

/// The plugins that `.nam` files activate: each names a `.esp` and a `.esm`
/// plugin with its base name.
pub open spec fn spec_find_nam_plugins(file_names: Seq<Seq<char>>) -> Seq<Seq<char>>
    decreases file_names.len(),
{
    if file_names.len() == 0 {
        Seq::empty()
    } else {
        let rest = spec_find_nam_plugins(file_names.drop_last());
        let f = file_names.last();
        match std_path_extension(f) {
            Some(x) => if ieq_ascii(x, "nam"@) {
                rest.push(std_path_with_extension(f, "esp"@)).push(std_path_with_extension(f, "esm"@))
            } else {
                rest
            },
            None => rest,
        }
    }
}

/// The plugins that the `.nam` files among the names of the files in a
/// plugins directory activate.
pub fn find_nam_plugins(file_names: &Vec<String>) -> (res: Vec<String>)
    ensures
        strings_view(res@) == spec_find_nam_plugins(strings_view(file_names@)),
{
    let ghost names = strings_view(file_names@);
    let mut res: Vec<String> = Vec::new();
    let mut i: usize = 0;
    assert(names.take(0) =~= Seq::<Seq<char>>::empty());
    assert(strings_view(res@) =~= Seq::<Seq<char>>::empty());
    while i < file_names.len()
        invariant
            i <= file_names.len(),
            names == strings_view(file_names@),
            strings_view(res@) == spec_find_nam_plugins(names.take(i as int)),
        decreases file_names.len() - i,
    {
        assert(names.take(i + 1).drop_last() =~= names.take(i as int));
        assert(names.take(i + 1).last() == file_names@[i as int]@);
        let name = file_names[i].as_str();
        let is_nam = match extension(name) {
            Some(x) => eq_ignore_ascii_case(x.as_str(), "nam"),
            None => false,
        };
        if is_nam {
            let ghost before = res@;
            proof {
                reveal_strlit("esp");
                reveal_strlit("esm");
            }
            let esp = with_extension(name, "esp");
            let esm = with_extension(name, "esm");
            let ghost (a, b) = (esp@, esm@);
            res.push(esp);
            res.push(esm);
            assert(strings_view(res@) =~= strings_view(before).push(a).push(b));
        }
        i = i + 1;
    }
    assert(names.take(file_names.len() as int) =~= names);
    res
}

/// What the library learns from a game's files to find its implicitly
/// active plugins: its test files, and whether each is a valid plugin; the
/// lines of the first Creation Club file that exists, if one does; the
/// active plugins that OpenMW's non-user configs list; and the names of the
/// files in the game's `Data` directory.
#[derive(Default)]
pub struct ImplicitInputs {
    pub test_files: Vec<String>,
    pub valid_test_files: Vec<bool>,
    pub ccc_lines: Option<Vec<String>>,
    pub openmw_non_user_content: Vec<String>,
    pub data_file_names: Vec<String>,
}

/// The non-empty lines, in order.
pub open spec fn spec_non_empty(lines: Seq<Seq<char>>) -> Seq<Seq<char>>
    decreases lines.len(),
{
    if lines.len() == 0 {
        Seq::empty()
    } else {
        let rest = spec_non_empty(lines.drop_last());
        if lines.last().len() > 0 { rest.push(lines.last()) } else { rest }
    }
}

fn push_non_empty(v: &mut Vec<String>, lines: &Vec<String>)
    ensures
        strings_view(final(v)@) == strings_view(old(v)@) + spec_non_empty(strings_view(lines@)),
{
    let ghost ls = strings_view(lines@);
    let mut i: usize = 0;
    assert(ls.take(0) =~= Seq::<Seq<char>>::empty());
    assert(strings_view(v@) =~= strings_view(old(v)@) + Seq::<Seq<char>>::empty());
    while i < lines.len()
        invariant
            i <= lines.len(),
            ls == strings_view(lines@),
            strings_view(v@) == strings_view(old(v)@) + spec_non_empty(ls.take(i as int)),
        decreases lines.len() - i,
    {
        assert(ls.take(i + 1).drop_last() =~= ls.take(i as int));
        assert(ls.take(i + 1).last() == lines@[i as int]@);
        if lines[i].unicode_len() > 0 {
            let ghost before = v@;
            v.push(lines[i].clone());
            assert(strings_view(v@) =~= strings_view(before).push(lines@[i as int]@));
        }
        i = i + 1;
    }
    assert(ls.take(lines.len() as int) =~= ls);
}

/// The test files that a game uses: Fallout 4 and Starfield ignore those
/// that are not valid plugins.
pub open spec fn spec_used_test_files(game_id: GameId, test_files: Seq<Seq<char>>, valid: Seq<bool>) -> Seq<Seq<char>>
    decreases test_files.len(),
{
    if !(game_id == GameId::Fallout4 || game_id == GameId::Fallout4VR || game_id == GameId::Starfield) {
        test_files
    } else if test_files.len() == 0 {
        Seq::empty()
    } else {
        let rest = spec_used_test_files(game_id, test_files.drop_last(), valid);
        let k = test_files.len() - 1;
        if k < valid.len() && valid[k] { rest.push(test_files.last()) } else { rest }
    }
}

fn used_test_files(game_id: GameId, test_files: &Vec<String>, valid: &Vec<bool>) -> (res: Vec<String>)
    ensures
        strings_view(res@) == spec_used_test_files(game_id, strings_view(test_files@), valid@),
{
    if !(game_id == GameId::Fallout4 || game_id == GameId::Fallout4VR || game_id == GameId::Starfield) {
        return clone_strings(test_files);
    }
    let ghost ts = strings_view(test_files@);
    let mut res: Vec<String> = Vec::new();
    let mut i: usize = 0;
    assert(ts.take(0) =~= Seq::<Seq<char>>::empty());
    assert(strings_view(res@) =~= Seq::<Seq<char>>::empty());
    while i < test_files.len()
        invariant
            i <= test_files.len(),
            game_id == GameId::Fallout4 || game_id == GameId::Fallout4VR || game_id == GameId::Starfield,
            ts == strings_view(test_files@),
            strings_view(res@) == spec_used_test_files(game_id, ts.take(i as int), valid@),
        decreases test_files.len() - i,
    {
        assert(ts.take(i + 1).drop_last() =~= ts.take(i as int));
        assert(ts.take(i + 1).last() == test_files@[i as int]@);
        if i < valid.len() && valid[i] {
            let ghost before = res@;
            res.push(test_files[i].clone());
            assert(strings_view(res@) =~= strings_view(before).push(test_files@[i as int]@));
        }
        i = i + 1;
    }
    assert(ts.take(test_files.len() as int) =~= ts);
    res
}

/// The plugins that load first: the hardcoded ones, then those that the
/// Creation Club file lists (which Fallout 4 and Starfield skip where test
/// files are set), then for OpenMW those its non-user configs activate,
/// without duplicates.
pub open spec fn spec_early_loading_plugins(
    game_id: GameId,
    has_test_files: bool,
    ccc_lines: Option<Seq<Seq<char>>>,
    openmw_non_user_content: Seq<Seq<char>>,
) -> Seq<Seq<char>> {
    if (game_id == GameId::Fallout4 || game_id == GameId::Starfield) && has_test_files {
        spec_hardcoded_plugins(game_id)
    } else {
        let with_ccc = spec_hardcoded_plugins(game_id) + match ccc_lines {
            Some(lines) => spec_non_empty(lines),
            None => Seq::empty(),
        };
        spec_deduplicate(if game_id == GameId::OpenMW { with_ccc + openmw_non_user_content } else { with_ccc })
    }
}

pub fn early_loading_plugins(
    game_id: GameId,
    has_test_files: bool,
    ccc_lines: &Option<Vec<String>>,
    openmw_non_user_content: &Vec<String>,
) -> (res: Vec<String>)
    ensures
        strings_view(res@) == spec_early_loading_plugins(game_id, has_test_files,
            match ccc_lines { Some(l) => Some(strings_view(l@)), None => None },
            strings_view(openmw_non_user_content@)),
{
    let mut plugin_names = hardcoded_plugins(game_id);
    if (game_id == GameId::Fallout4 || game_id == GameId::Starfield) && has_test_files {
        return plugin_names;
    }
    match ccc_lines {
        Some(lines) => push_non_empty(&mut plugin_names, lines),
        None => {
            assert(strings_view(plugin_names@) =~= spec_hardcoded_plugins(game_id) + Seq::<Seq<char>>::empty());
        },
    }
    if game_id == GameId::OpenMW {
        let more = clone_strings(openmw_non_user_content);
        let ghost before = strings_view(plugin_names@);
        let mut more = more;
        plugin_names.append(&mut more);
        assert(strings_view(plugin_names@) =~= before + strings_view(openmw_non_user_content@));
    }
    deduplicate(&mut plugin_names);
    plugin_names
}

/// The plugins that a game activates by itself: the early loading plugins,
/// the test files, then for Fallout: New Vegas those that `.nam` files
/// activate, for Skyrim `Update.esm` and for Starfield
/// `BlueprintShips-Starfield.esm`, without duplicates.
pub open spec fn spec_implicitly_active_plugins(
    game_id: GameId,
    early_loading_plugins: Seq<Seq<char>>,
    test_files: Seq<Seq<char>>,
    data_file_names: Seq<Seq<char>>,
) -> Seq<Seq<char>> {
    let base = early_loading_plugins + test_files;
    spec_deduplicate(if game_id == GameId::FalloutNV {
        base + spec_find_nam_plugins(data_file_names)
    } else if game_id == GameId::Skyrim {
        base.push("Update.esm"@)
    } else if game_id == GameId::Starfield {
        base.push("BlueprintShips-Starfield.esm"@)
    } else {
        base
    })
}

pub fn implicitly_active_plugins(
    game_id: GameId,
    early_loading_plugins: &Vec<String>,
    test_files: &Vec<String>,
    data_file_names: &Vec<String>,
) -> (res: Vec<String>)
    ensures
        strings_view(res@) == spec_implicitly_active_plugins(game_id, strings_view(early_loading_plugins@),
            strings_view(test_files@), strings_view(data_file_names@)),
{
    let mut plugin_names = clone_strings(early_loading_plugins);
    let mut tests = clone_strings(test_files);
    let ghost e = strings_view(plugin_names@);
    plugin_names.append(&mut tests);
    assert(strings_view(plugin_names@) =~= e + strings_view(test_files@));
    let ghost base = strings_view(plugin_names@);
    if game_id == GameId::FalloutNV {
        let mut nam = find_nam_plugins(data_file_names);
        let ghost n = strings_view(nam@);
        plugin_names.append(&mut nam);
        assert(strings_view(plugin_names@) =~= base + n);
    } else if game_id == GameId::Skyrim {
        plugin_names.push(owned("Update.esm"));
        assert(strings_view(plugin_names@) =~= base.push("Update.esm"@));
    } else if game_id == GameId::Starfield {
        plugin_names.push(owned("BlueprintShips-Starfield.esm"));
        assert(strings_view(plugin_names@) =~= base.push("BlueprintShips-Starfield.esm"@));
    }
    deduplicate(&mut plugin_names);
    plugin_names
}

/// The early loading and implicitly active plugins of a game.
pub open spec fn spec_load_implicitly_active_plugins(game_id: GameId, inputs: ImplicitInputsView) -> (Seq<Seq<char>>, Seq<Seq<char>>) {
    let tests = spec_used_test_files(game_id, inputs.test_files, inputs.valid_test_files);
    let early = spec_early_loading_plugins(game_id, tests.len() > 0, inputs.ccc_lines, inputs.openmw_non_user_content);
    (early, spec_implicitly_active_plugins(game_id, early, tests, inputs.data_file_names))
}

pub struct ImplicitInputsView {
    pub test_files: Seq<Seq<char>>,
    pub valid_test_files: Seq<bool>,
    pub ccc_lines: Option<Seq<Seq<char>>>,
    pub openmw_non_user_content: Seq<Seq<char>>,
    pub data_file_names: Seq<Seq<char>>,
}

impl View for ImplicitInputs {
    type V = ImplicitInputsView;

    open spec fn view(&self) -> ImplicitInputsView {
        ImplicitInputsView {
            test_files: strings_view(self.test_files@),
            valid_test_files: self.valid_test_files@,
            ccc_lines: match self.ccc_lines { Some(l) => Some(strings_view(l@)), None => None },
            openmw_non_user_content: strings_view(self.openmw_non_user_content@),
            data_file_names: strings_view(self.data_file_names@),
        }
    }
}

/// The early loading and implicitly active plugins of a game, and the test
/// files that it uses.
pub fn load_implicitly_active_plugins(game_id: GameId, inputs: &ImplicitInputs) -> (res: (Vec<String>, Vec<String>, Vec<String>))
    ensures
        (strings_view(res.0@), strings_view(res.1@)) == spec_load_implicitly_active_plugins(game_id, inputs@),
        strings_view(res.2@) == spec_used_test_files(game_id, inputs@.test_files, inputs@.valid_test_files),
{
    let tests = used_test_files(game_id, &inputs.test_files, &inputs.valid_test_files);
    let early = early_loading_plugins(game_id, tests.len() > 0, &inputs.ccc_lines, &inputs.openmw_non_user_content);
    let implicit = implicitly_active_plugins(game_id, &early, &tests, &inputs.data_file_names);
    (early, implicit, tests)
}

/// What the library learns of a game's install to make its settings: see
/// `InstallProbes` and `ImplicitInputs`; `oblivion_ini` holds the bytes of
/// the `Oblivion.ini` in the game directory (`None` where it does not
/// exist); `openmw_config` the merge of OpenMW's configs with the user's
/// taken from the local path (ignored for other games).
#[derive(Default)]
pub struct SettingsInputs {
    pub probes: InstallProbes,
    pub oblivion_ini: Option<Vec<u8>>,
    pub openmw_config: OpenMWConfig,
    pub implicit: ImplicitInputs,
}

/// The settings of a game with the given paths.
pub open spec fn spec_settings(
    game_id: GameId,
    game_path: Seq<char>,
    local_path: Seq<char>,
    my_games_path: Seq<char>,
    plugins_file_path: Seq<char>,
    inputs: SettingsInputs,
) -> GameSettingsView {
    let implicit = spec_load_implicitly_active_plugins(game_id, inputs.implicit@);
    GameSettingsView {
        id: game_id,
        game_path: game_path,
        plugins_directory: spec_plugins_directory(game_id, game_path, inputs.openmw_config@),
        plugins_file_path: plugins_file_path,
        my_games_path: my_games_path,
        load_order_path: if game_id == GameId::Skyrim { Some(std_path_join(local_path, "loadorder.txt"@)) } else { None },
        implicitly_active_plugins: implicit.1,
        early_loading_plugins: implicit.0,
        additional_plugins_directories: spec_additional_plugins_directories(
            game_id, game_path, my_games_path, inputs.probes, inputs.openmw_config@),
        test_files: spec_used_test_files(game_id, inputs.implicit@.test_files, inputs.implicit@.valid_test_files),
    }
}

impl GameSettings {
    /// The settings of a game with the given game, local and My Games paths.
    pub fn with_local_and_my_games_paths(
        game_id: GameId,
        game_path: &str,
        local_path: &str,
        my_games_path: String,
        inputs: SettingsInputs,
    ) -> (res: Result<GameSettings, Error>)
        ensures
            match res {
                Ok(s) => exists|p: Seq<char>| s@ == spec_settings(game_id, game_path@, local_path@, my_games_path@, p, inputs)
                    && (#[trigger] plugins_file_path_result(game_id, game_path@, local_path@, inputs.oblivion_ini, Ok(p))),
                Err(e) => plugins_file_path_result(game_id, game_path@, local_path@, inputs.oblivion_ini, Err(e)),
            },
    {
        let ghost inputs_copy = inputs;
        let plugins_file_path = match plugins_file_path(game_id, game_path, local_path, match &inputs.oblivion_ini {
            Some(b) => Some(b.as_slice()),
            None => None,
        }) {
            Ok(p) => p,
            Err(e) => return Err(e),
        };
        let ghost pfp = plugins_file_path@;
        assert(plugins_file_path_result(game_id, game_path@, local_path@, inputs_copy.oblivion_ini, Ok(pfp)));
        let load_order_path = load_order_path(game_id, local_path);
        let SettingsInputs { probes, oblivion_ini: _, openmw_config, implicit } = inputs;
        let openmw_config_copy = openmw_config.clone();
        let plugins_directory = plugins_directory(game_id, game_path, openmw_config);
        let additional_plugins_directories = additional_plugins_directories(
            game_id, game_path, my_games_path.as_str(), &probes, openmw_config_copy);
        let (early_loading_plugins, implicitly_active_plugins, test_files) =
            load_implicitly_active_plugins(game_id, &implicit);
        let res = GameSettings {
            id: game_id,
            game_path: owned(game_path),
            plugins_directory,
            plugins_file_path,
            my_games_path,
            load_order_path,
            implicitly_active_plugins,
            early_loading_plugins,
            additional_plugins_directories,
            test_files,
        };
        assert(res@ == spec_settings(game_id, game_path@, local_path@, res@.my_games_path, res@.plugins_file_path, inputs_copy));
        Ok(res)
    }

    /// Refreshes the early loading and implicitly active plugins from the
    /// game's current files.
    pub fn refresh_implicitly_active_plugins(&mut self, inputs: &ImplicitInputs) -> (res: Result<(), Error>)
        ensures
            res is Ok,
            final(self)@ == (GameSettingsView {
                early_loading_plugins: spec_load_implicitly_active_plugins(old(self)@.id, inputs@).0,
                implicitly_active_plugins: spec_load_implicitly_active_plugins(old(self)@.id, inputs@).1,
                test_files: spec_used_test_files(old(self)@.id, inputs@.test_files, inputs@.valid_test_files),
                ..old(self)@
            }),
    {
        let (early, implicit, tests) = load_implicitly_active_plugins(self.id, inputs);
        self.early_loading_plugins = early;
        self.implicitly_active_plugins = implicit;
        self.test_files = tests;
        Ok(())
    }

    /// The game's main master file. It is not necessarily of any
    /// significance: the early loading plugins say more.
    pub fn master_file(&self) -> (res: &'static str)
        ensures
            res@ == spec_master_file(self@.id),
    {
        match self.id {
            GameId::Morrowind | GameId::OpenMW => "Morrowind.esm",
            GameId::Oblivion => "Oblivion.esm",
            GameId::Skyrim | GameId::SkyrimSE | GameId::SkyrimVR => "Skyrim.esm",
            GameId::Fallout3 => "Fallout3.esm",
            GameId::FalloutNV => "FalloutNV.esm",
            GameId::Fallout4 | GameId::Fallout4VR => "Fallout4.esm",
            GameId::Starfield => "Starfield.esm",
        }
    }
}

pub open spec fn spec_master_file(game_id: GameId) -> Seq<char> {
    match game_id {
        GameId::Morrowind | GameId::OpenMW => "Morrowind.esm"@,
        GameId::Oblivion => "Oblivion.esm"@,
        GameId::Skyrim | GameId::SkyrimSE | GameId::SkyrimVR => "Skyrim.esm"@,
        GameId::Fallout3 => "Fallout3.esm"@,
        GameId::FalloutNV => "FalloutNV.esm"@,
        GameId::Fallout4 | GameId::Fallout4VR => "Fallout4.esm"@,
        GameId::Starfield => "Starfield.esm"@,
    }
}

/// What `plugins_file_path` gives.
pub open spec fn plugins_file_path_result(
    game_id: GameId,
    game_path: Seq<char>,
    local_path: Seq<char>,
    oblivion_ini: Option<Vec<u8>>,
    res: Result<Seq<char>, Error>,
) -> bool {
    if game_id == GameId::OpenMW {
        res == Ok::<Seq<char>, Error>(std_path_join(local_path, "openmw.cfg"@))
    } else if game_id == GameId::Morrowind {
        res == Ok::<Seq<char>, Error>(std_path_join(game_path, "Morrowind.ini"@))
    } else if game_id == GameId::Oblivion {
        match oblivion_ini {
            None => res == Ok::<Seq<char>, Error>(std_path_join(local_path, "Plugins.txt"@)),
            Some(bytes) => match ini_parsed(windows_1252_decoded(bytes@), false, false) {
                Ok(d) => res == Ok::<Seq<char>, Error>(std_path_join(
                    if spec_get_from(d, Some("General"@), "bUseMyGamesDirectory"@) != Some("0"@) { local_path } else { game_path },
                    "Plugins.txt"@)),
                Err(_) => res is Err && spec_read_ini(std_path_join(game_path, "Oblivion.ini"@), bytes@, Err(res->Err_0)),
            },
        }
    } else {
        res == Ok::<Seq<char>, Error>(std_path_join(local_path, "Plugins.txt"@))
    }
}

/// The settings that `with_local_and_my_games_paths` makes, or its error.
pub open spec fn spec_settings_result(
    game_id: GameId,
    game_path: Seq<char>,
    local_path: Seq<char>,
    my_games_path: Seq<char>,
    inputs: SettingsInputs,
    res: Result<GameSettings, Error>,
) -> bool {
    match res {
        Ok(s) => exists|p: Seq<char>| s@ == spec_settings(game_id, game_path, local_path, my_games_path, p, inputs)
            && (#[trigger] plugins_file_path_result(game_id, game_path, local_path, inputs.oblivion_ini, Ok(p))),
        Err(e) => plugins_file_path_result(game_id, game_path, local_path, inputs.oblivion_ini, Err(e)),
    }
}

/// The My Games path of a game with the local path, or an empty path where
/// the game has none.
pub open spec fn my_games_path_or_empty(game_id: GameId, probes: InstallProbes, local_path: Seq<char>) -> Seq<char> {
    match spec_my_games_path(game_id, probes, local_path) {
        Some(p) => p,
        None => Seq::empty(),
    }
}

/// The local path of a game on Linux (empty where it needs none), or
/// `None` where it needs one that cannot be found.
pub open spec fn spec_local_path(game_id: GameId, probes: InstallProbes, openmw_user_config_dir: Seq<char>) -> Option<Seq<char>> {
    if game_id == GameId::OpenMW {
        Some(openmw_user_config_dir)
    } else if spec_appdata_folder_name(game_id, probes) is None {
        Some(Seq::empty())
    } else {
        None
    }
}

impl GameSettings {
    /// The settings of a game with the given local path.
    pub fn with_local_path(game_id: GameId, game_path: &str, local_path: &str, inputs: SettingsInputs) -> (res: Result<GameSettings, Error>)
        ensures
            spec_settings_result(game_id, game_path@, local_path@,
                my_games_path_or_empty(game_id, inputs.probes, local_path@), inputs, res),
    {
        let my_games = match my_games_path(game_id, &inputs.probes, local_path) {
            Ok(Some(p)) => p,
            Ok(None) => String::new(),
            Err(e) => return Err(e),
        };
        GameSettings::with_local_and_my_games_paths(game_id, game_path, local_path, my_games, inputs)
    }

    /// The settings of a game: `openmw_user_config_dir` is the directory of
    /// OpenMW's user config (ignored for other games). There is no way to
    /// find the local application data directory here, so a game that needs
    /// one fails with `NoLocalAppData`.
    pub fn new(game_id: GameId, game_path: &str, openmw_user_config_dir: &str, inputs: SettingsInputs) -> (res: Result<GameSettings, Error>)
        ensures
            match spec_local_path(game_id, inputs.probes, openmw_user_config_dir@) {
                Some(l) => spec_settings_result(game_id, game_path@, l,
                    my_games_path_or_empty(game_id, inputs.probes, l), inputs, res),
                None => res == Err::<GameSettings, Error>(Error::NoLocalAppData),
            },
    {
        let local = match local_path(game_id, &inputs.probes, openmw_user_config_dir) {
            Ok(Some(p)) => p,
            Ok(None) => String::new(),
            Err(e) => return Err(e),
        };
        GameSettings::with_local_path(game_id, game_path, local.as_str(), inputs)
    }

    /// The path of the plugin's file: see `plugin_path`.
    pub fn plugin_path(&self, plugin_name: &str) -> (res: String)
        ensures
            spec_plugin_path_outcome(self@.id, plugin_name@, self@.plugins_directory, self@.additional_plugins_directories, res@),
            self@.additional_plugins_directories.len() == 0 ==> res@ == std_path_join(self@.plugins_directory, plugin_name@),
    {
        plugin_path(self.id, plugin_name, &self.plugins_directory, &self.additional_plugins_directories)
    }
}

/// A path under which the plugin may be found in the directory: the joined
/// path, or, where the game allows ghosting, its ghosted or unghosted
/// alternative.
pub open spec fn spec_plugin_path_candidate(game_id: GameId, dir: Seq<char>, plugin_name: Seq<char>, p: Seq<char>) -> bool {
    p == std_path_join(dir, plugin_name)
        || (game_allows_plugin_ghosting(game_id) && spec_alternative_path(std_path_join(dir, plugin_name)) == Ok::<Seq<char>, ()>(p))
}

/// The path at which the plugin exists in the directory, if it does; where
/// the game allows ghosting, under its ghosted or unghosted name too. What
/// exists is read from disk.
pub fn find_map_path(directory: &str, plugin_name: &str, game_id: GameId) -> (res: Option<String>)
    ensures
        res matches Some(p) ==> spec_plugin_path_candidate(game_id, directory@, plugin_name@, p@),
{
    let path = join(directory, plugin_name);
    if game_id.allow_plugin_ghosting() {
        match resolve_path(path.as_str()) {
            Ok(p) => Some(p),
            Err(_) => None,
        }
    } else if path_exists(path.as_str()) {
        Some(path)
    } else {
        None
    }
}

/// The views of the paths at which each directory was found to hold a
/// plugin.
pub open spec fn found_view(found: Seq<Option<String>>) -> Seq<Option<Seq<char>>> {
    found.map_values(|o: Option<String>| opt_view(o))
}

/// Whether a directory was found to hold the plugin.
pub open spec fn is_found() -> spec_fn(Option<Seq<char>>) -> bool {
    |o: Option<Seq<char>>| o is Some
}

/// The directory whose path `plugin_path` takes, among those found to hold
/// the plugin: the first, or for OpenMW, where the last directory listed
/// wins, the last.
pub open spec fn spec_found_index(game_id: GameId, found: Seq<Option<Seq<char>>>) -> Option<int> {
    if game_id == GameId::OpenMW {
        last_index(found, is_found())
    } else {
        first_index(found, is_found())
    }
}

/// The path of the plugin, given the path at which each additional
/// directory was found to hold it (`None` where it does not): that of the
/// directory that `spec_found_index` picks, or else the plugins directory
/// joined with the plugin's name.
pub open spec fn spec_chosen_plugin_path(
    game_id: GameId,
    plugin_name: Seq<char>,
    plugins_directory: Seq<char>,
    found: Seq<Option<Seq<char>>>,
) -> Seq<char> {
    match spec_found_index(game_id, found) {
        Some(k) => found[k]->0,
        None => std_path_join(plugins_directory, plugin_name),
    }
}

/// What holds of `plugin_path`'s result whatever is on disk: it is the path
/// that `spec_chosen_plugin_path` picks for some outcome of looking for the
/// plugin in each additional directory, where each path found is a
/// candidate path in its directory.
pub open spec fn spec_plugin_path_outcome(
    game_id: GameId,
    plugin_name: Seq<char>,
    plugins_directory: Seq<char>,
    directories: Seq<Seq<char>>,
    res: Seq<char>,
) -> bool {
    exists|found: Seq<Option<Seq<char>>>| {
        &&& found.len() == directories.len()
        &&& forall|i: int| 0 <= i < found.len() ==> (#[trigger] found[i] matches Some(p)
            ==> spec_plugin_path_candidate(game_id, directories[i], plugin_name, p))
        &&& res == spec_chosen_plugin_path(game_id, plugin_name, plugins_directory, found)
    }
}

/// The path of the plugin, given the path at which each additional
/// directory was found to hold it (`None` where it does not): the first
/// path found, or for OpenMW the last, or else the plugins directory joined
/// with the plugin's name.
pub fn choose_plugin_path(game_id: GameId, plugin_name: &str, plugins_directory: &str, found: &Vec<Option<String>>) -> (res: String)
    ensures
        res@ == spec_chosen_plugin_path(game_id, plugin_name@, plugins_directory@, found_view(found@)),
{
    let ghost fv = found_view(found@);
    let n = found.len();
    let reverse = game_id == GameId::OpenMW;
    let mut k: usize = 0;
    while k < n
        invariant
            k <= n,
            n == found.len(),
            fv == found_view(found@),
            reverse == (game_id == GameId::OpenMW),
            reverse ==> forall|j: int| n - k <= j < n ==> !(#[trigger] is_found()(fv[j])),
            !reverse ==> forall|j: int| 0 <= j < k ==> !(#[trigger] is_found()(fv[j])),
        decreases n - k,
    {
        let i = if reverse { n - 1 - k } else { k };
        match &found[i] {
            Some(p) => {
                proof {
                    assert(fv[i as int] == opt_view(found@[i as int]));
                    if reverse {
                        lemma_last_index_is(fv, is_found(), i as int);
                    } else {
                        lemma_first_index_is(fv, is_found(), i as int);
                    }
                }
                return owned(p.as_str());
            },
            None => {
                assert(fv[i as int] == opt_view(found@[i as int]));
            },
        }
        k = k + 1;
    }
    proof {
        if reverse {
            lemma_last_index_none(fv, is_found());
        } else {
            lemma_first_index_none(fv, is_found());
        }
    }
    join(plugins_directory, plugin_name)
}

/// The path of the plugin in the first of the directories that holds it,
/// for OpenMW the last, or else in the plugins directory. Whether each
/// directory holds it is read from disk.
pub fn pick_plugin_path(game_id: GameId, plugin_name: &str, plugins_directory: &str, directories: &Vec<String>) -> (res: String)
    ensures
        spec_plugin_path_outcome(game_id, plugin_name@, plugins_directory@, strings_view(directories@), res@),
{
    let ghost dirs = strings_view(directories@);
    let mut found: Vec<Option<String>> = Vec::new();
    let mut i: usize = 0;
    while i < directories.len()
        invariant
            i <= directories.len(),
            dirs == strings_view(directories@),
            found.len() == i,
            forall|j: int| 0 <= j < i ==> (#[trigger] found_view(found@)[j] matches Some(p)
                ==> spec_plugin_path_candidate(game_id, dirs[j], plugin_name@, p)),
        decreases directories.len() - i,
    {
        let f = find_map_path(directories[i].as_str(), plugin_name, game_id);
        let ghost before = found@;
        found.push(f);
        proof {
            assert(dirs[i as int] == directories@[i as int]@);
            assert forall|j: int| 0 <= j < i + 1 implies (#[trigger] found_view(found@)[j] matches Some(p)
                ==> spec_plugin_path_candidate(game_id, dirs[j], plugin_name@, p)) by {
                if j < i {
                    assert(found@[j] == before[j]);
                    assert(found_view(found@)[j] == found_view(before)[j]);
                }
            }
        }
        i = i + 1;
    }
    let res = choose_plugin_path(game_id, plugin_name, plugins_directory, &found);
    assert(found_view(found@).len() == dirs.len());
    res
}

/// The path of the plugin's file. There may be several directories that
/// the plugin could be installed in, so each is checked in turn: the
/// additional directories (for OpenMW the last listed that holds it wins),
/// then the plugins directory. Starfield only loads a plugin from its
/// additional directory if it is also in the plugins directory. What exists
/// is read from disk: see `spec_plugin_path_outcome`.
pub fn plugin_path(game_id: GameId, plugin_name: &str, plugins_directory: &String, additional_plugins_directories: &Vec<String>) -> (res: String)
    ensures
        spec_plugin_path_outcome(game_id, plugin_name@, plugins_directory@, strings_view(additional_plugins_directories@), res@),
        additional_plugins_directories.len() == 0 ==> res@ == std_path_join(plugins_directory@, plugin_name@),
{
    let ghost dirs = strings_view(additional_plugins_directories@);
    if game_id == GameId::Starfield {
        let path = join(plugins_directory.as_str(), plugin_name);
        if resolve_path(path.as_str()).is_err() {
            proof {
                let none = Seq::new(dirs.len(), |i: int| None::<Seq<char>>);
                lemma_first_index_none(none, is_found());
                assert(spec_chosen_plugin_path(game_id, plugin_name@, plugins_directory@, none) == path@);
            }
            return path;
        }
    }
    let res = pick_plugin_path(game_id, plugin_name, plugins_directory.as_str(), additional_plugins_directories);
    proof {
        if additional_plugins_directories.len() == 0 {
            let found = choose|found: Seq<Option<Seq<char>>>| {
                &&& found.len() == dirs.len()
                &&& forall|i: int| 0 <= i < found.len() ==> (#[trigger] found[i] matches Some(p)
                    ==> spec_plugin_path_candidate(game_id, dirs[i], plugin_name@, p))
                &&& res@ == spec_chosen_plugin_path(game_id, plugin_name@, plugins_directory@, found)
            };
            lemma_first_index_none(found, is_found());
            lemma_last_index_none(found, is_found());
        }
    }
    res
}

/// A file found in one of the directories that hold plugins: its path, its
/// name, its modification time in nanoseconds (if it could be read), and
/// the index of its directory among those that `plugin_search_directories`
/// lists.
pub struct PluginFileEntry {
    pub path: String,
    pub file_name: String,
    pub modified: Option<i128>,
    pub directory: usize,
}

pub struct PluginFileEntryView {
    pub path: Seq<char>,
    pub file_name: Seq<char>,
    pub modified: Option<int>,
    pub directory: int,
}

impl View for PluginFileEntry {
    type V = PluginFileEntryView;

    open spec fn view(&self) -> PluginFileEntryView {
        PluginFileEntryView {
            path: self.path@,
            file_name: self.file_name@,
            modified: match self.modified { Some(t) => Some(t as int), None => None },
            directory: self.directory as int,
        }
    }
}

/// `a` is listed before `b`: OpenMW sorts by name within each directory and
/// keeps the directories' order; other games sort by modification time (a
/// file without one first), then by name, descending except for Starfield.
pub open spec fn entry_before(game_id: GameId, a: PluginFileEntryView, b: PluginFileEntryView) -> bool {
    if game_id == GameId::OpenMW {
        a.directory == b.directory && str_lt(a.file_name, b.file_name)
    } else if a.modified != b.modified {
        match (a.modified, b.modified) {
            (None, Some(_)) => true,
            (Some(x), Some(y)) => x < y,
            _ => false,
        }
    } else if game_id == GameId::Starfield {
        str_lt(a.file_name, b.file_name)
    } else {
        str_lt(b.file_name, a.file_name)
    }
}

fn entry_sorter(game_id: GameId, a: &PluginFileEntry, b: &PluginFileEntry) -> (res: bool)
    ensures
        res == entry_before(game_id, a@, b@),
{
    if game_id == GameId::OpenMW {
        a.directory == b.directory && str_less(a.file_name.as_str(), b.file_name.as_str())
    } else {
        let same_time = match (a.modified, b.modified) {
            (Some(x), Some(y)) => x == y,
            (None, None) => true,
            _ => false,
        };
        if !same_time {
            match (a.modified, b.modified) {
                (None, Some(_)) => true,
                (Some(x), Some(y)) => x < y,
                _ => false,
            }
        } else if game_id == GameId::Starfield {
            str_less(a.file_name.as_str(), b.file_name.as_str())
        } else {
            str_less(b.file_name.as_str(), a.file_name.as_str())
        }
    }
}

pub open spec fn pred_entry_after(game_id: GameId, x: PluginFileEntryView) -> spec_fn(PluginFileEntryView) -> bool {
    |y: PluginFileEntryView| entry_before(game_id, x, y)
}

/// The entries stably sorted: entries that tie keep their order.
pub open spec fn spec_sort_entries(game_id: GameId, es: Seq<PluginFileEntryView>) -> Seq<PluginFileEntryView>
    decreases es.len(),
{
    if es.len() == 0 {
        Seq::empty()
    } else {
        let sorted = spec_sort_entries(game_id, es.drop_last());
        match first_index(sorted, pred_entry_after(game_id, es.last())) {
            Some(j) => sorted.insert(j, es.last()),
            None => sorted.push(es.last()),
        }
    }
}

/// The entries whose names have a plugin file extension for the game.
pub open spec fn spec_plugin_entries(game_id: GameId, es: Seq<PluginFileEntryView>) -> Seq<PluginFileEntryView>
    decreases es.len(),
{
    if es.len() == 0 {
        Seq::empty()
    } else {
        let rest = spec_plugin_entries(game_id, es.drop_last());
        if spec_has_plugin_extension(es.last().file_name, game_id) { rest.push(es.last()) } else { rest }
    }
}

pub open spec fn entries_view(es: Seq<PluginFileEntry>) -> Seq<PluginFileEntryView> {
    es.map_values(|e: PluginFileEntry| e@)
}

/// The installed plugins' paths in their "inactive load order": the order in
/// which the game's launcher would list them if all were inactive.
pub open spec fn spec_find_plugins(game_id: GameId, es: Seq<PluginFileEntryView>) -> Seq<Seq<char>> {
    spec_sort_entries(game_id, spec_plugin_entries(game_id, es)).map_values(|e: PluginFileEntryView| e.path)
}

impl GameSettings {
    /// The directories to search for plugins, in order: for OpenMW the
    /// plugins directory first, for other games last, as plugins in the
    /// additional directories override those of the same names.
    pub fn plugin_search_directories(&self) -> (res: Vec<String>)
        ensures
            strings_view(res@) == if self@.id == GameId::OpenMW {
                seq![self@.plugins_directory] + self@.additional_plugins_directories
            } else {
                self@.additional_plugins_directories.push(self@.plugins_directory)
            },
    {
        let mut res: Vec<String> = Vec::new();
        if self.id == GameId::OpenMW {
            res.push(self.plugins_directory.clone());
            let mut more = clone_strings(&self.additional_plugins_directories);
            let ghost f = strings_view(res@);
            res.append(&mut more);
            assert(strings_view(res@) =~= f + self@.additional_plugins_directories);
        } else {
            res = clone_strings(&self.additional_plugins_directories);
            let ghost f = strings_view(res@);
            res.push(self.plugins_directory.clone());
            assert(strings_view(res@) =~= f.push(self@.plugins_directory));
        }
        res
    }

    /// The paths of the installed plugins among the files found in the
    /// directories that `plugin_search_directories` lists (in that order),
    /// in the game's "inactive load order".
    pub fn find_plugins(&self, entries: Vec<PluginFileEntry>) -> (res: Vec<String>)
        ensures
            strings_view(res@) == spec_find_plugins(self@.id, entries_view(entries@)),
    {
        let game_id = self.id;
        let ghost ev = entries_view(entries@);
        let mut rest = entries;
        let n = rest.len();
        let mut kept: Vec<PluginFileEntry> = Vec::new();
        let mut i: usize = 0;
        assert(ev.take(0) =~= Seq::<PluginFileEntryView>::empty());
        assert(entries_view(kept@) =~= Seq::<PluginFileEntryView>::empty());
        while rest.len() > 0
            invariant
                i + rest.len() == n,
                n == ev.len(),
                forall|j: int| 0 <= j < rest.len() ==> #[trigger] rest@[j]@ == ev[i + j],
                entries_view(kept@) == spec_plugin_entries(game_id, ev.take(i as int)),
            decreases rest.len(),
        {
            let ghost before_rest = rest@;
            let e = rest.remove(0);
            proof {
                assert forall|j: int| 0 <= j < rest.len() implies #[trigger] rest@[j]@ == ev[i + 1 + j] by {
                    assert(rest@[j] == before_rest[j + 1]);
                    assert(before_rest[j + 1]@ == ev[i + (j + 1)]);
                }
                assert(ev.take(i + 1).drop_last() =~= ev.take(i as int));
                assert(ev.take(i + 1).last() == e@);
            }
            if has_plugin_extension(e.file_name.as_str(), game_id) {
                let ghost kb = entries_view(kept@);
                let ghost evv = e@;
                kept.push(e);
                assert(entries_view(kept@) =~= kb.push(evv));
            }
            i = i + 1;
        }
        assert(ev.take(n as int) =~= ev);
        let sorted = sort_entries(game_id, kept);
        let mut res: Vec<String> = Vec::new();
        let mut k: usize = 0;
        while k < sorted.len()
            invariant
                k <= sorted.len(),
                strings_view(res@) == entries_view(sorted@).take(k as int).map_values(|e: PluginFileEntryView| e.path),
            decreases sorted.len() - k,
        {
            let ghost before = strings_view(res@);
            res.push(sorted[k].path.clone());
            assert(entries_view(sorted@).take(k + 1) =~= entries_view(sorted@).take(k as int).push(sorted@[k as int]@));
            assert(strings_view(res@) =~= before.push(sorted@[k as int]@.path));
            k = k + 1;
        }
        assert(entries_view(sorted@).take(sorted.len() as int) =~= entries_view(sorted@));
        res
    }
}

fn sort_entries(game_id: GameId, entries: Vec<PluginFileEntry>) -> (res: Vec<PluginFileEntry>)
    ensures
        entries_view(res@) == spec_sort_entries(game_id, entries_view(entries@)),
{
    let ghost ev = entries_view(entries@);
    let mut rest = entries;
    let mut sorted: Vec<PluginFileEntry> = Vec::new();
    let n = rest.len();
    let mut i: usize = 0;
    assert(ev.take(0) =~= Seq::<PluginFileEntryView>::empty());
    assert(entries_view(sorted@) =~= Seq::<PluginFileEntryView>::empty());
    while rest.len() > 0
        invariant
            i + rest.len() == n,
            n == ev.len(),
            forall|j: int| 0 <= j < rest.len() ==> #[trigger] rest@[j]@ == ev[i + j],
            entries_view(sorted@) == spec_sort_entries(game_id, ev.take(i as int)),
        decreases rest.len(),
    {
        let ghost before_rest = rest@;
        let x = rest.remove(0);
        proof {
            assert forall|j: int| 0 <= j < rest.len() implies #[trigger] rest@[j]@ == ev[i + 1 + j] by {
                assert(rest@[j] == before_rest[j + 1]);
                assert(before_rest[j + 1]@ == ev[i + (j + 1)]);
            }
            assert(ev.take(i + 1).drop_last() =~= ev.take(i as int));
            assert(ev.take(i + 1).last() == x@);
        }
        let ghost sv = entries_view(sorted@);
        let mut j: usize = 0;
        while j < sorted.len() && !entry_sorter(game_id, &x, &sorted[j])
            invariant
                j <= sorted.len(),
                sv == entries_view(sorted@),
                forall|t: int| 0 <= t < j ==> !(#[trigger] pred_entry_after(game_id, x@)(sv[t])),
            decreases sorted.len() - j,
        {
            assert(sv[j as int] == sorted@[j as int]@);
            j = j + 1;
        }
        proof {
            if j < sorted.len() {
                assert(sv[j as int] == sorted@[j as int]@);
                lemma_first_index_is(sv, pred_entry_after(game_id, x@), j as int);
            } else {
                lemma_first_index_none(sv, pred_entry_after(game_id, x@));
            }
        }
        let ghost xv = x@;
        let ghost old_len = sorted@.len();
        sorted.insert(j, x);
        proof {
            assert(entries_view(sorted@) =~= sv.insert(j as int, xv));
            if j == old_len {
                assert(sv.insert(j as int, xv) =~= sv.push(xv));
            }
        }
        i = i + 1;
    }
    assert(ev.take(n as int) =~= ev);
    sorted
}

/// No name is equated by `unicase::eq` with an earlier one.
pub open spec fn no_unicase_duplicates(names: Seq<Seq<char>>) -> bool {
    forall|i: int, j: int| 0 <= i < j < names.len() ==> !unicase_eq(#[trigger] names[i], #[trigger] names[j])
}

proof fn lemma_deduplicate_has_no_duplicates(names: Seq<Seq<char>>)
    ensures
        no_unicase_duplicates(spec_deduplicate(names)),
    decreases names.len(),
{
    if names.len() > 0 {
        lemma_deduplicate_has_no_duplicates(names.drop_last());
        let kept = spec_deduplicate(names.drop_last());
        if !names_contain(kept, names.last()) {
            let d = kept.push(names.last());
            assert forall|i: int, j: int| 0 <= i < j < d.len() implies !unicase_eq(#[trigger] d[i], #[trigger] d[j]) by {
                if j == kept.len() {
                    assert(d[i] == kept[i]);
                }
            }
        }
    }
}

proof fn lemma_deduplicate_fixed(names: Seq<Seq<char>>)
    requires
        no_unicase_duplicates(names),
    ensures
        spec_deduplicate(names) == names,
    decreases names.len(),
{
    if names.len() > 0 {
        let init = names.drop_last();
        assert(no_unicase_duplicates(init)) by {
            assert forall|i: int, j: int| 0 <= i < j < init.len() implies !unicase_eq(#[trigger] init[i], #[trigger] init[j]) by {
                assert(init[i] == names[i] && init[j] == names[j]);
            }
        }
        lemma_deduplicate_fixed(init);
        assert(!names_contain(init, names.last())) by {
            assert forall|k: int| 0 <= k < init.len() implies !unicase_eq(#[trigger] init[k], names.last()) by {
                assert(init[k] == names[k]);
                assert(names.last() == names[names.len() - 1]);
            }
        }
        assert(init.push(names.last()) =~= names);
    }
}

proof fn lemma_deduplicate_keeps_prefix(a: Seq<Seq<char>>, b: Seq<Seq<char>>)
    requires
        no_unicase_duplicates(a),
    ensures
        a.len() <= spec_deduplicate(a + b).len(),
        spec_deduplicate(a + b).take(a.len() as int) == a,
    decreases b.len(),
{
    if b.len() == 0 {
        assert(a + b =~= a);
        lemma_deduplicate_fixed(a);
        assert(a.take(a.len() as int) =~= a);
    } else {
        lemma_deduplicate_keeps_prefix(a, b.drop_last());
        assert((a + b).drop_last() =~= a + b.drop_last());
        let kept = spec_deduplicate(a + b.drop_last());
        assert(kept.push((a + b).last()).take(a.len() as int) =~= kept.take(a.len() as int));
    }
}

/// What a refresh of the implicitly active plugins sets: the early loading
/// plugins come first among the implicitly active plugins, in the same
/// order, and neither list holds a name that `unicase::eq` equates with an
/// earlier one. Fallout 4 and Starfield with test files keep the game's
/// hardcoded list as it is, so for them alone the law asks that list to
/// hold no such pair (`unicase::eq` is named, not stated, so that its
/// distinct ASCII names differ under it is not known here).
pub proof fn law_early_loading_plugins_lead_implicitly_active(game_id: GameId, inputs: ImplicitInputsView)
    requires
        (game_id == GameId::Fallout4 || game_id == GameId::Starfield)
            && spec_used_test_files(game_id, inputs.test_files, inputs.valid_test_files).len() > 0
            ==> no_unicase_duplicates(spec_hardcoded_plugins(game_id)),
    ensures
        ({
            let (early, implicit) = spec_load_implicitly_active_plugins(game_id, inputs);
            &&& early.len() <= implicit.len()
            &&& implicit.take(early.len() as int) == early
            &&& no_unicase_duplicates(early)
            &&& no_unicase_duplicates(implicit)
        }),
{
    let tests = spec_used_test_files(game_id, inputs.test_files, inputs.valid_test_files);
    let early = spec_early_loading_plugins(game_id, tests.len() > 0, inputs.ccc_lines, inputs.openmw_non_user_content);
    if !((game_id == GameId::Fallout4 || game_id == GameId::Starfield) && tests.len() > 0) {
        let with_ccc = spec_hardcoded_plugins(game_id) + match inputs.ccc_lines {
            Some(lines) => spec_non_empty(lines),
            None => Seq::empty(),
        };
        lemma_deduplicate_has_no_duplicates(if game_id == GameId::OpenMW { with_ccc + inputs.openmw_non_user_content } else { with_ccc });
    }
    assert(no_unicase_duplicates(early));
    let base = early + tests;
    let all = if game_id == GameId::FalloutNV {
        base + spec_find_nam_plugins(inputs.data_file_names)
    } else if game_id == GameId::Skyrim {
        base.push("Update.esm"@)
    } else if game_id == GameId::Starfield {
        base.push("BlueprintShips-Starfield.esm"@)
    } else {
        base
    };
    let rest = all.subrange(early.len() as int, all.len() as int);
    assert(all =~= early + rest);
    lemma_deduplicate_keeps_prefix(early, rest);
    lemma_deduplicate_has_no_duplicates(all);
}

} // verus!
