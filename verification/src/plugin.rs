//! Plugins: their filenames, and what the load order logic reads of them.
use vstd::prelude::*;
use vstd::string::*;

use crate::enums::{game_allows_plugin_ghosting, game_supports_light_plugins, Error, GameId};
use crate::ghostable_path::{
    as_unghosted_path, ghost_suffix, has_ghost_extension, spec_as_unghosted_path,
    spec_has_ghost_extension, GHOST_FILE_EXTENSION,
};
use esplugin::GameId as EspluginGame;

use crate::paths::{file_name, std_path_file_name};
use crate::text::{clone_strings, eq_icase, iends_with, iends_with_ascii, owned, strings_view, unicase_eq};

verus! {

/// The filename ends in one of the extensions that the game loads plugins
/// from.
pub open spec fn spec_has_plugin_extension(filename: Seq<char>, game: GameId) -> bool {
    if game == GameId::OpenMW {
        ||| iends_with(filename, ".esp"@)
        ||| iends_with(filename, ".esm"@)
        ||| iends_with(filename, ".omwaddon"@)
        ||| iends_with(filename, ".omwgame"@)
        ||| iends_with(filename, ".omwscripts"@)
    } else if game_supports_light_plugins(game) {
        ||| iends_with(filename, ".esp"@)
        ||| iends_with(filename, ".esm"@)
        ||| iends_with(filename, ".esp.ghost"@)
        ||| iends_with(filename, ".esm.ghost"@)
        ||| iends_with(filename, ".esl"@)
        ||| iends_with(filename, ".esl.ghost"@)
    } else {
        ||| iends_with(filename, ".esp"@)
        ||| iends_with(filename, ".esm"@)
        ||| iends_with(filename, ".esp.ghost"@)
        ||| iends_with(filename, ".esm.ghost"@)
    }
}

/// The string without a trailing `.ghost` (in any case).
pub open spec fn spec_trim_dot_ghost_unchecked(s: Seq<char>) -> Seq<char> {
    if iends_with(s, ghost_suffix()) {
        s.subrange(0, s.len() - ghost_suffix().len())
    } else {
        s
    }
}

/// The string without a trailing `.ghost`, for games that allow ghosting.
pub open spec fn spec_trim_dot_ghost(s: Seq<char>, game: GameId) -> Seq<char> {
    if game_allows_plugin_ghosting(game) {
        spec_trim_dot_ghost_unchecked(s)
    } else {
        s
    }
}

pub fn has_plugin_extension(filename: &str, game: GameId) -> (res: bool)
    ensures
        res == spec_has_plugin_extension(filename@, game),
{
    if game == GameId::OpenMW {
        iends_with_ascii(filename, ".esp") || iends_with_ascii(filename, ".esm")
            || iends_with_ascii(filename, ".omwaddon") || iends_with_ascii(filename, ".omwgame")
            || iends_with_ascii(filename, ".omwscripts")
    } else if game.supports_light_plugins() {
        iends_with_ascii(filename, ".esp") || iends_with_ascii(filename, ".esm")
            || iends_with_ascii(filename, ".esp.ghost") || iends_with_ascii(filename, ".esm.ghost")
            || iends_with_ascii(filename, ".esl") || iends_with_ascii(filename, ".esl.ghost")
    } else {
        iends_with_ascii(filename, ".esp") || iends_with_ascii(filename, ".esm")
            || iends_with_ascii(filename, ".esp.ghost") || iends_with_ascii(filename, ".esm.ghost")
    }
}

pub fn trim_dot_ghost_unchecked(string: &str) -> (res: &str)
    ensures
        res@ == spec_trim_dot_ghost_unchecked(string@),
{
    proof {
        reveal_strlit(".ghost");
        assert(".ghost"@ =~= ghost_suffix());
    }
    if iends_with_ascii(string, GHOST_FILE_EXTENSION) {
        let n = string.unicode_len();
        string.substring_char(0, n - 6)
    } else {
        string
    }
}

pub fn trim_dot_ghost(string: &str, game_id: GameId) -> (res: &str)
    ensures
        res@ == spec_trim_dot_ghost(string@, game_id),
{
    if game_id.allow_plugin_ghosting() {
        trim_dot_ghost_unchecked(string)
    } else {
        string
    }
}

/// What the load order logic reads of a plugin.
pub struct PluginView {
    pub name: Seq<char>,
    pub path: Seq<char>,
    pub game: GameId,
    pub active: bool,
    pub modification_time: int,
    pub is_master: bool,
    pub is_light: bool,
    pub is_medium: bool,
    pub is_blueprint: bool,
    pub masters: Seq<Seq<char>>,
}

/// The plugin is a master file with its blueprint flag set.
pub open spec fn spec_is_blueprint_master(p: PluginView) -> bool {
    p.is_blueprint && p.is_master
}

/// The plugin's name matches the given string, ignoring case and any ghost
/// extension of the string.
pub open spec fn spec_name_matches(p: PluginView, s: Seq<char>) -> bool {
    unicase_eq(p.name, spec_trim_dot_ghost(s, p.game))
}

/// One of the plugin's masters matches the given name.
pub open spec fn spec_has_master(p: PluginView, name: Seq<char>) -> bool {
    exists|i: int| 0 <= i < p.masters.len() && unicase_eq(#[trigger] p.masters[i], name)
}

/// The range within which modification times are held: that of std's
/// `SystemTime`, in nanoseconds, lies well within it.
pub open spec fn time_in_range(t: int) -> bool {
    -0x1_0000_0000_0000_0000_0000_0000 < t < 0x1_0000_0000_0000_0000_0000_0000
}

/// The plugin header data that the load order logic uses, as parsed from a
/// plugin file.
#[derive(Clone, Debug)]
pub struct PluginHeader {
    pub is_master_file: bool,
    pub is_light_plugin: bool,
    pub is_medium_plugin: bool,
    pub is_blueprint_plugin: bool,
    pub masters: Vec<String>,
}

/// Activating the plugin unghosts it: it is inactive, and ghosted for a
/// game that allows ghosting.
pub open spec fn spec_unghosts_on_activation(p: PluginView) -> bool {
    !p.active && game_allows_plugin_ghosting(p.game) && spec_has_ghost_extension(p.path)
}

/// The plugin's path once it is activated.
pub open spec fn spec_activated_path(p: PluginView) -> Seq<char> {
    if spec_unghosts_on_activation(p) && spec_as_unghosted_path(p.path) is Ok {
        spec_as_unghosted_path(p.path)->Ok_0
    } else {
        p.path
    }
}

/// The header data of a plugin, as the load order logic reads it.
pub struct PluginHeaderView {
    pub is_master_file: bool,
    pub is_light_plugin: bool,
    pub is_medium_plugin: bool,
    pub is_blueprint_plugin: bool,
    pub masters: Seq<Seq<char>>,
}

impl PluginHeader {
    pub open spec fn spec_view(&self) -> PluginHeaderView {
        PluginHeaderView {
            is_master_file: self.is_master_file,
            is_light_plugin: self.is_light_plugin,
            is_medium_plugin: self.is_medium_plugin,
            is_blueprint_plugin: self.is_blueprint_plugin,
            masters: strings_view(self.masters@),
        }
    }
}

/// What esplugin reads of the header of a plugin with the given path and
/// content, for the given game: `None` where esplugin fails to parse it.
pub uninterp spec fn esplugin_header(game: GameId, path: Seq<char>, data: Seq<u8>) -> Option<PluginHeaderView>;

#[verifier::external_type_specification]
pub struct ExEsPluginGameId(EspluginGame);

/// The game as esplugin identifies it: OpenMW's plugins are Morrowind's,
/// and the VR editions' are those of the games they were made from.
pub open spec fn spec_esplugin_id(game: GameId) -> EspluginGame {
    match game {
        GameId::Morrowind | GameId::OpenMW => EspluginGame::Morrowind,
        GameId::Oblivion => EspluginGame::Oblivion,
        GameId::Skyrim => EspluginGame::Skyrim,
        GameId::SkyrimSE | GameId::SkyrimVR => EspluginGame::SkyrimSE,
        GameId::Fallout3 => EspluginGame::Fallout3,
        GameId::FalloutNV => EspluginGame::FalloutNV,
        GameId::Fallout4 | GameId::Fallout4VR => EspluginGame::Fallout4,
        GameId::Starfield => EspluginGame::Starfield,
    }
}

impl GameId {
    /// The game as esplugin identifies it.
    pub fn to_esplugin_id(self) -> (res: EspluginGame)
        ensures
            res == spec_esplugin_id(self),
    {
        match self {
            GameId::Morrowind | GameId::OpenMW => EspluginGame::Morrowind,
            GameId::Oblivion => EspluginGame::Oblivion,
            GameId::Skyrim => EspluginGame::Skyrim,
            GameId::SkyrimSE | GameId::SkyrimVR => EspluginGame::SkyrimSE,
            GameId::Fallout3 => EspluginGame::Fallout3,
            GameId::FalloutNV => EspluginGame::FalloutNV,
            GameId::Fallout4 | GameId::Fallout4VR => EspluginGame::Fallout4,
            GameId::Starfield => EspluginGame::Starfield,
        }
    }
}

/// Parses the header of the plugin at `path`, whose content is `data`, with
/// esplugin (`Plugin::new` for the esplugin game `esplugin_game`, which is
/// the one that `game` maps to, then `Plugin::parse_reader` with
/// header-only parsing, then its `is_master_file`, `is_light_plugin`,
/// `is_medium_plugin`, `is_blueprint_plugin` and `masters`).
///
/// The header is named by `esplugin_header`, an error by its being `None`;
/// an error carries the path and esplugin's message.
#[verifier::external_body]
fn parse_plugin_header(game: GameId, esplugin_game: EspluginGame, path: &str, data: &[u8]) -> (res: Result<PluginHeader, Error>)
    requires
        esplugin_game == spec_esplugin_id(game),
    ensures
        match res {
            Ok(h) => esplugin_header(game, path@, data@) == Some(h.spec_view()),
            Err(e) => esplugin_header(game, path@, data@) is None && ((e matches Error::IoError(p, _) && p@ == path@) || (e matches Error::PluginParsingError(p, _) && p@ == path@)),
        },
{
    let mut p = esplugin::Plugin::new(esplugin_game, std::path::Path::new(path));
    let e = match p.parse_reader(std::io::Cursor::new(data), esplugin::ParseOptions::header_only()).and_then(|_| p.masters()) {
        Ok(masters) => return Ok(PluginHeader { is_master_file: p.is_master_file(), is_light_plugin: p.is_light_plugin(), is_medium_plugin: p.is_medium_plugin(), is_blueprint_plugin: p.is_blueprint_plugin(), masters }),
        Err(e) => e,
    };
    match e {
        esplugin::Error::IoError(x) => Err(Error::IoError(path.to_string(), x.to_string())),
        e => Err(Error::PluginParsingError(path.to_string(), e.to_string())),
    }
}

/// The plugin made from a path and header data: its name is the path's
/// filename without any ghost extension. `None` where the path has no
/// filename or the filename has no plugin extension.
pub open spec fn spec_plugin_from_header(
    path: Seq<char>,
    game: GameId,
    active: bool,
    time: int,
    h: PluginHeaderView,
) -> PluginView {
    PluginView {
        name: spec_trim_dot_ghost(std_path_file_name(path)->0, game),
        path,
        game,
        active,
        modification_time: time,
        is_master: game != GameId::OpenMW && h.is_master_file,
        is_light: h.is_light_plugin,
        is_medium: h.is_medium_plugin,
        is_blueprint: h.is_blueprint_plugin,
        masters: h.masters,
    }
}

/// The header of a plugin that esplugin does not parse (`.omwscripts`).
pub open spec fn empty_header() -> PluginHeaderView {
    PluginHeaderView {
        is_master_file: false,
        is_light_plugin: false,
        is_medium_plugin: false,
        is_blueprint_plugin: false,
        masters: Seq::empty(),
    }
}

/// A plugin: its name and path, whether it is active, its modification time
/// (in nanoseconds relative to the Unix epoch) and its header data.
#[derive(Debug)]
pub struct Plugin {
    active: bool,
    modification_time: i128,
    path: String,
    renamed_from: Option<String>,
    name: String,
    game_id: GameId,
    is_master: bool,
    is_light: bool,
    is_medium: bool,
    is_blueprint: bool,
    masters: Vec<String>,
}

impl View for Plugin {
    type V = PluginView;

    closed spec fn view(&self) -> PluginView {
        PluginView {
            name: self.name@,
            path: self.path@,
            game: self.game_id,
            active: self.active,
            modification_time: self.modification_time as int,
            is_master: self.is_master,
            is_light: self.is_light,
            is_medium: self.is_medium,
            is_blueprint: self.is_blueprint,
            masters: strings_view(self.masters@),
        }
    }
}

impl Clone for Plugin {
    fn clone(&self) -> (res: Plugin)
        ensures
            res@ == self@,
            res.spec_renamed_from() == self.spec_renamed_from(),
            res.wf() == self.wf(),
    {
        Plugin {
            active: self.active,
            modification_time: self.modification_time,
            path: self.path.clone(),
            renamed_from: match &self.renamed_from {
                Some(s) => Some(s.clone()),
                None => None,
            },
            name: self.name.clone(),
            game_id: self.game_id,
            is_master: self.is_master,
            is_light: self.is_light,
            is_medium: self.is_medium,
            is_blueprint: self.is_blueprint,
            masters: clone_strings(&self.masters),
        }
    }
}

impl Plugin {
    /// Makes a plugin from its path, activity, modification time and header.
    pub fn with_header(
        path: &str,
        game_id: GameId,
        active: bool,
        modification_time: i128,
        header: PluginHeader,
    ) -> (res: Result<Plugin, Error>)
        requires
            time_in_range(modification_time as int),
        ensures
            match res {
                Ok(p) => {
                    &&& std_path_file_name(path@) matches Some(f)
                    &&& spec_has_plugin_extension(f, game_id)
                    &&& p@ == spec_plugin_from_header(path@, game_id, active, modification_time as int, header.spec_view())
                    &&& p.wf()
                    &&& p.spec_renamed_from() is None
                },
                Err(e) => {
                    ||| (std_path_file_name(path@) is None && (e matches Error::NoFilename(x) && x@ == path@))
                    ||| (std_path_file_name(path@) matches Some(f) && !spec_has_plugin_extension(f, game_id)
                        && (e matches Error::InvalidPath(x) && x@ == path@))
                },
            },
    {
        let filename = match file_name(path) {
            Some(n) => n,
            None => return Err(Error::NoFilename(owned(path))),
        };
        if !has_plugin_extension(filename.as_str(), game_id) {
            return Err(Error::InvalidPath(owned(path)));
        }
        let name = owned(trim_dot_ghost(filename.as_str(), game_id));
        Ok(Plugin {
            active,
            modification_time,
            path: owned(path),
            renamed_from: None,
            name,
            game_id,
            is_master: game_id != GameId::OpenMW && header.is_master_file,
            is_light: header.is_light_plugin,
            is_medium: header.is_medium_plugin,
            is_blueprint: header.is_blueprint_plugin,
            masters: header.masters,
        })
    }

    /// Makes a plugin from its path and its file's content and modification
    /// time: the header is parsed by esplugin, except for OpenMW's
    /// `.omwscripts` files, which are not of the same file format.
    pub fn with_path(
        path: &str,
        game_id: GameId,
        active: bool,
        modification_time: i128,
        data: &[u8],
    ) -> (res: Result<Plugin, Error>)
        requires
            time_in_range(modification_time as int),
        ensures
            match res {
                Ok(p) => {
                    &&& std_path_file_name(path@) matches Some(f)
                    &&& spec_has_plugin_extension(f, game_id)
                    &&& (if iends_with(f, ".omwscripts"@) {
                        p@ == spec_plugin_from_header(path@, game_id, active, modification_time as int, empty_header())
                    } else {
                        esplugin_header(game_id, path@, data@) matches Some(h)
                        && p@ == spec_plugin_from_header(path@, game_id, active, modification_time as int, h)
                    })
                    &&& p.wf()
                    &&& p.spec_renamed_from() is None
                },
                Err(e) => {
                    ||| (std_path_file_name(path@) is None && (e matches Error::NoFilename(x) && x@ == path@))
                    ||| (std_path_file_name(path@) matches Some(f) && !spec_has_plugin_extension(f, game_id)
                        && (e matches Error::InvalidPath(x) && x@ == path@))
                    ||| (std_path_file_name(path@) matches Some(f) && spec_has_plugin_extension(f, game_id)
                        && !iends_with(f, ".omwscripts"@) && esplugin_header(game_id, path@, data@) is None)
                },
            },
    {
        let filename = match file_name(path) {
            Some(n) => n,
            None => return Err(Error::NoFilename(owned(path))),
        };
        if !has_plugin_extension(filename.as_str(), game_id) {
            return Err(Error::InvalidPath(owned(path)));
        }
        let header = if iends_with_ascii(filename.as_str(), ".omwscripts") {
            let h = PluginHeader {
                is_master_file: false,
                is_light_plugin: false,
                is_medium_plugin: false,
                is_blueprint_plugin: false,
                masters: Vec::new(),
            };
            assert(h.spec_view().masters =~= Seq::<Seq<char>>::empty());
            h
        } else {
            parse_plugin_header(game_id, game_id.to_esplugin_id(), path, data)?
        };
        Plugin::with_header(path, game_id, active, modification_time, header)
    }

    /// The pending rename of a plugin file, if its activation unghosted it.
    pub closed spec fn spec_renamed_from(&self) -> Option<Seq<char>> {
        match self.renamed_from {
            Some(s) => Some(s@),
            None => None,
        }
    }

    pub closed spec fn wf(&self) -> bool {
        time_in_range(self.modification_time as int)
    }

    pub fn name(&self) -> (res: &str)
        ensures
            res@ == self@.name,
    {
        self.name.as_str()
    }

    pub fn path(&self) -> (res: &str)
        ensures
            res@ == self@.path,
    {
        self.path.as_str()
    }

    pub fn game_id(&self) -> (res: GameId)
        ensures
            res == self@.game,
    {
        self.game_id
    }

    pub fn name_matches(&self, string: &str) -> (res: bool)
        ensures
            res == spec_name_matches(self@, string@),
    {
        eq_icase(self.name.as_str(), trim_dot_ghost(string, self.game_id))
    }

    pub fn modification_time(&self) -> (res: i128)
        ensures
            res == self@.modification_time,
    {
        self.modification_time
    }

    pub fn is_active(&self) -> (res: bool)
        ensures
            res == self@.active,
    {
        self.active
    }

    pub fn is_master_file(&self) -> (res: bool)
        ensures
            res == self@.is_master,
    {
        self.is_master
    }

    pub fn is_light_plugin(&self) -> (res: bool)
        ensures
            res == self@.is_light,
    {
        self.is_light
    }

    pub fn is_medium_plugin(&self) -> (res: bool)
        ensures
            res == self@.is_medium,
    {
        self.is_medium
    }

    pub fn is_blueprint_plugin(&self) -> (res: bool)
        ensures
            res == self@.is_blueprint,
    {
        self.is_blueprint
    }

    pub fn is_blueprint_master(&self) -> (res: bool)
        ensures
            res == spec_is_blueprint_master(self@),
    {
        self.is_blueprint && self.is_master
    }

    pub fn masters(&self) -> (res: &Vec<String>)
        ensures
            strings_view(res@) == self@.masters,
    {
        &self.masters
    }

    /// Whether one of the plugin's masters matches the given name.
    pub fn has_master(&self, name: &str) -> (res: bool)
        ensures
            res == spec_has_master(self@, name@),
    {
        let mut i: usize = 0;
        while i < self.masters.len()
            invariant
                i <= self.masters.len(),
                forall|j: int|
                    0 <= j < i ==> !unicase_eq(#[trigger] self@.masters[j], name@),
            decreases self.masters.len() - i,
        {
            if eq_icase(self.masters[i].as_str(), name) {
                assert(self@.masters[i as int] == self.masters@[i as int]@);
                return true;
            }
            i = i + 1;
        }
        false
    }

    pub fn set_modification_time(&mut self, time: i128)
        requires
            time_in_range(time as int),
        ensures
            final(self)@ == (PluginView { modification_time: time as int, ..old(self)@ }),
            final(self).wf(),
            final(self).spec_renamed_from() == old(self).spec_renamed_from(),
    {
        self.modification_time = time;
    }

    /// Activates the plugin. A ghosted plugin of a game that allows ghosting
    /// is unghosted: its path loses the ghost extension, and the rename of
    /// its file is left pending (see `take_pending_rename`).
    pub fn activate(&mut self) -> (res: Result<(), Error>)
        ensures
            match res {
                Ok(()) => {
                    &&& final(self)@ == (PluginView {
                        active: true,
                        path: spec_activated_path(old(self)@),
                        ..old(self)@
                    })
                    &&& final(self).spec_renamed_from() == (if spec_unghosts_on_activation(old(self)@)
                        && old(self).spec_renamed_from() is None {
                        Some(old(self)@.path)
                    } else {
                        old(self).spec_renamed_from()
                    })
                },
                Err(e) => {
                    &&& spec_unghosts_on_activation(old(self)@)
                    &&& spec_as_unghosted_path(old(self)@.path) is Err
                    &&& e matches Error::NoFilename(x) && x@ == old(self)@.path
                    &&& final(self)@ == old(self)@
                    &&& final(self).spec_renamed_from() == old(self).spec_renamed_from()
                },
            },
            old(self).wf() ==> final(self).wf(),
            (res is Ok) == !(spec_unghosts_on_activation(old(self)@) && spec_as_unghosted_path(old(self)@.path) is Err),
    {
        if !self.active {
            if self.game_id.allow_plugin_ghosting() && has_ghost_extension(self.path.as_str()) {
                let new_path = as_unghosted_path(self.path.as_str())?;
                let old_path = self.path.clone();
                self.path = new_path;
                if self.renamed_from.is_none() {
                    self.renamed_from = Some(old_path);
                }
            }
            self.active = true;
        }
        Ok(())
    }

    /// The rename that the plugin's unghosting left pending, from the old
    /// path to the current one; afterwards none is pending.
    pub fn take_pending_rename(&mut self) -> (res: Option<(String, String)>)
        ensures
            final(self)@ == old(self)@,
            final(self).spec_renamed_from() is None,
            old(self).wf() ==> final(self).wf(),
            match res {
                Some((from, to)) => old(self).spec_renamed_from() == Some(from@) && to@ == old(self)@.path,
                None => old(self).spec_renamed_from() is None,
            },
    {
        match self.renamed_from.take() {
            Some(from) => Some((from, self.path.clone())),
            None => None,
        }
    }

    pub fn deactivate(&mut self)
        ensures
            final(self)@ == (PluginView { active: false, ..old(self)@ }),
            old(self).wf() ==> final(self).wf(),
            final(self).spec_renamed_from() == old(self).spec_renamed_from(),
    {
        self.active = false;
    }
}

} // verus!
