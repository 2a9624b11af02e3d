use vstd::prelude::*;

verus! {

/// The mechanism that a game uses to decide the order in which plugins load.
#[derive(Clone, Copy, PartialEq, Eq, Debug, Hash, Structural)]
#[non_exhaustive]
pub enum LoadOrderMethod {
    Timestamp,
    Textfile,
    Asterisk,
    OpenMW,
}

/// The games whose load orders this library manages.
#[derive(Clone, Copy, PartialEq, Eq, Debug, Hash, Structural)]
#[non_exhaustive]
pub enum GameId {
    Morrowind,
    Oblivion,
    Skyrim,
    Fallout3,
    FalloutNV,
    Fallout4,
    SkyrimSE,
    Fallout4VR,
    SkyrimVR,
    Starfield,
    OpenMW,
}

/// Whether the game supports light plugins (`.esl` files and the light flag).
pub open spec fn game_supports_light_plugins(game: GameId) -> bool {
    game == GameId::Fallout4 || game == GameId::Fallout4VR || game == GameId::SkyrimSE
        || game == GameId::SkyrimVR || game == GameId::Starfield
}

/// Whether the game loads plugins that carry a `.ghost` file extension.
pub open spec fn game_allows_plugin_ghosting(game: GameId) -> bool {
    game != GameId::OpenMW
}

impl GameId {
    pub fn supports_light_plugins(self) -> (res: bool)
        ensures
            res == game_supports_light_plugins(self),
    {
        match self {
            GameId::Fallout4 | GameId::Fallout4VR | GameId::SkyrimSE | GameId::SkyrimVR
            | GameId::Starfield => true,
            _ => false,
        }
    }

    pub fn allow_plugin_ghosting(self) -> (res: bool)
        ensures
            res == game_allows_plugin_ghosting(self),
    {
        self != GameId::OpenMW
    }
}

/// The errors that the library's operations can fail with.
///
/// Paths are carried as strings, and the details of errors raised by the
/// operating system or by a parser are carried as their messages.
#[derive(Clone, Debug, PartialEq, Eq)]
#[non_exhaustive]
pub enum Error {
    InvalidPath(String),
    IoError(String, String),
    NoFilename(String),
    DecodeError(Vec<u8>),
    EncodeError(String),
    PluginParsingError(String, String),
    PluginNotFound(String),
    TooManyActivePlugins { light_count: usize, medium_count: usize, full_count: usize },
    DuplicatePlugin(String),
    NonMasterBeforeMaster { master: String, non_master: String },
    InvalidEarlyLoadingPluginPosition { name: String, pos: usize, expected_pos: usize },
    ImplicitlyActivePlugin(String),
    NoLocalAppData,
    NoDocumentsPath,
    NoUserConfigPath,
    NoUserDataPath,
    NoProgramFilesPath,
    UnrepresentedHoist { plugin: String, master: String },
    InstalledPlugin(String),
    IniParsingError { path: String, line: usize, column: usize, message: String },
    VdfParsingError(String, String),
    SystemError(i32, String),
    InvalidBlueprintPluginPosition { name: String, pos: usize, expected_pos: usize },
}

} // verus!
