//! Load order and active plugin management for Bethesda games and OpenMW.
#![verifier::loop_isolation(false)]
pub mod encoding;
pub mod enums;
pub mod game_settings;
pub mod ghostable_path;
pub mod ini;
pub mod load_order;
pub mod message;
pub mod openmw_config;
pub mod paths;
pub mod plugin;
pub mod seqs;
pub mod text;
pub mod vdf;

pub use crate::enums::{Error, GameId, LoadOrderMethod};
pub use crate::game_settings::GameSettings;
pub use crate::load_order::readable::ReadableLoadOrder;
pub use crate::load_order::LoadOrder;
pub use crate::plugin::Plugin;
