//! Verified core of an Elden Ring practice tool: memory-patch decisions,
//! game-version tables, configuration rules, text formatting and the
//! parameter-layout code generator.

pub mod numfmt;
pub mod memedit;
pub mod flags;
pub mod version;
pub mod pointers;
pub mod target;
pub mod matching;
pub mod items;
pub mod item_spawn;
pub mod hud;
pub mod config;
pub mod update;
pub mod paramdef;
pub mod bitfields;
pub mod widgets;
pub mod params;
pub mod launch;
pub mod keys;
pub mod hexdump;
pub mod paths;

