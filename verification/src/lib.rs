//! Parsers for the binary asset formats of a 1998 adventure game engine:
//! textures, palettes, fonts, models, object archives, scenes, terrain,
//! collision octrees, sound effects and dialogue containers.
pub mod assoc;
pub mod commands;
pub mod bytes;
pub mod error;
pub mod import;
pub mod text;

pub use error::Result;
