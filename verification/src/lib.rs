//! Codecs for the asset and save files of an RPG engine: the keyed image
//! container, the sprite grid cut out of a decoded sheet, and the compressed
//! JSON text that holds the save list.

pub mod encryption_key;
pub mod error;
pub mod image;
pub mod save;
pub mod global;
pub mod browser;
