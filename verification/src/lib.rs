//! Normalisation of tileset descriptions.
//!
//! A tile map editor writes the same tileset in two encodings: a key-value
//! encoding, and a tag encoding that carries numbers as text, wraps single
//! records in containers and repeats child tags. This crate turns a parsed
//! document of either encoding into one strongly typed [`Tileset`], or into a
//! precise [`Error`].
pub mod error;
pub mod text;
pub mod json;
pub mod wire;
pub mod coerce;
pub mod round;
pub mod points;
pub mod object;
pub mod tileset;
pub mod laws;

pub use error::Error;
pub use error::Field;
pub use json::Json;
pub use json::Number;
pub use object::Object;
pub use object::ObjectLayer;
pub use object::ObjectType;
pub use tileset::Frame;
pub use tileset::Image;
pub use tileset::Metadata;
pub use tileset::Tile;
pub use tileset::Tileset;
