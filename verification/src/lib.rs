//! Reader, writer and construction tools for the world file format of a
//! tile-based puzzle game: a binary document holding a header zone plus a
//! sequence of self-delimited payload records ("stems"), one describing the
//! world and one per room, each room carrying five layers of tiles.
//!
//! The crate owns three pieces of logic: the tile taxonomy (wire tags and
//! classification predicates), the binary codec (including the two-pass
//! offset back-patching writer), and the tilemap layering engine that
//! enforces the game's mutual-exclusion rules between layers.

pub mod builder;
pub mod data;
pub mod decode;
pub mod encode;
pub mod guid;
pub mod parse;
pub mod roundtrip;
pub mod selection;
pub mod sink;
pub mod tags;
pub mod tilemap;
pub mod tiles;
pub mod views;
pub mod wire;
