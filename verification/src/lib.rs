//! Level descriptions for krpano panoramas.
//!
//! A krpano configuration declares images as a tree of levels and shapes.
//! This crate tokenizes the tile URL templates, parses the `multires`
//! resolution ladders, and flattens a declaration tree into the list of
//! level descriptions that a tile consumer works from.

pub mod chars;
pub mod metadata;
pub mod multires;
pub mod template;
pub mod vec2d;

pub use vec2d::Vec2d;
