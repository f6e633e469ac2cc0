//! A terminal Sokoban engine: level loading with flood-fill tile
//! classification, a world model with push-move resolution, and a
//! multi-resolution glyph renderer.

pub mod colors;
pub mod grid;
pub mod level_select;
pub mod menu;
pub mod render;
pub mod soko_game;
pub mod soko_loader;
pub mod sprites;
pub mod types;

pub use colors::get_color;
pub use colors::Rgb;
pub use colors::TolColor;
