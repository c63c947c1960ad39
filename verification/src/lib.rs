//! Data model and rules of a map editor for Cataclysm: Dark Days Ahead
//! mapgen files: palettes, parameters, map objects, region settings,
//! legacy tilesets and the neighbour rules that pick multitile sprites.

pub mod common;
pub mod random;
pub mod coordinates;
pub mod table;
pub mod palettes;
pub mod map;
pub mod resolve;
pub mod loader;
pub mod region_settings;
pub mod text;
pub mod tileset;
pub mod graphics;
pub mod sprites;
pub mod settings;
pub mod state;
pub mod textures;
pub mod events;
pub mod drawing;
