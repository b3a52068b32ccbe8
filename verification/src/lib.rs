//! Procedural dungeon layouts: rooms joined by corridors on a tile grid,
//! walls dressed with edge, corner and facade tiles, and gated doorways.

pub mod cleanup;
pub mod detail;
pub mod door;
pub mod doors;
pub mod dressing;
pub mod filler;
pub mod generator;
pub mod grid;
pub mod random;
pub mod rooms;
pub mod scan;
pub mod solid;
pub mod state;
pub mod tiles;
pub mod walls;
