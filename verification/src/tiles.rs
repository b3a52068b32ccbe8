//! Tile identifiers of the dungeon tileset and the classes the generator
//! sorts them into.

use vstd::prelude::*;

verus! {

/// Name under which the map refers to its tileset.
pub const TILESET_MAP_ID: &'static str = "tiny_dungeon";

pub const WALL_01_TILE_ID: u32 = 0;
pub const WALL_02_TILE_ID: u32 = 12;
pub const WALL_03_TILE_ID: u32 = 24;

pub const WALL_UP_TILE_ID: u32 = 2;
pub const WALL_DOWN_TILE_ID: u32 = 26;
pub const WALL_LEFT_TILE_ID: u32 = 13;
pub const WALL_RIGHT_TILE_ID: u32 = 15;
pub const WALL_INNER_UL_ID: u32 = 1;
pub const WALL_INNER_UR_ID: u32 = 3;
pub const WALL_INNER_DL_ID: u32 = 25;
pub const WALL_INNER_DR_ID: u32 = 27;
pub const WALL_OUTER_UL_ID: u32 = 4;
pub const WALL_OUTER_UR_ID: u32 = 5;
pub const WALL_OUTER_DL_ID: u32 = 16;
pub const WALL_OUTER_DR_ID: u32 = 17;

pub const FACADE_CENTER_TILE_ID: u32 = 40;
pub const FACADE_LEFT_TILE_ID: u32 = 57;
pub const FACADE_RIGHT_TILE_ID: u32 = 59;
pub const FACADE_CENTER_02_TILE_ID: u32 = 14;

pub const GROUND_01_TILE_ID: u32 = 48;
pub const GROUND_02_TILE_ID: u32 = 49;
pub const GROUND_03_TILE_ID: u32 = 42;

pub const DOOR_LEFT_CLOSED_TILE_ID: u32 = 46;
pub const DOOR_RIGHT_CLOSED_TILE_ID: u32 = 47;
pub const DOOR_LEFT_OPEN_TILE_ID: u32 = 10;
pub const DOOR_RIGHT_OPEN_TILE_ID: u32 = 11;

pub const STAIRS_LEFT_TILE_ID: u32 = 36;
pub const STAIRS_RIGHT_TILE_ID: u32 = 38;

pub const MONSTER_PIPE_CLOSED_TILE_ID: u32 = 19;
pub const MONSTER_PIPE_OPEN_TILE_ID: u32 = 20;

pub const POOL_EMPTY_TILE_ID: u32 = 31;
pub const POOL_FULL_TILE_ID: u32 = 32;

/// The wall class: the plain wall, its two cosmetic variants, and every
/// edge and corner tile.
pub open spec fn is_wall_class(id: u32) -> bool {
    id == WALL_01_TILE_ID || id == WALL_02_TILE_ID || id == WALL_03_TILE_ID
        || id == WALL_UP_TILE_ID || id == WALL_DOWN_TILE_ID || id == WALL_LEFT_TILE_ID
        || id == WALL_RIGHT_TILE_ID || id == WALL_INNER_UL_ID || id == WALL_INNER_UR_ID
        || id == WALL_INNER_DL_ID || id == WALL_INNER_DR_ID || id == WALL_OUTER_UL_ID
        || id == WALL_OUTER_UR_ID || id == WALL_OUTER_DL_ID || id == WALL_OUTER_DR_ID
}

/// Whether a tile id belongs to the wall class.
pub fn is_wall_tile(id: u32) -> (r: bool)
    ensures
        r == is_wall_class(id),
{
    id == WALL_01_TILE_ID || id == WALL_02_TILE_ID || id == WALL_03_TILE_ID
        || id == WALL_UP_TILE_ID || id == WALL_DOWN_TILE_ID || id == WALL_LEFT_TILE_ID
        || id == WALL_RIGHT_TILE_ID || id == WALL_INNER_UL_ID || id == WALL_INNER_UR_ID
        || id == WALL_INNER_DL_ID || id == WALL_INNER_DR_ID || id == WALL_OUTER_UL_ID
        || id == WALL_OUTER_UR_ID || id == WALL_OUTER_DL_ID || id == WALL_OUTER_DR_ID
}

} // verus!
