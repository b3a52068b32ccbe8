//! Doors in play: a guard door stands open until it is closed behind a
//! guard, the exit stands closed until it is opened.

use crate::grid::{group_grid, Coord, GridView, TileGrid};
use crate::tiles::{
    DOOR_LEFT_CLOSED_TILE_ID, DOOR_LEFT_OPEN_TILE_ID, DOOR_RIGHT_CLOSED_TILE_ID,
    DOOR_RIGHT_OPEN_TILE_ID, MONSTER_PIPE_OPEN_TILE_ID, POOL_FULL_TILE_ID,
};
use vstd::prelude::*;

verus! {

broadcast use group_grid;

/// The grid with the leaves of the door at `(x, y)` closed.
pub open spec fn with_closed_door(g: GridView, x: int, y: int) -> GridView {
    g.put(x + 1, y, Some(DOOR_LEFT_CLOSED_TILE_ID)).put(x + 2, y, Some(DOOR_RIGHT_CLOSED_TILE_ID))
}

/// The grid with the exit at `(x, y)` opened: open pipes and open leaves
/// in the row of the door, full pools at both ends of the row beneath. The
/// stairs between the pools stay.
pub open spec fn with_open_exit(g: GridView, x: int, y: int) -> GridView {
    g.put(x, y, Some(MONSTER_PIPE_OPEN_TILE_ID)).put(x + 1, y, Some(DOOR_LEFT_OPEN_TILE_ID)).put(
        x + 2,
        y,
        Some(DOOR_RIGHT_OPEN_TILE_ID),
    ).put(x + 3, y, Some(MONSTER_PIPE_OPEN_TILE_ID)).put(x, y + 1, Some(POOL_FULL_TILE_ID)).put(
        x + 3,
        y + 1,
        Some(POOL_FULL_TILE_ID),
    )
}

/// A guard door at its place in the grid.
#[derive(Clone, Copy, Debug, PartialEq, Eq, Structural)]
pub struct GuardDoor {
    pub position: Coord,
    pub is_open: bool,
}

impl GuardDoor {
    /// An open guard door at `position`.
    pub fn create(position: Coord) -> (door: Self)
        ensures
            door.position == position,
            door.is_open,
    {
        GuardDoor { position, is_open: true }
    }

    /// Closes the door: its two leaves in the grid become closed leaves.
    pub fn close_door(&mut self, layer: &mut TileGrid)
        requires
            old(layer).wf(),
            old(self).position.x + 2 < old(layer).width,
            old(self).position.y < old(layer).height,
        ensures
            final(self).position == old(self).position,
            !final(self).is_open,
            final(layer)@ == with_closed_door(
                old(layer)@,
                old(self).position.x as int,
                old(self).position.y as int,
            ),
            final(layer).wf(),
    {
        self.is_open = false;
        layer.set(self.position.x + 1, self.position.y, Some(DOOR_LEFT_CLOSED_TILE_ID));
        layer.set(self.position.x + 2, self.position.y, Some(DOOR_RIGHT_CLOSED_TILE_ID));
    }
}

/// The exit at its place in the grid.
#[derive(Clone, Copy, Debug, PartialEq, Eq, Structural)]
pub struct ExitDoor {
    pub position: Coord,
    pub is_open: bool,
}

impl ExitDoor {
    /// A closed exit at `position`.
    pub fn create(position: Coord) -> (door: Self)
        ensures
            door.position == position,
            !door.is_open,
    {
        ExitDoor { position, is_open: false }
    }

    /// Opens the exit: pipes and leaves in the grid become open ones, and
    /// the pools beneath fill.
    pub fn open_door(&mut self, layer: &mut TileGrid)
        requires
            old(layer).wf(),
            old(self).position.x + 3 < old(layer).width,
            old(self).position.y + 1 < old(layer).height,
        ensures
            final(self).position == old(self).position,
            final(self).is_open,
            final(layer)@ == with_open_exit(
                old(layer)@,
                old(self).position.x as int,
                old(self).position.y as int,
            ),
            final(layer).wf(),
    {
        self.is_open = true;
        let x = self.position.x;
        let y = self.position.y;
        layer.set(x, y, Some(MONSTER_PIPE_OPEN_TILE_ID));
        layer.set(x + 1, y, Some(DOOR_LEFT_OPEN_TILE_ID));
        layer.set(x + 2, y, Some(DOOR_RIGHT_OPEN_TILE_ID));
        layer.set(x + 3, y, Some(MONSTER_PIPE_OPEN_TILE_ID));
        layer.set(x, y + 1, Some(POOL_FULL_TILE_ID));
        layer.set(x + 3, y + 1, Some(POOL_FULL_TILE_ID));
    }
}

} // verus!
