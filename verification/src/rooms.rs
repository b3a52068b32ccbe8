//! Rooms and corridors: rectangles of ground carved into a grid of wall,
//! each new room joined to the one placed before it.

use crate::generator::{MapGenError, MapGenerator};
use crate::grid::{group_grid, lemma_index_in_range, Coord, GridView, TileGrid};
use crate::random::{random_in_range, RANDOM_RANGE_LIMIT};
use vstd::prelude::*;

verus! {

broadcast use group_grid;

/// A room: the rectangle of cells in columns `x .. x + width` and rows
/// `y .. y + height`.
#[derive(Clone, Copy, Debug, PartialEq, Eq, Structural)]
pub struct Room {
    pub x: u32,
    pub y: u32,
    pub width: u32,
    pub height: u32,
}

impl Room {
    /// The two rectangles share a point, their edges included: rooms that
    /// merely touch overlap.
    pub open spec fn spec_overlaps(self, other: Room) -> bool {
        &&& self.x <= other.x + other.width
        &&& self.x + self.width >= other.x
        &&& self.y <= other.y + other.height
        &&& self.y + self.height >= other.y
    }

    /// Whether the two rectangles share a point, their edges included.
    pub fn overlaps(&self, other: &Room) -> (r: bool)
        ensures
            r == self.spec_overlaps(*other),
    {
        self.x as u64 <= other.x as u64 + other.width as u64 && self.x as u64 + self.width as u64
            >= other.x as u64 && self.y as u64 <= other.y as u64 + other.height as u64
            && self.y as u64 + self.height as u64 >= other.y as u64
    }

    /// Column of the room's centre cell.
    pub open spec fn center_x(self) -> int {
        self.x + self.width / 2
    }

    /// Row of the room's centre cell.
    pub open spec fn center_y(self) -> int {
        self.y + self.height / 2
    }

    /// The room's centre cell.
    pub fn center(&self) -> (c: Coord)
        requires
            self.x + self.width <= u32::MAX,
            self.y + self.height <= u32::MAX,
        ensures
            c.x == self.center_x(),
            c.y == self.center_y(),
    {
        Coord { x: self.x + self.width / 2, y: self.y + self.height / 2 }
    }

    /// Cell `(a, b)` belongs to the room.
    pub open spec fn covers(self, a: int, b: int) -> bool {
        self.x <= a < self.x + self.width && self.y <= b < self.y + self.height
    }

    /// The room lies in a grid of the given size and leaves its outermost
    /// ring of cells free.
    pub open spec fn fits(self, width: int, height: int) -> bool {
        &&& 1 <= self.x
        &&& 1 <= self.y
        &&& self.x + self.width < width
        &&& self.y + self.height < height
    }
}

/// The smaller of two numbers.
pub open spec fn lesser(a: int, b: int) -> int {
    if a <= b {
        a
    } else {
        b
    }
}

/// The larger of two numbers.
pub open spec fn greater(a: int, b: int) -> int {
    if a <= b {
        b
    } else {
        a
    }
}

/// The side of a room for a drawn length: the length, cut to what a grid
/// of side `grid_side` holds inside its outermost ring.
pub fn room_side(drawn: u32, grid_side: u32) -> (side: u32)
    requires
        grid_side >= 2,
    ensures
        side == lesser(drawn as int, grid_side - 2),
{
    if drawn < grid_side - 2 {
        drawn
    } else {
        grid_side - 2
    }
}

/// Some room of the list overlaps `room`.
pub open spec fn blocked(rooms: Seq<Room>, room: Room) -> bool {
    exists|i: int| 0 <= i < rooms.len() && room.spec_overlaps(#[trigger] rooms[i])
}

/// No two rooms of the list overlap.
pub open spec fn disjoint(rooms: Seq<Room>) -> bool {
    forall|i: int, j: int|
        0 <= i < j < rooms.len() ==> !(#[trigger] rooms[j]).spec_overlaps(#[trigger] rooms[i])
}

/// Rooms that do not overlap share no cell.
pub proof fn lemma_disjoint_rooms_share_no_cell(rooms: Seq<Room>, i: int, j: int, a: int, b: int)
    requires
        disjoint(rooms),
        0 <= i < rooms.len(),
        0 <= j < rooms.len(),
        i != j,
    ensures
        !(rooms[i].covers(a, b) && rooms[j].covers(a, b)),
{
    if i < j {
        assert(!rooms[j].spec_overlaps(rooms[i]));
    } else {
        assert(!rooms[i].spec_overlaps(rooms[j]));
    }
}

impl MapGenerator {
    /// Cells by which the horizontal strip of a corridor is widened on
    /// each side.
    pub open spec fn pad_h(&self) -> int {
        match self.corridor_padding {
            Some(p) => p as int,
            None => 0,
        }
    }

    /// Cells by which the vertical strip of a corridor is widened on each
    /// side.
    pub open spec fn pad_v(&self) -> int {
        match self.corridor_padding {
            Some(p) => p as int,
            None => 1,
        }
    }

    /// The room fits the grid inside its outermost ring.
    pub open spec fn admits(&self, room: Room) -> bool {
        room.fits(self.size.x as int, self.size.y as int)
    }

    /// The room is large enough for a corridor from its centre to stay
    /// inside it.
    pub open spec fn roomy(&self, room: Room) -> bool {
        &&& 2 * self.pad_v() + 1 <= room.width
        &&& 2 * self.pad_v() + 1 <= room.height
    }

    /// The room's sides are within the configured bounds.
    pub open spec fn sized(&self, room: Room) -> bool {
        &&& self.min_room_size.x <= room.width <= self.max_room_size.x
        &&& self.min_room_size.y <= room.height <= self.max_room_size.y
    }

    /// Cell `(a, b)` lies on the horizontal strip of the corridor between
    /// the two rooms: on the row of the first room's centre, between the
    /// columns of the two centres.
    pub open spec fn on_strip_h(&self, from: Room, to: Room, a: int, b: int) -> bool {
        GridView::in_rect(
            lesser(from.center_x(), to.center_x()) - self.pad_h(),
            from.center_y() - self.pad_h(),
            greater(from.center_x(), to.center_x()) + self.pad_h() + 1,
            from.center_y() + self.pad_h() + 1,
            a,
            b,
        )
    }

    /// Cell `(a, b)` lies on the vertical strip of the corridor between
    /// the two rooms: on the column of the second room's centre, between
    /// the rows of the two centres.
    pub open spec fn on_strip_v(&self, from: Room, to: Room, a: int, b: int) -> bool {
        GridView::in_rect(
            to.center_x() - self.pad_v(),
            lesser(from.center_y(), to.center_y()) - self.pad_v(),
            to.center_x() + self.pad_v() + 1,
            greater(from.center_y(), to.center_y()) + self.pad_v() + 1,
            a,
            b,
        )
    }

    /// The grid with a corridor carved from the centre of `from` to the
    /// centre of `to`: first the horizontal strip, then the vertical one.
    pub open spec fn with_corridor(&self, g: GridView, from: Room, to: Room) -> GridView {
        let ground = Some(self.ground_tile_id);
        g.with_rect(
            lesser(from.center_x(), to.center_x()) - self.pad_h(),
            from.center_y() - self.pad_h(),
            greater(from.center_x(), to.center_x()) + self.pad_h() + 1,
            from.center_y() + self.pad_h() + 1,
            ground,
        ).with_rect(
            to.center_x() - self.pad_v(),
            lesser(from.center_y(), to.center_y()) - self.pad_v(),
            to.center_x() + self.pad_v() + 1,
            greater(from.center_y(), to.center_y()) + self.pad_v() + 1,
            ground,
        )
    }

    /// The grid with `room` carved and, if rooms were placed before it,
    /// joined to the last of them.
    pub open spec fn with_room(&self, g: GridView, rooms: Seq<Room>, room: Room) -> GridView {
        let carved = g.with_rect(
            room.x as int,
            room.y as int,
            room.x + room.width,
            room.y + room.height,
            Some(self.ground_tile_id),
        );
        if rooms.len() == 0 {
            carved
        } else {
            self.with_corridor(carved, rooms.last(), room)
        }
    }

    /// The grid of the configured size with the wall tile in every cell.
    pub open spec fn blank(&self) -> GridView {
        GridView {
            width: self.size.x as int,
            height: self.size.y as int,
            cells: Seq::new((self.size.x * self.size.y) as nat, |i: int| Some(self.wall_tile_id)),
        }
    }

    /// The grid that placing the rooms of the list, in their order, makes
    /// of a grid of wall.
    pub open spec fn layout(&self, rooms: Seq<Room>) -> GridView
        decreases rooms.len(),
    {
        if rooms.len() == 0 {
            self.blank()
        } else {
            self.with_room(self.layout(rooms.drop_last()), rooms.drop_last(), rooms.last())
        }
    }

    /// Cell `(a, b)` lies on the corridor that joins room `i` of the list
    /// to the room before it.
    pub open spec fn on_corridor(&self, rooms: Seq<Room>, i: int, a: int, b: int) -> bool {
        self.on_strip_h(rooms[i - 1], rooms[i], a, b) || self.on_strip_v(
            rooms[i - 1],
            rooms[i],
            a,
            b,
        )
    }

    /// What holds of a grid in which the rooms of the list were placed:
    /// every cell is wall or ground, the outermost ring is wall, and the
    /// cells of every room and of every corridor between one room and the
    /// next are ground.
    pub open spec fn well_laid(&self, g: GridView, rooms: Seq<Room>) -> bool {
        &&& g.wf()
        &&& g.width == self.size.x
        &&& g.height == self.size.y
        &&& forall|a: int, b: int|
            g.in_bounds(a, b) ==> (#[trigger] g.at(a, b) == Some(self.wall_tile_id) || g.at(a, b)
                == Some(self.ground_tile_id))
        &&& forall|a: int, b: int| #[trigger]
            g.on_border(a, b) ==> g.at(a, b) == Some(self.wall_tile_id)
        &&& forall|i: int, a: int, b: int|
            0 <= i < rooms.len() && (#[trigger] rooms[i].covers(a, b)) && g.in_bounds(a, b)
                ==> g.at(a, b) == Some(self.ground_tile_id)
        &&& forall|i: int, a: int, b: int|
            0 < i < rooms.len() && #[trigger] self.on_corridor(rooms, i, a, b) && g.in_bounds(a, b)
                ==> g.at(a, b) == Some(self.ground_tile_id)
    }

    /// Every room of the list is admitted.
    pub open spec fn all_admitted(&self, rooms: Seq<Room>) -> bool {
        forall|i: int| 0 <= i < rooms.len() ==> self.admits(#[trigger] rooms[i])
    }

    /// Every room of the list is roomy, unless the list holds one room at
    /// most and so no corridor.
    pub open spec fn all_joinable(&self, rooms: Seq<Room>) -> bool {
        rooms.len() >= 2 ==> forall|i: int| 0 <= i < rooms.len() ==> self.roomy(#[trigger] rooms[i])
    }

    /// Carving ground inside the outermost ring keeps what holds of a
    /// laid-out grid.
    pub proof fn lemma_carve(&self, g: GridView, rooms: Seq<Room>, x0: int, y0: int, x1: int, y1: int)
        requires
            self.well_laid(g, rooms),
            1 <= x0,
            1 <= y0,
            x1 <= g.width - 1,
            y1 <= g.height - 1,
        ensures
            self.well_laid(g.with_rect(x0, y0, x1, y1, Some(self.ground_tile_id)), rooms),
    {
        let h = g.with_rect(x0, y0, x1, y1, Some(self.ground_tile_id));
        assert forall|a: int, b: int| #[trigger] h.on_border(a, b) implies h.at(a, b) == Some(
            self.wall_tile_id,
        ) by {
            assert(g.on_border(a, b));
        }
        assert forall|i: int, a: int, b: int|
            0 <= i < rooms.len() && (#[trigger] rooms[i].covers(a, b)) && h.in_bounds(
                a,
                b,
            ) implies h.at(a, b) == Some(self.ground_tile_id) by {
            assert(g.at(a, b) == Some(self.ground_tile_id));
        }
        assert forall|i: int, a: int, b: int|
            0 < i < rooms.len() && #[trigger] self.on_corridor(rooms, i, a, b) && h.in_bounds(
                a,
                b,
            ) implies h.at(a, b) == Some(self.ground_tile_id) by {
            assert(g.at(a, b) == Some(self.ground_tile_id));
        }
    }

    /// Placing an admitted room in a laid-out grid gives a laid-out grid,
    /// provided that the room and the one it is joined to are roomy.
    pub proof fn lemma_with_room(&self, g: GridView, rooms: Seq<Room>, room: Room)
        requires
            self.well_laid(g, rooms),
            self.all_admitted(rooms),
            self.admits(room),
            rooms.len() > 0 ==> self.roomy(rooms.last()) && self.roomy(room),
        ensures
            self.well_laid(self.with_room(g, rooms, room), rooms.push(room)),
    {
        let ground = Some(self.ground_tile_id);
        let after = rooms.push(room);
        let g1 = g.with_rect(room.x as int, room.y as int, room.x + room.width, room.y + room.height, ground);
        self.lemma_carve(g, rooms, room.x as int, room.y as int, room.x + room.width, room.y + room.height);
        let r = self.with_room(g, rooms, room);
        if rooms.len() == 0 {
            assert(self.well_laid(r, rooms));
        } else {
            let from = rooms.last();
            assert(self.admits(from));
            let hx0 = lesser(from.center_x(), room.center_x()) - self.pad_h();
            let hy0 = from.center_y() - self.pad_h();
            let hx1 = greater(from.center_x(), room.center_x()) + self.pad_h() + 1;
            let hy1 = from.center_y() + self.pad_h() + 1;
            let g2 = g1.with_rect(hx0, hy0, hx1, hy1, ground);
            self.lemma_carve(g1, rooms, hx0, hy0, hx1, hy1);
            let vx0 = room.center_x() - self.pad_v();
            let vy0 = lesser(from.center_y(), room.center_y()) - self.pad_v();
            let vx1 = room.center_x() + self.pad_v() + 1;
            let vy1 = greater(from.center_y(), room.center_y()) + self.pad_v() + 1;
            self.lemma_carve(g2, rooms, vx0, vy0, vx1, vy1);
            assert(r == g2.with_rect(vx0, vy0, vx1, vy1, ground));
            assert(self.well_laid(r, rooms));
            assert forall|a: int, b: int|
                self.on_corridor(after, rooms.len() as int, a, b) && r.in_bounds(a, b) implies r.at(
                a,
                b,
            ) == ground by {
                assert(after[rooms.len() - 1] == from);
                assert(after[rooms.len() as int] == room);
                assert(g2.at(a, b) == if GridView::in_rect(hx0, hy0, hx1, hy1, a, b) {
                    ground
                } else {
                    g1.at(a, b)
                });
            }
        }
        assert forall|a: int, b: int| room.covers(a, b) && r.in_bounds(a, b) implies r.at(a, b)
            == ground by {
            assert(g1.at(a, b) == ground);
            if rooms.len() > 0 {
                let from = rooms.last();
                let hx0 = lesser(from.center_x(), room.center_x()) - self.pad_h();
                let hy0 = from.center_y() - self.pad_h();
                let hx1 = greater(from.center_x(), room.center_x()) + self.pad_h() + 1;
                let hy1 = from.center_y() + self.pad_h() + 1;
                let g2 = g1.with_rect(hx0, hy0, hx1, hy1, ground);
                assert(g2.at(a, b) == ground);
            }
        }
        assert forall|i: int, a: int, b: int|
            0 <= i < after.len() && (#[trigger] after[i].covers(a, b)) && r.in_bounds(
                a,
                b,
            ) implies r.at(a, b) == ground by {
            if i < rooms.len() {
                assert(rooms[i].covers(a, b));
            }
        }
        assert forall|i: int, a: int, b: int|
            0 < i < after.len() && #[trigger] self.on_corridor(after, i, a, b) && r.in_bounds(
                a,
                b,
            ) implies r.at(a, b) == ground by {
            if i < rooms.len() {
                assert(after[i - 1] == rooms[i - 1]);
                assert(after[i] == rooms[i]);
                assert(self.on_corridor(rooms, i, a, b));
            }
        }
    }

    /// Whatever admitted rooms are placed, in whatever order, the grid they
    /// make of a grid of wall is laid out well: no cell is empty, the
    /// outermost ring is wall, and rooms and corridors are ground. Where
    /// there is more than one room, each has to be roomy.
    pub proof fn lemma_layout_well_laid(&self, rooms: Seq<Room>)
        requires
            self.all_admitted(rooms),
            self.all_joinable(rooms),
        ensures
            self.well_laid(self.layout(rooms), rooms),
        decreases rooms.len(),
    {
        if rooms.len() == 0 {
            let g = self.blank();
            assert(self.size.x * self.size.y >= 0) by (nonlinear_arith)
                requires
                    self.size.x >= 0,
                    self.size.y >= 0,
            ;
            assert forall|a: int, b: int| g.in_bounds(a, b) implies #[trigger] g.at(a, b) == Some(
                self.wall_tile_id,
            ) by {
                lemma_index_in_range(g, a, b);
            }
        } else {
            let before = rooms.drop_last();
            assert forall|i: int| 0 <= i < before.len() implies self.admits(#[trigger] before[i]) by {
                assert(before[i] == rooms[i]);
            }
            if before.len() >= 2 {
                assert forall|i: int| 0 <= i < before.len() implies self.roomy(
                    #[trigger] before[i],
                ) by {
                    assert(before[i] == rooms[i]);
                }
            }
            if before.len() > 0 {
                assert(before.last() == rooms[rooms.len() - 2]);
                assert(self.roomy(rooms[rooms.len() - 2]));
                assert(self.roomy(rooms[rooms.len() - 1]));
            }
            self.lemma_layout_well_laid(before);
            self.lemma_with_room(self.layout(before), before, rooms.last());
            assert(before.push(rooms.last()) =~= rooms);
        }
    }

    /// Carves a room: fills the rectangle with top-left `dest` and the
    /// given size with ground.
    pub fn generate_room(&self, layer: &mut TileGrid, dest: Coord, size: Coord)
        requires
            old(layer).wf(),
            dest.x + size.x <= old(layer).width,
            dest.y + size.y <= old(layer).height,
        ensures
            final(layer)@ == old(layer)@.with_rect(
                dest.x as int,
                dest.y as int,
                dest.x + size.x,
                dest.y + size.y,
                Some(self.ground_tile_id),
            ),
            final(layer).wf(),
    {
        layer.fill_rect(dest.x, dest.y, dest.x + size.x, dest.y + size.y, Some(self.ground_tile_id));
    }

    /// Carves the horizontal strip of a corridor: the cells of row `y`
    /// between columns `src_x` and `dest_x`, widened on every side by the
    /// padding, or by nothing where none is given.
    pub fn generate_corridor_horizontal(
        &self,
        layer: &mut TileGrid,
        src_x: u32,
        dest_x: u32,
        y: u32,
        padding: Option<u32>,
    )
        requires
            old(layer).wf(),
            padding.unwrap_or(0) <= y,
            y + padding.unwrap_or(0) < old(layer).height,
            padding.unwrap_or(0) <= lesser(src_x as int, dest_x as int),
            greater(src_x as int, dest_x as int) + padding.unwrap_or(0) < old(layer).width,
        ensures
            final(layer)@ == old(layer)@.with_rect(
                lesser(src_x as int, dest_x as int) - padding.unwrap_or(0),
                y - padding.unwrap_or(0),
                greater(src_x as int, dest_x as int) + padding.unwrap_or(0) + 1,
                y + padding.unwrap_or(0) + 1,
                Some(self.ground_tile_id),
            ),
            final(layer).wf(),
    {
        let padding = match padding {
            Some(p) => p,
            None => 0,
        };
        let (src_x, dest_x) = if src_x <= dest_x {
            (src_x, dest_x)
        } else {
            (dest_x, src_x)
        };
        layer.fill_rect(
            src_x - padding,
            y - padding,
            dest_x + padding + 1,
            y + padding + 1,
            Some(self.ground_tile_id),
        );
    }

    /// Carves the vertical strip of a corridor: the cells of column `x`
    /// between rows `src_y` and `dest_y`, widened on every side by the
    /// padding, or by one cell where none is given.
    pub fn generate_corridor_vertical(
        &self,
        layer: &mut TileGrid,
        x: u32,
        src_y: u32,
        dest_y: u32,
        padding: Option<u32>,
    )
        requires
            old(layer).wf(),
            padding.unwrap_or(1) <= x,
            x + padding.unwrap_or(1) < old(layer).width,
            padding.unwrap_or(1) <= lesser(src_y as int, dest_y as int),
            greater(src_y as int, dest_y as int) + padding.unwrap_or(1) < old(layer).height,
        ensures
            final(layer)@ == old(layer)@.with_rect(
                x - padding.unwrap_or(1),
                lesser(src_y as int, dest_y as int) - padding.unwrap_or(1),
                x + padding.unwrap_or(1) + 1,
                greater(src_y as int, dest_y as int) + padding.unwrap_or(1) + 1,
                Some(self.ground_tile_id),
            ),
            final(layer).wf(),
    {
        let padding = match padding {
            Some(p) => p,
            None => 1,
        };
        let (src_y, dest_y) = if src_y <= dest_y {
            (src_y, dest_y)
        } else {
            (dest_y, src_y)
        };
        layer.fill_rect(
            x - padding,
            src_y - padding,
            x + padding + 1,
            dest_y + padding + 1,
            Some(self.ground_tile_id),
        );
    }

    /// Places `room` unless it overlaps a room placed before: carves it,
    /// joins it to the last room placed, and adds it to the list. A room
    /// that overlaps is skipped, and nothing changes.
    pub fn try_place_room(&self, layer: &mut TileGrid, rooms: &mut Vec<Room>, room: Room) -> (placed:
        bool)
        requires
            old(layer).wf(),
            old(layer).width == self.size.x,
            old(layer).height == self.size.y,
            self.all_admitted(old(rooms)@),
            self.admits(room),
            old(rooms)@.len() > 0 ==> self.roomy(old(rooms)@.last()) && self.roomy(room),
        ensures
            placed == !blocked(old(rooms)@, room),
            placed ==> final(layer)@ == self.with_room(old(layer)@, old(rooms)@, room),
            placed ==> final(rooms)@ == old(rooms)@.push(room),
            !placed ==> final(layer)@ == old(layer)@ && final(rooms)@ == old(rooms)@,
            final(layer).wf(),
            final(layer).width == self.size.x,
            final(layer).height == self.size.y,
    {
        let ghost grid0 = layer@;
        let ghost rooms0 = rooms@;
        let mut i: usize = 0;
        while i < rooms.len()
            invariant
                i <= rooms.len(),
                layer.wf(),
                layer.width == self.size.x,
                layer.height == self.size.y,
                layer@ == grid0,
                rooms@ == rooms0,
                self.all_admitted(rooms@),
                self.admits(room),
                rooms@.len() > 0 ==> self.roomy(rooms@.last()) && self.roomy(room),
                forall|k: int| 0 <= k < i ==> !room.spec_overlaps(#[trigger] rooms@[k]),
            decreases rooms.len() - i,
        {
            if room.overlaps(&rooms[i]) {
                return false;
            }
            i += 1;
        }
        self.generate_room(
            layer,
            Coord { x: room.x, y: room.y },
            Coord { x: room.width, y: room.height },
        );
        if rooms.len() > 0 {
            let last = rooms[rooms.len() - 1];
            assert(self.admits(last));
            assert(last == rooms@.last());
            let from = last.center();
            let to = room.center();
            self.generate_corridor_horizontal(layer, from.x, to.x, from.y, self.corridor_padding);
            self.generate_corridor_vertical(layer, to.x, from.y, to.y, self.corridor_padding);
        }
        rooms.push(room);
        true
    }

    /// Every room of the list has its sides within the configured bounds.
    pub open spec fn all_sized(&self, rooms: Seq<Room>) -> bool {
        forall|i: int| 0 <= i < rooms.len() ==> self.sized(#[trigger] rooms[i])
    }

    /// The configuration can be generated from: there is at least one
    /// attempt at a room; the grid's cells can be numbered in `u32`, and
    /// neither side of it nor a room's largest side is beyond what the
    /// random source draws exactly; the smallest room is no larger than
    /// the largest and fits the grid inside its outermost ring; where more
    /// than one room may be placed, the smallest room is wide and high
    /// enough for a corridor from its centre to stay inside it; and a
    /// door's clearance covers the two rows of an exit.
    pub open spec fn config_ok(&self) -> bool {
        &&& self.max_room_count >= 1
        &&& self.size.x * self.size.y <= u32::MAX
        &&& self.size.x <= RANDOM_RANGE_LIMIT
        &&& self.size.y <= RANDOM_RANGE_LIMIT
        &&& self.min_room_size.x <= self.max_room_size.x < RANDOM_RANGE_LIMIT
        &&& self.min_room_size.y <= self.max_room_size.y < RANDOM_RANGE_LIMIT
        &&& self.min_room_size.x + 2 <= self.size.x
        &&& self.min_room_size.y + 2 <= self.size.y
        &&& self.max_room_count >= 2 ==> 2 * self.pad_v() + 1 <= self.min_room_size.x && 2
            * self.pad_v() + 1 <= self.min_room_size.y
        &&& self.door_clearance >= 2
    }

    /// Checks the configuration.
    pub fn validate(&self) -> (r: Result<(), MapGenError>)
        ensures
            r is Ok <==> self.config_ok(),
            r is Err ==> r == Err::<(), MapGenError>(MapGenError::InvalidConfig),
    {
        let pad: u64 = match self.corridor_padding {
            Some(p) => p as u64,
            None => 1,
        };
        assert(self.size.x * self.size.y <= 0xffff_ffff * 0xffff_ffff) by (nonlinear_arith)
            requires
                self.size.x <= 0xffff_ffff,
                self.size.y <= 0xffff_ffff,
        ;
        let cells: u64 = (self.size.x as u64) * (self.size.y as u64);
        let joinable = self.max_room_count < 2 || (2 * pad + 1 <= self.min_room_size.x as u64 && 2
            * pad + 1 <= self.min_room_size.y as u64);
        let ok = self.max_room_count >= 1 && cells <= u32::MAX as u64 && self.size.x
            <= RANDOM_RANGE_LIMIT && self.size.y <= RANDOM_RANGE_LIMIT && self.min_room_size.x
            <= self.max_room_size.x && self.max_room_size.x < RANDOM_RANGE_LIMIT
            && self.min_room_size.y <= self.max_room_size.y && self.max_room_size.y
            < RANDOM_RANGE_LIMIT && self.min_room_size.x as u64 + 2 <= self.size.x as u64
            && self.min_room_size.y as u64 + 2 <= self.size.y as u64 && joinable
            && self.door_clearance >= 2;
        if ok {
            Ok(())
        } else {
            Err(MapGenError::InvalidConfig)
        }
    }

    /// Fills a grid with wall and places rooms in it: for each attempt, a
    /// room of random size at a random place inside the outermost ring,
    /// skipped if it overlaps a room placed before, else carved and joined
    /// to the room placed last. The first attempt always succeeds; which of
    /// the others do depends on the draws.
    pub fn generate_rooms(&self) -> (r: (TileGrid, Vec<Room>))
        requires
            self.config_ok(),
        ensures
            r.0.wf(),
            r.0@ == self.layout(r.1@),
            self.well_laid(r.0@, r.1@),
            1 <= r.1@.len() <= self.max_room_count,
            self.all_admitted(r.1@),
            self.all_sized(r.1@),
            disjoint(r.1@),
    {
        let filled = TileGrid::filled(self.size.x, self.size.y, Some(self.wall_tile_id));
        let mut layer = filled.unwrap();
        let mut rooms: Vec<Room> = Vec::new();
        proof {
            assert(layer@.cells =~= self.blank().cells);
            assert forall|a: int, b: int| layer@.in_bounds(a, b) implies #[trigger] layer@.at(a, b)
                == Some(self.wall_tile_id) by {
                lemma_index_in_range(layer@, a, b);
            }
            assert(self.well_laid(layer@, rooms@));
        }
        let mut n: u32 = 0;
        while n < self.max_room_count
            invariant
                self.config_ok(),
                n <= self.max_room_count,
                layer.wf(),
                layer.width == self.size.x,
                layer.height == self.size.y,
                layer@ == self.layout(rooms@),
                self.well_laid(layer@, rooms@),
                rooms@.len() <= n,
                n >= 1 ==> rooms@.len() >= 1,
                self.all_admitted(rooms@),
                self.all_sized(rooms@),
                disjoint(rooms@),
            decreases self.max_room_count - n,
        {
            let drawn_width = random_in_range(self.min_room_size.x, self.max_room_size.x + 1);
            let width = room_side(drawn_width, layer.width);
            let drawn_height = random_in_range(self.min_room_size.y, self.max_room_size.y + 1);
            let height = room_side(drawn_height, layer.height);
            let max_x = layer.width - width - 1;
            let max_y = layer.height - height - 1;
            let x = random_in_range(1, max_x);
            let y = random_in_range(1, max_y);
            let room = Room { x, y, width, height };
            let ghost before = rooms@;
            proof {
                if before.len() > 0 {
                    assert(self.sized(before.last()));
                }
                self.lemma_with_room(layer@, before, room);
            }
            let placed = self.try_place_room(&mut layer, &mut rooms, room);
            proof {
                if placed {
                    assert(rooms@.drop_last() =~= before);
                    assert(rooms@.last() == room);
                    assert forall|i: int, j: int| 0 <= i < j < rooms@.len() implies !(
                    #[trigger] rooms@[j]).spec_overlaps(#[trigger] rooms@[i]) by {
                        if j < before.len() {
                            assert(rooms@[j] == before[j]);
                            assert(rooms@[i] == before[i]);
                        } else {
                            assert(rooms@[i] == before[i]);
                        }
                    }
                }
            }
            n += 1;
        }
        (layer, rooms)
    }
}

} // verus!
