//! Door places: stretches of four facade cells with clear ground beneath
//! them, the doors set into them, and the one door that becomes the exit.

use crate::generator::{MapGenError, MapGenerator, DOOR_ATTEMPTS};
use crate::grid::{group_grid, Coord, GridView, TileGrid};
use crate::random::random_in_range;
use crate::tiles::{
    DOOR_LEFT_CLOSED_TILE_ID, DOOR_LEFT_OPEN_TILE_ID, DOOR_RIGHT_CLOSED_TILE_ID,
    DOOR_RIGHT_OPEN_TILE_ID, FACADE_CENTER_TILE_ID, GROUND_01_TILE_ID,
    MONSTER_PIPE_CLOSED_TILE_ID, POOL_EMPTY_TILE_ID, STAIRS_LEFT_TILE_ID, STAIRS_RIGHT_TILE_ID,
};
use vstd::prelude::*;

verus! {

broadcast use group_grid;

/// The four cells of row `y` from column `x` on all hold tile `id`.
pub open spec fn row_holds(g: GridView, x: int, y: int, id: u32) -> bool {
    &&& g.holds(x, y, id)
    &&& g.holds(x + 1, y, id)
    &&& g.holds(x + 2, y, id)
    &&& g.holds(x + 3, y, id)
}

/// A door can be set at `(x, y)`: the four cells from there to the right
/// are centre facade, and beneath each of them the cells of the next
/// `clearance - 1` rows are plain ground, all of it inside the grid.
pub open spec fn is_door_candidate(g: GridView, x: int, y: int, clearance: int) -> bool {
    &&& y + clearance <= g.height
    &&& row_holds(g, x, y, FACADE_CENTER_TILE_ID)
    &&& forall|b: int| y < b < y + clearance ==> #[trigger] row_holds(g, x, b, GROUND_01_TILE_ID)
}

/// Position `p` comes before position `q` in the order in which a pass
/// visits the cells: column by column, and down each column.
pub open spec fn scanned_before(p: Coord, q: Coord) -> bool {
    p.x < q.x || (p.x == q.x && p.y < q.y)
}

/// The list holds exactly the door candidates of the grid, each once, in
/// the order in which a pass visits them.
pub open spec fn lists_candidates(g: GridView, list: Seq<Coord>, clearance: int) -> bool {
    &&& forall|k: int|
        0 <= k < list.len() ==> is_door_candidate(
            g,
            (#[trigger] list[k]).x as int,
            list[k].y as int,
            clearance,
        )
    &&& forall|x: int, y: int| #[trigger]
        is_door_candidate(g, x, y, clearance) ==> exists|k: int|
            0 <= k < list.len() && (#[trigger] list[k]).x == x && list[k].y == y
    &&& forall|k: int, l: int|
        0 <= k < l < list.len() ==> scanned_before(#[trigger] list[k], #[trigger] list[l])
}

/// The grid with an open door set at `(x, y)`: its two leaves take the two
/// middle cells of the four.
pub open spec fn with_door(g: GridView, x: int, y: int) -> GridView {
    g.put(x + 1, y, Some(DOOR_LEFT_OPEN_TILE_ID)).put(x + 2, y, Some(DOOR_RIGHT_OPEN_TILE_ID))
}

/// The grid with doors set at the places of the list, in their order.
pub open spec fn with_doors(g: GridView, doors: Seq<Coord>) -> GridView
    decreases doors.len(),
{
    if doors.len() == 0 {
        g
    } else {
        with_door(with_doors(g, doors.drop_last()), doors.last().x as int, doors.last().y as int)
    }
}

/// Each place of the list was a door candidate when its turn came: in the
/// grid with the doors before it set.
pub open spec fn doors_valid(g: GridView, doors: Seq<Coord>, clearance: int) -> bool
    decreases doors.len(),
{
    doors.len() == 0 || (doors_valid(g, doors.drop_last(), clearance) && is_door_candidate(
        with_doors(g, doors.drop_last()),
        doors.last().x as int,
        doors.last().y as int,
        clearance,
    ))
}

/// Every door candidate of the grid is on the list.
pub open spec fn covers_candidates(g: GridView, list: Seq<Coord>, clearance: int) -> bool {
    forall|x: int, y: int| #[trigger]
        is_door_candidate(g, x, y, clearance) ==> exists|k: int|
            0 <= k < list.len() && (#[trigger] list[k]).x == x && list[k].y == y
}

/// Doors were set into grid `g` at the places `placed`, one after the
/// other and each at a candidate, and door `pick` of them was made the
/// exit: `h` is the grid with the doors and the exit, `exit` the place of
/// the exit, and `guards` are the other doors in their order.
pub open spec fn doors_placed(
    g: GridView,
    h: GridView,
    guards: Seq<Coord>,
    exit: Coord,
    clearance: int,
    placed: Seq<Coord>,
    pick: int,
) -> bool {
    &&& doors_valid(g, placed, clearance)
    &&& 0 <= pick < placed.len()
    &&& exit == placed[pick]
    &&& guards == placed.remove(pick)
    &&& h == with_exit(with_doors(g, placed), exit.x as int, exit.y as int)
}

/// Doors were set into grid `g`, one after the other and each at a
/// candidate, and one of them was made the exit: see [`doors_placed`].
pub open spec fn doors_set(g: GridView, h: GridView, guards: Seq<Coord>, exit: Coord, clearance: int)
    -> bool {
    exists|placed: Seq<Coord>, pick: int| #[trigger]
        doors_placed(g, h, guards, exit, clearance, placed, pick)
}

/// Doors were set into grid `g` at the places `placed`, one after the
/// other and each at a candidate, until no candidate was left, and that
/// was before `wanted` doors were set.
pub open spec fn ran_short(g: GridView, placed: Seq<Coord>, wanted: int, clearance: int) -> bool {
    &&& doors_valid(g, placed, clearance)
    &&& placed.len() < wanted
    &&& forall|x: int, y: int| !#[trigger] is_door_candidate(with_doors(g, placed), x, y, clearance)
}

/// There is a way of setting doors into grid `g`, each at a candidate,
/// that leaves no candidate and falls short of `wanted` doors: see
/// [`ran_short`].
pub open spec fn short_of_places(g: GridView, wanted: int, clearance: int) -> bool {
    exists|placed: Seq<Coord>| #[trigger] ran_short(g, placed, wanted, clearance)
}

/// A door set at a candidate makes no new candidate, and spoils its own
/// place.
pub proof fn lemma_door_spoils(g: GridView, px: int, py: int, x: int, y: int, clearance: int)
    requires
        g.wf(),
        is_door_candidate(g, px, py, clearance),
        is_door_candidate(with_door(g, px, py), x, y, clearance),
    ensures
        is_door_candidate(g, x, y, clearance),
        !(x == px && y == py),
{
    let h = with_door(g, px, py);
    let mid = g.put(px + 1, py, Some(DOOR_LEFT_OPEN_TILE_ID));
    assert forall|a: int, b: int| g.in_bounds(a, b) implies #[trigger] h.at(a, b) == (if b == py
        && a == px + 1 {
        Some(DOOR_LEFT_OPEN_TILE_ID)
    } else if b == py && a == px + 2 {
        Some(DOOR_RIGHT_OPEN_TILE_ID)
    } else {
        g.at(a, b)
    }) by {
        assert(h.at(a, b) == if a == px + 2 && b == py {
            Some(DOOR_RIGHT_OPEN_TILE_ID)
        } else {
            mid.at(a, b)
        });
    }
    assert(row_holds(g, x, y, FACADE_CENTER_TILE_ID)) by {
        assert(h.at(x, y) == Some(FACADE_CENTER_TILE_ID));
        assert(h.at(x + 1, y) == Some(FACADE_CENTER_TILE_ID));
        assert(h.at(x + 2, y) == Some(FACADE_CENTER_TILE_ID));
        assert(h.at(x + 3, y) == Some(FACADE_CENTER_TILE_ID));
    }
    assert forall|b: int| y < b < y + clearance implies #[trigger] row_holds(
        g,
        x,
        b,
        GROUND_01_TILE_ID,
    ) by {
        assert(row_holds(h, x, b, GROUND_01_TILE_ID));
        assert(h.at(x, b) == Some(GROUND_01_TILE_ID));
        assert(h.at(x + 1, b) == Some(GROUND_01_TILE_ID));
        assert(h.at(x + 2, b) == Some(GROUND_01_TILE_ID));
        assert(h.at(x + 3, b) == Some(GROUND_01_TILE_ID));
    }
    if x == px && y == py {
        assert(h.at(x + 1, y) == Some(FACADE_CENTER_TILE_ID));
    }
}

/// The grid with the closed exit set at `(x, y)`: pipes and closed door
/// leaves in the row of the door, pools and stairs in the row beneath.
pub open spec fn with_exit(g: GridView, x: int, y: int) -> GridView {
    g.put(x, y, Some(MONSTER_PIPE_CLOSED_TILE_ID)).put(
        x + 1,
        y,
        Some(DOOR_LEFT_CLOSED_TILE_ID),
    ).put(x + 2, y, Some(DOOR_RIGHT_CLOSED_TILE_ID)).put(
        x + 3,
        y,
        Some(MONSTER_PIPE_CLOSED_TILE_ID),
    ).put(x, y + 1, Some(POOL_EMPTY_TILE_ID)).put(x + 1, y + 1, Some(STAIRS_LEFT_TILE_ID)).put(
        x + 2,
        y + 1,
        Some(STAIRS_RIGHT_TILE_ID),
    ).put(x + 3, y + 1, Some(POOL_EMPTY_TILE_ID))
}

/// Cell `(a, b)` is one of the eight cells that the exit at `p` takes:
/// four columns, two rows.
pub open spec fn in_exit_footprint(p: Coord, a: int, b: int) -> bool {
    p.x <= a < p.x + 4 && p.y <= b < p.y + 2
}

/// Cell `(a, b)` is one of the two cells that the leaves of the door at
/// `p` take.
pub open spec fn in_door_leaves(p: Coord, a: int, b: int) -> bool {
    b == p.y && (a == p.x + 1 || a == p.x + 2)
}

/// Cell `(a, b)` is one of the four cells of the facade stretch that the
/// door at `p` was set into.
pub open spec fn in_door_footprint(p: Coord, a: int, b: int) -> bool {
    b == p.y && p.x <= a < p.x + 4
}

/// The two doors are in one row, three columns apart: the last facade
/// cell of the one is the first of the other.
pub open spec fn three_apart(p: Coord, q: Coord) -> bool {
    p.y == q.y && (q.x == p.x + 3 || p.x == q.x + 3)
}

/// The footprint of an exit at `exit` and the facade stretch of the door
/// at `door` share no cell, unless the two are three columns apart in one
/// row; then they share the one facade cell between their leaves, and no
/// other.
pub open spec fn footprints_clear(exit: Coord, door: Coord) -> bool {
    forall|a: int, b: int|
        in_exit_footprint(exit, a, b) && #[trigger] in_door_footprint(door, a, b) ==> three_apart(
            exit,
            door,
        ) && b == exit.y && (a == exit.x || a == exit.x + 3)
}

/// No leaf of the door at `door` lies in the footprint of an exit at
/// `exit`.
pub open spec fn exit_clear_of(exit: Coord, door: Coord) -> bool {
    forall|a: int, b: int| !(in_exit_footprint(exit, a, b) && #[trigger] in_door_leaves(door, a, b))
}

/// The open door at `p` stands in the grid: its leaves between two facade
/// cells, and the clearance beneath all four still plain ground.
pub open spec fn door_stands(g: GridView, p: Coord, clearance: int) -> bool {
    &&& p.y + clearance <= g.height
    &&& g.holds(p.x as int, p.y as int, FACADE_CENTER_TILE_ID)
    &&& g.holds(p.x + 1, p.y as int, DOOR_LEFT_OPEN_TILE_ID)
    &&& g.holds(p.x + 2, p.y as int, DOOR_RIGHT_OPEN_TILE_ID)
    &&& g.holds(p.x + 3, p.y as int, FACADE_CENTER_TILE_ID)
    &&& forall|b: int|
        p.y < b < p.y + clearance ==> #[trigger] row_holds(g, p.x as int, b, GROUND_01_TILE_ID)
}

/// The two leaves of the open door at `p` are in the grid.
pub open spec fn leaves_stand(g: GridView, p: Coord) -> bool {
    g.holds(p.x + 1, p.y as int, DOOR_LEFT_OPEN_TILE_ID) && g.holds(
        p.x + 2,
        p.y as int,
        DOOR_RIGHT_OPEN_TILE_ID,
    )
}

/// The closed exit at `p` is in the grid, all eight cells of it.
pub open spec fn exit_stands(g: GridView, p: Coord) -> bool {
    &&& g.holds(p.x as int, p.y as int, MONSTER_PIPE_CLOSED_TILE_ID)
    &&& g.holds(p.x + 1, p.y as int, DOOR_LEFT_CLOSED_TILE_ID)
    &&& g.holds(p.x + 2, p.y as int, DOOR_RIGHT_CLOSED_TILE_ID)
    &&& g.holds(p.x + 3, p.y as int, MONSTER_PIPE_CLOSED_TILE_ID)
    &&& g.holds(p.x as int, p.y + 1, POOL_EMPTY_TILE_ID)
    &&& g.holds(p.x + 1, p.y + 1, STAIRS_LEFT_TILE_ID)
    &&& g.holds(p.x + 2, p.y + 1, STAIRS_RIGHT_TILE_ID)
    &&& g.holds(p.x + 3, p.y + 1, POOL_EMPTY_TILE_ID)
}

/// What a door set at a candidate does to the cells: its two leaves
/// replace centre facade, and nothing else changes.
pub proof fn lemma_with_door_at(g: GridView, px: int, py: int, clearance: int, a: int, b: int)
    requires
        g.wf(),
        is_door_candidate(g, px, py, clearance),
        g.in_bounds(a, b),
    ensures
        with_door(g, px, py).wf(),
        with_door(g, px, py).same_shape(g),
        with_door(g, px, py).at(a, b) == (if b == py && a == px + 1 {
            Some(DOOR_LEFT_OPEN_TILE_ID)
        } else if b == py && a == px + 2 {
            Some(DOOR_RIGHT_OPEN_TILE_ID)
        } else {
            g.at(a, b)
        }),
{
    let mid = g.put(px + 1, py, Some(DOOR_LEFT_OPEN_TILE_ID));
    assert(with_door(g, px, py).at(a, b) == if a == px + 2 && b == py {
        Some(DOOR_RIGHT_OPEN_TILE_ID)
    } else {
        mid.at(a, b)
    });
}

/// Doors set one after the other, each at a place that was a candidate
/// when its turn came, all stand in the end, at places that differ.
pub proof fn lemma_doors_stand(g: GridView, doors: Seq<Coord>, clearance: int)
    requires
        g.wf(),
        doors_valid(g, doors, clearance),
    ensures
        with_doors(g, doors).wf(),
        with_doors(g, doors).same_shape(g),
        forall|k: int|
            0 <= k < doors.len() ==> door_stands(with_doors(g, doors), #[trigger] doors[k], clearance),
        forall|k: int, l: int|
            0 <= k < l < doors.len() ==> #[trigger] doors[k] != #[trigger] doors[l],
    decreases doors.len(),
{
    if doors.len() > 0 {
        let before = doors.drop_last();
        let p = doors.last();
        let h = with_doors(g, before);
        let r = with_doors(g, doors);
        lemma_doors_stand(g, before, clearance);
        assert forall|a: int, b: int| h.in_bounds(a, b) implies #[trigger] r.at(a, b) == (if b
            == p.y && a == p.x + 1 {
            Some(DOOR_LEFT_OPEN_TILE_ID)
        } else if b == p.y && a == p.x + 2 {
            Some(DOOR_RIGHT_OPEN_TILE_ID)
        } else {
            h.at(a, b)
        }) by {
            lemma_with_door_at(h, p.x as int, p.y as int, clearance, a, b);
        }
        lemma_with_door_at(h, p.x as int, p.y as int, clearance, 0, 0);
        assert forall|k: int| 0 <= k < doors.len() implies door_stands(
            r,
            #[trigger] doors[k],
            clearance,
        ) by {
            let q = doors[k];
            if k < before.len() {
                assert(q == before[k]);
                assert(door_stands(h, q, clearance));
                assert(h.at(p.x + 1, p.y as int) == Some(FACADE_CENTER_TILE_ID));
                assert(h.at(p.x + 2, p.y as int) == Some(FACADE_CENTER_TILE_ID));
                assert(h.at(p.x as int, p.y as int) == Some(FACADE_CENTER_TILE_ID));
                assert(h.at(p.x + 3, p.y as int) == Some(FACADE_CENTER_TILE_ID));
                assert forall|b: int| q.y < b < q.y + clearance implies #[trigger] row_holds(
                    r,
                    q.x as int,
                    b,
                    GROUND_01_TILE_ID,
                ) by {
                    assert(row_holds(h, q.x as int, b, GROUND_01_TILE_ID));
                }
            } else {
                assert forall|b: int| q.y < b < q.y + clearance implies #[trigger] row_holds(
                    r,
                    q.x as int,
                    b,
                    GROUND_01_TILE_ID,
                ) by {
                    assert(row_holds(h, q.x as int, b, GROUND_01_TILE_ID));
                }
            }
        }
        assert forall|k: int, l: int| 0 <= k < l < doors.len() implies #[trigger] doors[k]
            != #[trigger] doors[l] by {
            if l < before.len() {
                assert(doors[k] == before[k] && doors[l] == before[l]);
            } else {
                assert(doors[k] == before[k]);
                assert(door_stands(h, before[k], clearance));
            }
        }
    }
}

/// Doors set at candidates change nothing but centre facade, and that into
/// door leaves: a full grid stays full, and a border of wall stays one.
pub proof fn lemma_doors_frame(g: GridView, doors: Seq<Coord>, clearance: int)
    requires
        g.wf(),
        doors_valid(g, doors, clearance),
    ensures
        with_doors(g, doors).wf(),
        with_doors(g, doors).same_shape(g),
        forall|a: int, b: int|
            g.in_bounds(a, b) ==> (#[trigger] with_doors(g, doors).at(a, b) == g.at(a, b) || (g.at(
                a,
                b,
            ) == Some(FACADE_CENTER_TILE_ID) && (with_doors(g, doors).at(a, b) == Some(
                DOOR_LEFT_OPEN_TILE_ID,
            ) || with_doors(g, doors).at(a, b) == Some(DOOR_RIGHT_OPEN_TILE_ID)))),
        g.full() ==> with_doors(g, doors).full(),
        g.border_is_wall() ==> with_doors(g, doors).border_is_wall(),
    decreases doors.len(),
{
    let r = with_doors(g, doors);
    if doors.len() > 0 {
        let before = doors.drop_last();
        let p = doors.last();
        let h = with_doors(g, before);
        lemma_doors_frame(g, before, clearance);
        lemma_with_door_at(h, p.x as int, p.y as int, clearance, p.x as int, p.y as int);
        assert forall|a: int, b: int| g.in_bounds(a, b) implies (#[trigger] r.at(a, b) == g.at(a, b)
            || (g.at(a, b) == Some(FACADE_CENTER_TILE_ID) && (r.at(a, b) == Some(
            DOOR_LEFT_OPEN_TILE_ID,
        ) || r.at(a, b) == Some(DOOR_RIGHT_OPEN_TILE_ID)))) by {
            lemma_with_door_at(h, p.x as int, p.y as int, clearance, a, b);
            assert(h.at(a, b) == g.at(a, b) || (g.at(a, b) == Some(FACADE_CENTER_TILE_ID) && (h.at(
                a,
                b,
            ) == Some(DOOR_LEFT_OPEN_TILE_ID) || h.at(a, b) == Some(DOOR_RIGHT_OPEN_TILE_ID))));
            assert(h.at(p.x + 1, p.y as int) == Some(FACADE_CENTER_TILE_ID));
            assert(h.at(p.x + 2, p.y as int) == Some(FACADE_CENTER_TILE_ID));
        }
    }
    if g.full() {
        assert forall|x: int, y: int| r.in_bounds(x, y) implies (#[trigger] r.at(x, y)) is Some by {
            assert(g.at(x, y) is Some);
        }
    }
    if g.border_is_wall() {
        assert forall|x: int, y: int| r.on_border(x, y) implies #[trigger] r.holds_wall(x, y) by {
            assert(g.holds_wall(x, y));
        }
    }
}

/// Of doors set one after the other, each at a place that was a candidate
/// when its turn came and with a clearance of two rows or more, none has a
/// leaf in the footprint that another would take as the exit; and the
/// facade stretch of none reaches into that footprint, but for the one
/// facade cell that two doors three columns apart share.
pub proof fn lemma_doors_apart(g: GridView, doors: Seq<Coord>, clearance: int)
    requires
        g.wf(),
        clearance >= 2,
        doors_valid(g, doors, clearance),
    ensures
        forall|k: int, l: int|
            0 <= k < doors.len() && 0 <= l < doors.len() && k != l ==> exit_clear_of(
                #[trigger] doors[k],
                #[trigger] doors[l],
            ) && footprints_clear(doors[k], doors[l]),
{
    let r = with_doors(g, doors);
    lemma_doors_stand(g, doors, clearance);
    assert forall|k: int, l: int|
        0 <= k < doors.len() && 0 <= l < doors.len() && k != l implies exit_clear_of(
        #[trigger] doors[k],
        #[trigger] doors[l],
    ) && footprints_clear(doors[k], doors[l]) by {
        let p = doors[k];
        let q = doors[l];
        assert(door_stands(r, p, clearance));
        assert(door_stands(r, q, clearance));
        assert(p != q) by {
            if k < l {
                assert(doors[k] != doors[l]);
            } else {
                assert(doors[l] != doors[k]);
            }
        }
        assert forall|a: int, b: int|
            !(in_exit_footprint(p, a, b) && #[trigger] in_door_leaves(q, a, b)) by {
            if in_exit_footprint(p, a, b) && in_door_leaves(q, a, b) {
                if b == p.y + 1 {
                    assert(row_holds(r, p.x as int, b, GROUND_01_TILE_ID));
                }
            }
        }
        assert forall|a: int, b: int|
            in_exit_footprint(p, a, b) && #[trigger] in_door_footprint(q, a, b) implies three_apart(
            p,
            q,
        ) && b == p.y && (a == p.x || a == p.x + 3) by {
            if b == p.y + 1 {
                assert(row_holds(r, p.x as int, b, GROUND_01_TILE_ID));
            }
        }
    }
}

/// Whether the four cells of row `y` from column `x` on all hold `id`.
pub fn check_row(layer: &TileGrid, x: u32, y: u32, id: u32) -> (r: bool)
    requires
        layer.wf(),
    ensures
        r == row_holds(layer@, x as int, y as int, id),
{
    if layer.width < 4 || x > layer.width - 4 || y >= layer.height {
        return false;
    }
    layer.holds(x, y, id) && layer.holds(x + 1, y, id) && layer.holds(x + 2, y, id) && layer.holds(
        x + 3,
        y,
        id,
    )
}

impl MapGenerator {
    /// Whether a door can be set at `(x, y)`.
    pub fn check_door_candidate(&self, x: u32, y: u32, layer: &TileGrid) -> (r: bool)
        requires
            layer.wf(),
        ensures
            r == is_door_candidate(layer@, x as int, y as int, self.door_clearance as int),
    {
        if y as u64 + self.door_clearance as u64 > layer.height as u64 {
            return false;
        }
        if !check_row(layer, x, y, FACADE_CENTER_TILE_ID) {
            return false;
        }
        if self.door_clearance == 0 {
            return true;
        }
        let end: u32 = y + self.door_clearance;
        let mut b: u32 = y + 1;
        while b < end
            invariant
                layer.wf(),
                y < b,
                end == y + self.door_clearance,
                end <= layer.height,
                b <= end || b == y + 1,
                forall|c: int| y < c < b ==> #[trigger] row_holds(
                    layer@,
                    x as int,
                    c,
                    GROUND_01_TILE_ID,
                ),
            decreases end - b,
        {
            if !check_row(layer, x, b, GROUND_01_TILE_ID) {
                return false;
            }
            b += 1;
        }
        true
    }

    /// All door candidates of the grid, in the order in which a pass visits
    /// them.
    pub fn find_door_candidates(&self, layer: &TileGrid) -> (list: Vec<Coord>)
        requires
            layer.wf(),
        ensures
            lists_candidates(layer@, list@, self.door_clearance as int),
            list@.len() <= layer.width * layer.height,
    {
        let ghost cl = self.door_clearance as int;
        let mut list: Vec<Coord> = Vec::new();
        let mut x: u32 = 0;
        while x < layer.width
            invariant
                layer.wf(),
                cl == self.door_clearance,
                x <= layer.width,
                list@.len() <= x * layer.height,
                forall|k: int|
                    0 <= k < list@.len() ==> is_door_candidate(
                        layer@,
                        (#[trigger] list@[k]).x as int,
                        list@[k].y as int,
                        cl,
                    ) && list@[k].x < x,
                forall|a: int, b: int|
                    0 <= a < x && #[trigger] is_door_candidate(layer@, a, b, cl) ==> exists|k: int|
                        0 <= k < list@.len() && (#[trigger] list@[k]).x == a && list@[k].y == b,
                forall|k: int, l: int|
                    0 <= k < l < list@.len() ==> scanned_before(
                        #[trigger] list@[k],
                        #[trigger] list@[l],
                    ),
            decreases layer.width - x,
        {
            let mut y: u32 = 0;
            while y < layer.height
                invariant
                    layer.wf(),
                    cl == self.door_clearance,
                    x < layer.width,
                    y <= layer.height,
                    list@.len() <= x * layer.height + y,
                    forall|k: int|
                        0 <= k < list@.len() ==> is_door_candidate(
                            layer@,
                            (#[trigger] list@[k]).x as int,
                            list@[k].y as int,
                            cl,
                        ) && (list@[k].x < x || (list@[k].x == x && list@[k].y < y)),
                    forall|a: int, b: int|
                        (0 <= a < x || (a == x && 0 <= b < y)) && #[trigger] is_door_candidate(
                            layer@,
                            a,
                            b,
                            cl,
                        ) ==> exists|k: int|
                            0 <= k < list@.len() && (#[trigger] list@[k]).x == a && list@[k].y == b,
                    forall|k: int, l: int|
                        0 <= k < l < list@.len() ==> scanned_before(
                            #[trigger] list@[k],
                            #[trigger] list@[l],
                        ),
                decreases layer.height - y,
            {
                if self.check_door_candidate(x, y, layer) {
                    let ghost before = list@;
                    list.push(Coord { x, y });
                    proof {
                        assert forall|a: int, b: int|
                            (0 <= a < x || (a == x && 0 <= b < y + 1))
                                && #[trigger] is_door_candidate(layer@, a, b, cl) implies exists|
                            k: int,
                        |
                            0 <= k < list@.len() && (#[trigger] list@[k]).x == a && list@[k].y
                                == b by {
                            if a == x && b == y {
                                assert(list@[before.len() as int].x == a);
                            } else {
                                let k = choose|k: int|
                                    0 <= k < before.len() && (#[trigger] before[k]).x == a
                                        && before[k].y == b;
                                assert(list@[k] == before[k]);
                            }
                        }
                    }
                }
                y += 1;
            }
            proof {
                assert((x + 1) * layer.height == x * layer.height + layer.height)
                    by (nonlinear_arith);
            }
            x += 1;
        }
        proof {
            assert(x * layer.height == layer.width * layer.height);
            assert forall|a: int, b: int| #[trigger]
                is_door_candidate(layer@, a, b, cl) implies exists|k: int|
                0 <= k < list@.len() && (#[trigger] list@[k]).x == a && list@[k].y == b by {
                assert(layer@.holds(a, b, FACADE_CENTER_TILE_ID));
            }
        }
        list
    }

    /// Sets doors at random places until `max_doors` are set or no place
    /// is left: picks one of the remaining candidates at random, and sets a
    /// door there if the place is still good, for a door set earlier may
    /// have spoilt it. Where fewer than `max_doors` doors come back, the
    /// grid has no place for a door left.
    pub fn generate_guard_doors(&self, max_doors: usize, layer: &mut TileGrid) -> (doors: Vec<Coord>)
        requires
            old(layer).wf(),
        ensures
            final(layer).wf(),
            final(layer)@ == with_doors(old(layer)@, doors@),
            doors_valid(old(layer)@, doors@, self.door_clearance as int),
            doors@.len() <= max_doors,
            doors@.len() <= old(layer).width * old(layer).height,
            doors@.len() < max_doors ==> forall|x: int, y: int|
                !#[trigger] is_door_candidate(final(layer)@, x, y, self.door_clearance as int),
    {
        let ghost start = layer@;
        let ghost cl = self.door_clearance as int;
        let mut candidates = self.find_door_candidates(layer);
        let mut doors: Vec<Coord> = Vec::new();
        while doors.len() < max_doors && candidates.len() > 0
            invariant
                layer.wf(),
                start.wf(),
                cl == self.door_clearance,
                layer@ == with_doors(start, doors@),
                doors_valid(start, doors@, cl),
                doors@.len() <= max_doors,
                candidates@.len() <= u32::MAX,
                doors@.len() + candidates@.len() <= start.width * start.height,
                covers_candidates(layer@, candidates@, cl),
            decreases candidates@.len(),
        {
            let pick = random_in_range(0, candidates.len() as u32);
            let ghost before = doors@;
            let placed = self.place_door(layer, &mut candidates, &mut doors, pick as usize);
            proof {
                if placed {
                    assert(doors@.drop_last() =~= before);
                }
            }
        }
        proof {
            if doors@.len() < max_doors {
                assert forall|x: int, y: int| !#[trigger] is_door_candidate(layer@, x, y, cl) by {
                    if is_door_candidate(layer@, x, y, cl) {
                        let k = choose|k: int|
                            0 <= k < candidates@.len() && (#[trigger] candidates@[k]).x == x
                                && candidates@[k].y == y;
                    }
                }
            }
        }
        doors
    }

    /// Takes candidate `pick` off the list and sets a door there if the
    /// place is still good.
    pub fn place_door(
        &self,
        layer: &mut TileGrid,
        candidates: &mut Vec<Coord>,
        doors: &mut Vec<Coord>,
        pick: usize,
    ) -> (placed: bool)
        requires
            old(layer).wf(),
            pick < old(candidates)@.len(),
        ensures
            final(layer).wf(),
            final(candidates)@ == old(candidates)@.remove(pick as int),
            placed == is_door_candidate(
                old(layer)@,
                old(candidates)@[pick as int].x as int,
                old(candidates)@[pick as int].y as int,
                self.door_clearance as int,
            ),
            placed ==> final(layer)@ == with_door(
                old(layer)@,
                old(candidates)@[pick as int].x as int,
                old(candidates)@[pick as int].y as int,
            ) && final(doors)@ == old(doors)@.push(old(candidates)@[pick as int]),
            !placed ==> final(layer)@ == old(layer)@ && final(doors)@ == old(doors)@,
            covers_candidates(old(layer)@, old(candidates)@, self.door_clearance as int)
                ==> covers_candidates(
                final(layer)@,
                final(candidates)@,
                self.door_clearance as int,
            ),
    {
        let ghost cl = self.door_clearance as int;
        let ghost grid0 = layer@;
        let ghost list0 = candidates@;
        let pos = candidates.remove(pick);
        // Doors are two cells wide, so one may have spoilt the place since
        // the list was made.
        if !self.check_door_candidate(pos.x, pos.y, layer) {
            proof {
                if covers_candidates(grid0, list0, cl) {
                    assert forall|x: int, y: int| #[trigger]
                        is_door_candidate(layer@, x, y, cl) implies exists|k: int|
                        0 <= k < candidates@.len() && (#[trigger] candidates@[k]).x == x
                            && candidates@[k].y == y by {
                        let k = choose|k: int|
                            0 <= k < list0.len() && (#[trigger] list0[k]).x == x && list0[k].y == y;
                        if k < pick {
                            assert(candidates@[k] == list0[k]);
                        } else {
                            assert(candidates@[k - 1] == list0[k]);
                        }
                    }
                }
            }
            return false;
        }
        layer.set(pos.x + 1, pos.y, Some(DOOR_LEFT_OPEN_TILE_ID));
        layer.set(pos.x + 2, pos.y, Some(DOOR_RIGHT_OPEN_TILE_ID));
        doors.push(pos);
        proof {
            if covers_candidates(grid0, list0, cl) {
                assert forall|x: int, y: int| #[trigger]
                    is_door_candidate(layer@, x, y, cl) implies exists|k: int|
                    0 <= k < candidates@.len() && (#[trigger] candidates@[k]).x == x
                        && candidates@[k].y == y by {
                    lemma_door_spoils(grid0, pos.x as int, pos.y as int, x, y, cl);
                    let k = choose|k: int|
                        0 <= k < list0.len() && (#[trigger] list0[k]).x == x && list0[k].y == y;
                    if k < pick {
                        assert(candidates@[k] == list0[k]);
                    } else {
                        assert(candidates@[k - 1] == list0[k]);
                    }
                }
            }
        }
        true
    }

    /// Sets the closed exit at `pos`: pipes and closed door leaves in the
    /// row of the door, pools and stairs in the row beneath.
    pub fn rewrite_exit_door(&self, pos: Coord, layer: &mut TileGrid)
        requires
            old(layer).wf(),
            pos.x + 4 <= old(layer).width,
            pos.y + 2 <= old(layer).height,
        ensures
            final(layer)@ == with_exit(old(layer)@, pos.x as int, pos.y as int),
            final(layer).wf(),
    {
        layer.set(pos.x, pos.y, Some(MONSTER_PIPE_CLOSED_TILE_ID));
        layer.set(pos.x + 1, pos.y, Some(DOOR_LEFT_CLOSED_TILE_ID));
        layer.set(pos.x + 2, pos.y, Some(DOOR_RIGHT_CLOSED_TILE_ID));
        layer.set(pos.x + 3, pos.y, Some(MONSTER_PIPE_CLOSED_TILE_ID));
        layer.set(pos.x, pos.y + 1, Some(POOL_EMPTY_TILE_ID));
        layer.set(pos.x + 1, pos.y + 1, Some(STAIRS_LEFT_TILE_ID));
        layer.set(pos.x + 2, pos.y + 1, Some(STAIRS_RIGHT_TILE_ID));
        layer.set(pos.x + 3, pos.y + 1, Some(POOL_EMPTY_TILE_ID));
    }

    /// Makes door `pick` of the list the exit: takes it off the list and
    /// sets the closed exit in its place.
    pub fn promote_exit(&self, layer: &mut TileGrid, doors: &mut Vec<Coord>, pick: usize) -> (exit:
        Coord)
        requires
            old(layer).wf(),
            pick < old(doors)@.len(),
            old(doors)@[pick as int].x + 4 <= old(layer).width,
            old(doors)@[pick as int].y + 2 <= old(layer).height,
        ensures
            exit == old(doors)@[pick as int],
            final(doors)@ == old(doors)@.remove(pick as int),
            final(layer)@ == with_exit(old(layer)@, exit.x as int, exit.y as int),
            final(layer).wf(),
    {
        let exit = doors.remove(pick);
        self.rewrite_exit_door(exit, layer);
        exit
    }

    /// Sets one door for each of `room_count` rooms and makes one of them,
    /// picked at random, the exit.
    ///
    /// Fails with `InvalidConfig`, before anything is drawn, when there is
    /// no room or when the clearance does not cover the two rows of an
    /// exit. Makes up to [`DOOR_ATTEMPTS`] attempts otherwise, each on the
    /// grid as it was handed in, and fails with
    /// `InsufficientDoorCandidates` when each ran out of places before
    /// every door was set: then there is a way of setting doors into the
    /// grid, each at a candidate, that leaves no candidate and falls short
    /// of `room_count`. On an error the grid is as it was handed in.
    pub fn place_doors(&self, layer: &mut TileGrid, room_count: usize) -> (r: Result<
        (Vec<Coord>, Coord),
        MapGenError,
    >)
        requires
            old(layer).wf(),
        ensures
            final(layer).wf(),
            (r is Err && r->Err_0 == MapGenError::InvalidConfig) <==> (room_count == 0
                || self.door_clearance < 2),
            (r is Err && r->Err_0 == MapGenError::InsufficientDoorCandidates) ==> short_of_places(
                old(layer)@,
                room_count as int,
                self.door_clearance as int,
            ),
            r is Err ==> final(layer)@ == old(layer)@,
            r is Ok ==> r->Ok_0.0@.len() + 1 == room_count && doors_set(
                old(layer)@,
                final(layer)@,
                r->Ok_0.0@,
                r->Ok_0.1,
                self.door_clearance as int,
            ),
    {
        if room_count == 0 || self.door_clearance < 2 {
            return Err(MapGenError::InvalidConfig);
        }
        let ghost cl = self.door_clearance as int;
        let base = layer.duplicate();
        let mut guard_doors: Vec<Coord> = Vec::new();
        let ghost mut short: Seq<Coord> = Seq::empty();
        let mut done = false;
        let mut attempt: u32 = 0;
        while attempt < DOOR_ATTEMPTS && !done
            invariant
                base.wf(),
                layer.wf(),
                base@ == old(layer)@,
                !done ==> layer@ == base@,
                attempt <= DOOR_ATTEMPTS,
                attempt > 0 && !done ==> ran_short(base@, short, room_count as int, cl),
                cl == self.door_clearance,
                done ==> layer@ == with_doors(base@, guard_doors@) && doors_valid(
                    base@,
                    guard_doors@,
                    cl,
                ) && guard_doors@.len() == room_count && guard_doors@.len() <= base.width
                    * base.height,
            decreases DOOR_ATTEMPTS - attempt + (if done { 0int } else { 1int }),
        {
            guard_doors = self.generate_guard_doors(room_count, layer);
            done = guard_doors.len() == room_count;
            if !done {
                proof {
                    short = guard_doors@;
                }
                // discard what was set, and start over
                *layer = base.duplicate();
            }
            attempt += 1;
        }
        if !done {
            return Err(MapGenError::InsufficientDoorCandidates);
        }
        proof {
            lemma_doors_stand(base@, guard_doors@, cl);
        }
        let pick = random_in_range(0, room_count as u32) as usize;
        let ghost placed = guard_doors@;
        proof {
            assert(door_stands(layer@, placed[pick as int], cl));
        }
        let exit_door = self.promote_exit(layer, &mut guard_doors, pick);
        proof {
            assert(guard_doors@.len() == placed.len() - 1);
            assert(doors_placed(
                old(layer)@,
                layer@,
                guard_doors@,
                exit_door,
                self.door_clearance as int,
                placed,
                pick as int,
            ));
        }
        Ok((guard_doors, exit_door))
    }
}

} // verus!
