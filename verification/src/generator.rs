//! The generator: its configuration, and the four stages in their order.

use crate::doors::{
    door_stands, doors_placed, doors_set, doors_valid, exit_clear_of, exit_stands,
    footprints_clear, in_door_leaves, in_exit_footprint, leaves_stand, lemma_doors_apart,
    lemma_doors_frame, lemma_doors_stand, ran_short, row_holds, short_of_places, with_doors,
    with_exit,
};
use crate::filler::{filled_from, is_interior};
use crate::grid::{group_grid, Coord, GridView, TileGrid};
use crate::rooms::{disjoint, Room};
use crate::tiles::{
    is_wall_class, FACADE_CENTER_02_TILE_ID, FACADE_CENTER_TILE_ID, GROUND_01_TILE_ID,
    GROUND_02_TILE_ID, GROUND_03_TILE_ID, TILESET_MAP_ID, WALL_01_TILE_ID, WALL_02_TILE_ID,
    WALL_03_TILE_ID,
};
use crate::walls::wall_details_result;
use vstd::prelude::*;

verus! {

broadcast use group_grid;

/// Smallest side of a room, in cells.
pub const MIN_ROOM_SIDE: u32 = 10;

/// Largest side of a room, in cells.
pub const MAX_ROOM_SIDE: u32 = 20;

/// How many rooms the generator tries to place.
pub const MAX_ROOM_COUNT: u32 = 50;

/// Cells by which a corridor is widened on each side.
pub const CORRIDOR_PADDING: u32 = 2;

/// Rows a door needs, its own facade row included, with ground beneath it.
pub const DOOR_CLEARANCE: u32 = 8;

/// Chance, in parts per million, that a plain tile becomes a variant.
pub const TILE_FILLER_PROB: u32 = 3000;

/// Attempts at placing the doors before the generator gives up.
pub const DOOR_ATTEMPTS: u32 = 10;

/// Why no layout was generated.
#[derive(Clone, Copy, Debug, PartialEq, Eq, Structural)]
pub enum MapGenError {
    /// The configuration leaves no room for a room, a corridor or a door.
    InvalidConfig,
    /// No attempt found a door place for every room.
    InsufficientDoorCandidates,
}

/// What one generation hands back.
#[derive(Debug)]
pub struct MapGenResult {
    /// The finished grid.
    pub layer: TileGrid,
    /// The rooms, in the order in which they were placed.
    pub rooms: Vec<Room>,
    /// The places of the guard doors, one fewer than there are rooms.
    pub guard_doors: Vec<Coord>,
    /// The place of the exit.
    pub exit_door: Coord,
}

/// Tile `v` is tile `u` or a cosmetic variant of it.
pub open spec fn is_variant_of(u: Option<u32>, v: Option<u32>) -> bool {
    ||| v == u
    ||| u == Some(WALL_01_TILE_ID) && (v == Some(WALL_02_TILE_ID) || v == Some(WALL_03_TILE_ID))
    ||| u == Some(GROUND_01_TILE_ID) && (v == Some(GROUND_02_TILE_ID) || v == Some(
        GROUND_03_TILE_ID,
    ))
    ||| u == Some(FACADE_CENTER_TILE_ID) && v == Some(FACADE_CENTER_02_TILE_ID)
}

/// Grid `h` is grid `g` but for cosmetic variants of plain tiles inside the
/// outermost ring.
pub open spec fn varied_from(g: GridView, h: GridView) -> bool {
    &&& g.wf()
    &&& h.wf()
    &&& h.same_shape(g)
    &&& forall|a: int, b: int|
        g.in_bounds(a, b) ==> is_variant_of(g.at(a, b), #[trigger] h.at(a, b)) && (!is_interior(
            g,
            a,
            b,
        ) ==> h.at(a, b) == g.at(a, b))
}

/// The filler replaces a plain tile by one of its variants.
pub open spec fn is_filler_pair(src: u32, dst: u32) -> bool {
    ||| src == WALL_01_TILE_ID && (dst == WALL_02_TILE_ID || dst == WALL_03_TILE_ID)
    ||| src == GROUND_01_TILE_ID && (dst == GROUND_02_TILE_ID || dst == GROUND_03_TILE_ID)
    ||| src == FACADE_CENTER_TILE_ID && dst == FACADE_CENTER_02_TILE_ID
}

/// One more filler on a grid that differs from `e` by cosmetic variants
/// gives a grid that differs from `e` by cosmetic variants.
pub proof fn lemma_filler_varies(e: GridView, g: GridView, h: GridView, src: u32, dst: u32)
    requires
        varied_from(e, g),
        filled_from(g, h, src, dst),
        is_filler_pair(src, dst),
    ensures
        varied_from(e, h),
{
    assert forall|a: int, b: int| e.in_bounds(a, b) implies is_variant_of(
        e.at(a, b),
        #[trigger] h.at(a, b),
    ) && (!is_interior(e, a, b) ==> h.at(a, b) == e.at(a, b)) by {
        assert(is_variant_of(e.at(a, b), g.at(a, b)));
        assert(h.at(a, b) == g.at(a, b) || (crate::filler::filler_matches(g, a, b, src) && h.at(
            a,
            b,
        ) == Some(dst)));
    }
}

/// The plain tiles: the ones that fillers replace by variants.
pub open spec fn is_plain_tile(id: u32) -> bool {
    id == WALL_01_TILE_ID || id == GROUND_01_TILE_ID || id == FACADE_CENTER_TILE_ID
}

/// Setting the exit in place of one of the doors that stand in a grid
/// leaves the other doors standing, keeps a full grid full and a border of
/// wall a border of wall.
pub proof fn lemma_exit_stage(g: GridView, doors: Seq<Coord>, pick: int, clearance: int)
    requires
        g.wf(),
        clearance >= 2,
        0 <= pick < doors.len(),
        forall|k: int| 0 <= k < doors.len() ==> door_stands(g, #[trigger] doors[k], clearance),
        forall|k: int, l: int|
            0 <= k < doors.len() && 0 <= l < doors.len() && k != l ==> exit_clear_of(
                #[trigger] doors[k],
                #[trigger] doors[l],
            ),
    ensures
        with_exit(g, doors[pick].x as int, doors[pick].y as int).wf(),
        with_exit(g, doors[pick].x as int, doors[pick].y as int).same_shape(g),
        g.full() ==> with_exit(g, doors[pick].x as int, doors[pick].y as int).full(),
        g.border_is_wall() ==> with_exit(
            g,
            doors[pick].x as int,
            doors[pick].y as int,
        ).border_is_wall(),
        exit_stands(with_exit(g, doors[pick].x as int, doors[pick].y as int), doors[pick]),
        forall|k: int|
            0 <= k < doors.len() && k != pick ==> leaves_stand(
                with_exit(g, doors[pick].x as int, doors[pick].y as int),
                #[trigger] doors[k],
            ),
{
    let p = doors[pick];
    let x = p.x as int;
    let y = p.y as int;
    let e = with_exit(g, x, y);
    assert(door_stands(g, p, clearance));
    assert(row_holds(g, x, y + 1, GROUND_01_TILE_ID));
    let e1 = g.put(x, y, Some(crate::tiles::MONSTER_PIPE_CLOSED_TILE_ID));
    let e2 = e1.put(x + 1, y, Some(crate::tiles::DOOR_LEFT_CLOSED_TILE_ID));
    let e3 = e2.put(x + 2, y, Some(crate::tiles::DOOR_RIGHT_CLOSED_TILE_ID));
    let e4 = e3.put(x + 3, y, Some(crate::tiles::MONSTER_PIPE_CLOSED_TILE_ID));
    let e5 = e4.put(x, y + 1, Some(crate::tiles::POOL_EMPTY_TILE_ID));
    let e6 = e5.put(x + 1, y + 1, Some(crate::tiles::STAIRS_LEFT_TILE_ID));
    let e7 = e6.put(x + 2, y + 1, Some(crate::tiles::STAIRS_RIGHT_TILE_ID));
    assert(e == e7.put(x + 3, y + 1, Some(crate::tiles::POOL_EMPTY_TILE_ID)));
    assert forall|a: int, b: int| g.in_bounds(a, b) && !in_exit_footprint(p, a, b) implies #[trigger] e.at(
        a,
        b,
    ) == g.at(a, b) by {
        assert(e7.at(a, b) == e6.at(a, b));
        assert(e6.at(a, b) == e5.at(a, b));
        assert(e5.at(a, b) == e4.at(a, b));
        assert(e4.at(a, b) == e3.at(a, b));
        assert(e3.at(a, b) == e2.at(a, b));
        assert(e2.at(a, b) == e1.at(a, b));
        assert(e1.at(a, b) == g.at(a, b));
    }
    assert forall|a: int, b: int| in_exit_footprint(p, a, b) implies (#[trigger] e.at(a, b)) is Some
        && !g.on_border(a, b) || !g.border_is_wall() by {
        assert(e.at(a, b) == if a == x + 3 && b == y + 1 {
            Some(crate::tiles::POOL_EMPTY_TILE_ID)
        } else {
            e7.at(a, b)
        });
        assert(e7.at(a, b) == if a == x + 2 && b == y + 1 {
            Some(crate::tiles::STAIRS_RIGHT_TILE_ID)
        } else {
            e6.at(a, b)
        });
        assert(e6.at(a, b) == if a == x + 1 && b == y + 1 {
            Some(crate::tiles::STAIRS_LEFT_TILE_ID)
        } else {
            e5.at(a, b)
        });
        assert(e5.at(a, b) == if a == x && b == y + 1 {
            Some(crate::tiles::POOL_EMPTY_TILE_ID)
        } else {
            e4.at(a, b)
        });
        assert(e4.at(a, b) == if a == x + 3 && b == y {
            Some(crate::tiles::MONSTER_PIPE_CLOSED_TILE_ID)
        } else {
            e3.at(a, b)
        });
        assert(e3.at(a, b) == if a == x + 2 && b == y {
            Some(crate::tiles::DOOR_RIGHT_CLOSED_TILE_ID)
        } else {
            e2.at(a, b)
        });
        assert(e2.at(a, b) == if a == x + 1 && b == y {
            Some(crate::tiles::DOOR_LEFT_CLOSED_TILE_ID)
        } else {
            e1.at(a, b)
        });
        if g.border_is_wall() && g.on_border(a, b) {
            assert(g.holds_wall(a, b));
        }
    }
    if g.full() {
        assert forall|a: int, b: int| e.in_bounds(a, b) implies (#[trigger] e.at(a, b)) is Some by {
            if !in_exit_footprint(p, a, b) {
                assert(g.at(a, b) is Some);
            }
        }
    }
    if g.border_is_wall() {
        assert forall|a: int, b: int| e.on_border(a, b) implies #[trigger] e.holds_wall(a, b) by {
            assert(g.holds_wall(a, b));
            if in_exit_footprint(p, a, b) {
                assert(e.at(a, b) is Some);
            }
        }
    }
    assert(exit_stands(e, p)) by {
        assert(e.at(x + 3, y + 1) == Some(crate::tiles::POOL_EMPTY_TILE_ID));
        assert(e7.at(x + 2, y + 1) == Some(crate::tiles::STAIRS_RIGHT_TILE_ID));
        assert(e6.at(x + 1, y + 1) == Some(crate::tiles::STAIRS_LEFT_TILE_ID));
        assert(e5.at(x, y + 1) == Some(crate::tiles::POOL_EMPTY_TILE_ID));
        assert(e4.at(x + 3, y) == Some(crate::tiles::MONSTER_PIPE_CLOSED_TILE_ID));
        assert(e3.at(x + 2, y) == Some(crate::tiles::DOOR_RIGHT_CLOSED_TILE_ID));
        assert(e2.at(x + 1, y) == Some(crate::tiles::DOOR_LEFT_CLOSED_TILE_ID));
        assert(e1.at(x, y) == Some(crate::tiles::MONSTER_PIPE_CLOSED_TILE_ID));
    }
    assert forall|k: int| 0 <= k < doors.len() && k != pick implies leaves_stand(
        e,
        #[trigger] doors[k],
    ) by {
        let q = doors[k];
        assert(door_stands(g, q, clearance));
        assert(exit_clear_of(doors[pick], doors[k]));
        assert(in_door_leaves(q, q.x + 1, q.y as int));
        assert(in_door_leaves(q, q.x + 2, q.y as int));
        assert(e.at(q.x + 1, q.y as int) == g.at(q.x + 1, q.y as int));
        assert(e.at(q.x + 2, q.y as int) == g.at(q.x + 2, q.y as int));
    }
}

/// A filler for a plain tile leaves the doors and the exit standing,
/// keeps a full grid full and a border of wall a border of wall.
pub proof fn lemma_filler_stage(
    g: GridView,
    h: GridView,
    src: u32,
    dst: u32,
    exit: Coord,
    doors: Seq<Coord>,
)
    requires
        g.wf(),
        filled_from(g, h, src, dst),
        is_plain_tile(src),
    ensures
        g.full() ==> h.full(),
        g.border_is_wall() ==> h.border_is_wall(),
        exit_stands(g, exit) ==> exit_stands(h, exit),
        forall|i: int|
            0 <= i < doors.len() && leaves_stand(g, #[trigger] doors[i]) ==> leaves_stand(
                h,
                doors[i],
            ),
{
    if g.full() {
        assert forall|a: int, b: int| h.in_bounds(a, b) implies (#[trigger] h.at(a, b)) is Some by {
            assert(g.at(a, b) is Some);
        }
    }
    if g.border_is_wall() {
        assert forall|a: int, b: int| h.on_border(a, b) implies #[trigger] h.holds_wall(a, b) by {
            assert(g.holds_wall(a, b));
            assert(h.at(a, b) == g.at(a, b));
        }
    }
    if exit_stands(g, exit) {
        let x = exit.x as int;
        let y = exit.y as int;
        assert(h.at(x, y) == g.at(x, y));
        assert(h.at(x + 1, y) == g.at(x + 1, y));
        assert(h.at(x + 2, y) == g.at(x + 2, y));
        assert(h.at(x + 3, y) == g.at(x + 3, y));
        assert(h.at(x, y + 1) == g.at(x, y + 1));
        assert(h.at(x + 1, y + 1) == g.at(x + 1, y + 1));
        assert(h.at(x + 2, y + 1) == g.at(x + 2, y + 1));
        assert(h.at(x + 3, y + 1) == g.at(x + 3, y + 1));
    }
    assert forall|i: int| 0 <= i < doors.len() && leaves_stand(g, #[trigger] doors[i]) implies leaves_stand(
        h,
        doors[i],
    ) by {
        let q = doors[i];
        assert(h.at(q.x + 1, q.y as int) == g.at(q.x + 1, q.y as int));
        assert(h.at(q.x + 2, q.y as int) == g.at(q.x + 2, q.y as int));
    }
}

/// Configuration of one layout generation.
#[derive(Debug)]
pub struct MapGenerator {
    pub ground_tile_id: u32,
    pub wall_tile_id: u32,
    pub tileset_id: String,
    pub size: Coord,
    pub min_room_size: Coord,
    pub max_room_size: Coord,
    pub max_room_count: u32,
    pub corridor_padding: Option<u32>,
    pub door_clearance: u32,
}

impl MapGenerator {
    /// The standard configuration for a grid of the given size.
    pub fn new(size: Coord) -> (r: Self)
        ensures
            r.ground_tile_id == GROUND_01_TILE_ID,
            r.wall_tile_id == WALL_01_TILE_ID,
            r.tileset_id@ == TILESET_MAP_ID@,
            r.size == size,
            r.min_room_size == (Coord { x: MIN_ROOM_SIDE, y: MIN_ROOM_SIDE }),
            r.max_room_size == (Coord { x: MAX_ROOM_SIDE, y: MAX_ROOM_SIDE }),
            r.max_room_count == MAX_ROOM_COUNT,
            r.corridor_padding == Some(CORRIDOR_PADDING),
            r.door_clearance == DOOR_CLEARANCE,
    {
        MapGenerator {
            ground_tile_id: GROUND_01_TILE_ID,
            wall_tile_id: WALL_01_TILE_ID,
            tileset_id: TILESET_MAP_ID.to_owned(),
            size,
            min_room_size: Coord { x: MIN_ROOM_SIDE, y: MIN_ROOM_SIDE },
            max_room_size: Coord { x: MAX_ROOM_SIDE, y: MAX_ROOM_SIDE },
            max_room_count: MAX_ROOM_COUNT,
            corridor_padding: Some(CORRIDOR_PADDING),
            door_clearance: DOOR_CLEARANCE,
        }
    }

    /// The result is put together from the doors `placed`, of which door
    /// `pick` became the exit: the doors were set one after the other into
    /// the detailed layout of the rooms, each at a place that was a door
    /// candidate when its turn came; the exit is door `pick` and the guard
    /// doors are the others, in their order; and the grid is the detailed
    /// layout with the doors set and the exit in its place, but for
    /// cosmetic variants inside the outermost ring.
    pub open spec fn assembles(&self, res: &MapGenResult, placed: Seq<Coord>, pick: int) -> bool {
        let detailed = wall_details_result(self.layout(res.rooms@));
        &&& doors_valid(detailed, placed, self.door_clearance as int)
        &&& 0 <= pick < placed.len()
        &&& res.exit_door == placed[pick]
        &&& res.guard_doors@ == placed.remove(pick)
        &&& varied_from(
            with_exit(with_doors(detailed, placed), res.exit_door.x as int, res.exit_door.y as int),
            res.layer@,
        )
    }

    /// The rooms are a list that the room stage may hand on, and the doors
    /// `placed`, set into the detailed layout of these rooms one after the
    /// other and each at a candidate, leave no candidate and are fewer
    /// than the rooms.
    pub open spec fn falls_short(&self, rooms: Seq<Room>, placed: Seq<Coord>) -> bool {
        &&& 1 <= rooms.len() <= self.max_room_count
        &&& self.all_admitted(rooms)
        &&& self.all_sized(rooms)
        &&& disjoint(rooms)
        &&& ran_short(
            wall_details_result(self.layout(rooms)),
            placed,
            rooms.len() as int,
            self.door_clearance as int,
        )
    }

    /// There are rooms that the room stage may place and whose detailed
    /// layout can run out of door places before every room has its door:
    /// see [`MapGenerator::falls_short`].
    pub open spec fn short_of_doors(&self) -> bool {
        exists|rooms: Seq<Room>, placed: Seq<Coord>| #[trigger] self.falls_short(rooms, placed)
    }

    /// The result is put together from its rooms, some doors and an exit:
    /// see [`MapGenerator::assembles`].
    pub open spec fn assembled(&self, res: &MapGenResult) -> bool {
        exists|placed: Seq<Coord>, pick: int| #[trigger] self.assembles(res, placed, pick)
    }

    /// What holds of every generated layout: the grid has the configured
    /// size and no empty cell, and its outermost ring is wall if the
    /// configured wall tile is of the wall class; there is at least one
    /// room, the rooms lie inside the ring, are sized as configured and do
    /// not overlap; there is one door for every room, of which one is the
    /// exit; every guard door's leaves and the whole exit stand in the
    /// grid, no guard door has a leaf in the exit's footprint, and none has
    /// its facade stretch reach into it but by the one cell that doors
    /// three columns apart share; and the
    /// grid is what the rooms, the doors and the exit make it, but for
    /// cosmetic variants: see [`MapGenerator::assembles`].
    pub open spec fn generated(&self, res: &MapGenResult) -> bool {
        &&& self.assembled(res)
        &&& res.layer.wf()
        &&& res.layer.width == self.size.x
        &&& res.layer.height == self.size.y
        &&& res.layer@.full()
        &&& is_wall_class(self.wall_tile_id) ==> res.layer@.border_is_wall()
        &&& 1 <= res.rooms@.len() <= self.max_room_count
        &&& self.all_admitted(res.rooms@)
        &&& self.all_sized(res.rooms@)
        &&& disjoint(res.rooms@)
        &&& res.guard_doors@.len() + 1 == res.rooms@.len()
        &&& exit_stands(res.layer@, res.exit_door)
        &&& forall|i: int|
            0 <= i < res.guard_doors@.len() ==> leaves_stand(
                res.layer@,
                #[trigger] res.guard_doors@[i],
            ) && exit_clear_of(res.exit_door, res.guard_doors@[i]) && footprints_clear(
                res.exit_door,
                res.guard_doors@[i],
            )
    }

    /// Generates a layout: rooms and corridors, wall details, one door for
    /// each room, of which one becomes the exit, and cosmetic fillers.
    ///
    /// Fails with `InvalidConfig` exactly on a configuration that
    /// [`MapGenerator::config_ok`] rejects, before anything is drawn. On
    /// any other it returns a layout, or `InsufficientDoorCandidates` when
    /// none of [`DOOR_ATTEMPTS`] attempts at the doors, each on the grid as
    /// the wall detailing left it, found a place for every door. That
    /// error comes only where rooms can be placed whose layout can run out
    /// of door places: where every layout of the configuration has a door
    /// place for each of its rooms however the doors are set, a layout is
    /// returned.
    pub fn generate_layer(&self) -> (r: Result<MapGenResult, MapGenError>)
        ensures
            (r is Err && r->Err_0 == MapGenError::InvalidConfig) <==> !self.config_ok(),
            (r is Err && r->Err_0 == MapGenError::InsufficientDoorCandidates)
                ==> self.short_of_doors(),
            r is Ok ==> self.generated(&r->Ok_0),
    {
        if self.validate().is_err() {
            return Err(MapGenError::InvalidConfig);
        }
        let (mut base, rooms) = self.generate_rooms();
        proof {
            self.lemma_laid_out(base@, rooms@);
        }
        self.rewrite_wall_details(&mut base);
        let num_doors = rooms.len();
        let ghost cl = self.door_clearance as int;
        let ghost detailed = base@;
        let mut layer = base;
        let (guard_doors, exit_door) = match self.place_doors(&mut layer, num_doors) {
            Ok(doors) => doors,
            Err(e) => {
                proof {
                    assert(short_of_places(detailed, num_doors as int, cl));
                    let placed = choose|placed: Seq<Coord>| #[trigger]
                        ran_short(detailed, placed, num_doors as int, cl);
                    assert(self.falls_short(rooms@, placed));
                }
                return Err(e);
            },
        };
        assert(doors_set(detailed, layer@, guard_doors@, exit_door, cl));
        let ghost (placed, pick) = choose|placed: Seq<Coord>, pick: int| #[trigger]
            doors_placed(detailed, layer@, guard_doors@, exit_door, cl, placed, pick);
        proof {
            let doored = with_doors(detailed, placed);
            lemma_doors_stand(detailed, placed, cl);
            lemma_doors_apart(detailed, placed, cl);
            lemma_doors_frame(detailed, placed, cl);
            lemma_exit_stage(doored, placed, pick, cl);
            assert forall|i: int| 0 <= i < guard_doors@.len() implies leaves_stand(
                layer@,
                #[trigger] guard_doors@[i],
            ) && exit_clear_of(exit_door, guard_doors@[i]) && footprints_clear(
                exit_door,
                guard_doors@[i],
            ) by {
                if i < pick {
                    assert(guard_doors@[i] == placed[i]);
                } else {
                    assert(guard_doors@[i] == placed[i + 1]);
                }
            }
        }

        let ghost g0 = layer@;
        self.rewrite_random_filler(WALL_01_TILE_ID, WALL_02_TILE_ID, TILE_FILLER_PROB, &mut layer);
        proof {
            lemma_filler_stage(g0, layer@, WALL_01_TILE_ID, WALL_02_TILE_ID, exit_door, guard_doors@);
            lemma_filler_varies(g0, g0, layer@, WALL_01_TILE_ID, WALL_02_TILE_ID);
        }
        let ghost g1 = layer@;
        self.rewrite_random_filler(WALL_01_TILE_ID, WALL_03_TILE_ID, TILE_FILLER_PROB, &mut layer);
        proof {
            lemma_filler_stage(g1, layer@, WALL_01_TILE_ID, WALL_03_TILE_ID, exit_door, guard_doors@);
            lemma_filler_varies(g0, g1, layer@, WALL_01_TILE_ID, WALL_03_TILE_ID);
        }
        let ghost g2 = layer@;
        self.rewrite_random_filler(GROUND_01_TILE_ID, GROUND_02_TILE_ID, TILE_FILLER_PROB, &mut layer);
        proof {
            lemma_filler_stage(
                g2,
                layer@,
                GROUND_01_TILE_ID,
                GROUND_02_TILE_ID,
                exit_door,
                guard_doors@,
            );
            lemma_filler_varies(g0, g2, layer@, GROUND_01_TILE_ID, GROUND_02_TILE_ID);
        }
        let ghost g3 = layer@;
        self.rewrite_random_filler(GROUND_01_TILE_ID, GROUND_03_TILE_ID, TILE_FILLER_PROB, &mut layer);
        proof {
            lemma_filler_stage(
                g3,
                layer@,
                GROUND_01_TILE_ID,
                GROUND_03_TILE_ID,
                exit_door,
                guard_doors@,
            );
            lemma_filler_varies(g0, g3, layer@, GROUND_01_TILE_ID, GROUND_03_TILE_ID);
        }
        let ghost g4 = layer@;
        self.rewrite_random_filler(
            FACADE_CENTER_TILE_ID,
            FACADE_CENTER_02_TILE_ID,
            TILE_FILLER_PROB * 10,
            &mut layer,
        );
        proof {
            lemma_filler_stage(
                g4,
                layer@,
                FACADE_CENTER_TILE_ID,
                FACADE_CENTER_02_TILE_ID,
                exit_door,
                guard_doors@,
            );
            lemma_filler_varies(g0, g4, layer@, FACADE_CENTER_TILE_ID, FACADE_CENTER_02_TILE_ID);
        }
        let res = MapGenResult { layer, rooms, guard_doors, exit_door };
        proof {
            assert(self.assembles(&res, placed, pick));
        }
        Ok(res)
    }

    /// A laid-out grid is full, and its outermost ring is wall if the
    /// configured wall tile is of the wall class.
    pub proof fn lemma_laid_out(&self, g: GridView, rooms: Seq<Room>)
        requires
            self.well_laid(g, rooms),
        ensures
            g.full(),
            is_wall_class(self.wall_tile_id) ==> g.border_is_wall(),
    {
        assert forall|x: int, y: int| g.in_bounds(x, y) implies (#[trigger] g.at(x, y)) is Some by {
            assert(g.at(x, y) == Some(self.wall_tile_id) || g.at(x, y) == Some(self.ground_tile_id));
        }
    }
}

} // verus!
