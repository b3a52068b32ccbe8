use macroquad::rand::srand;
use stonehold::generator::{MapGenError, MapGenerator};
use stonehold::grid::{Coord, TileGrid};
use stonehold::tiles::{
    DOOR_LEFT_CLOSED_TILE_ID, DOOR_LEFT_OPEN_TILE_ID, DOOR_RIGHT_CLOSED_TILE_ID,
    DOOR_RIGHT_OPEN_TILE_ID, FACADE_CENTER_TILE_ID, GROUND_01_TILE_ID,
    MONSTER_PIPE_CLOSED_TILE_ID, POOL_EMPTY_TILE_ID, STAIRS_LEFT_TILE_ID, STAIRS_RIGHT_TILE_ID,
    WALL_01_TILE_ID,
};

/// A grid of wall with a stretch of facade in row `y` from column `x` on,
/// `width` cells wide, and `rows` rows of ground beneath it.
fn facade_grid(size: u32, x: u32, y: u32, width: u32, rows: u32) -> TileGrid {
    let mut layer = TileGrid::filled(size, size, Some(WALL_01_TILE_ID)).unwrap();
    layer.fill_rect(x, y, x + width, y + 1, Some(FACADE_CENTER_TILE_ID));
    layer.fill_rect(x, y + 1, x + width, y + 1 + rows, Some(GROUND_01_TILE_ID));
    layer
}

#[test]
fn one_facade_with_clearance_is_the_one_candidate() {
    let mut mapgen = MapGenerator::new(Coord { x: 12, y: 12 });
    mapgen.door_clearance = 8;
    let layer = facade_grid(12, 3, 2, 4, 7);
    assert_eq!(mapgen.find_door_candidates(&layer), vec![Coord { x: 3, y: 2 }]);
    for y in 0..12 {
        for x in 0..12 {
            assert_eq!(mapgen.check_door_candidate(x, y, &layer), (x, y) == (3, 2));
        }
    }
}

#[test]
fn a_candidate_needs_all_of_its_facade_and_all_of_its_clearance() {
    let mut mapgen = MapGenerator::new(Coord { x: 12, y: 12 });
    mapgen.door_clearance = 8;

    // one row of ground short
    let layer = facade_grid(12, 3, 2, 4, 6);
    assert!(!mapgen.check_door_candidate(3, 2, &layer));
    assert!(mapgen.find_door_candidates(&layer).is_empty());

    // one cell of facade short
    let layer = facade_grid(12, 3, 2, 3, 7);
    assert!(mapgen.find_door_candidates(&layer).is_empty());

    // one cell of the clearance is not plain ground
    for (x, y) in [(3, 3), (6, 9), (4, 6)] {
        let mut layer = facade_grid(12, 3, 2, 4, 7);
        layer.set(x, y, Some(WALL_01_TILE_ID));
        assert!(!mapgen.check_door_candidate(3, 2, &layer));
    }
    // the row beneath the clearance does not matter
    let mut layer = facade_grid(12, 3, 2, 4, 7);
    layer.set(3, 10, Some(GROUND_01_TILE_ID));
    assert!(mapgen.check_door_candidate(3, 2, &layer));

    // an empty cell is neither facade nor ground
    let mut layer = facade_grid(12, 3, 2, 4, 7);
    layer.set(5, 2, None);
    assert!(!mapgen.check_door_candidate(3, 2, &layer));
    let mut layer = facade_grid(12, 3, 2, 4, 7);
    layer.set(5, 5, None);
    assert!(!mapgen.check_door_candidate(3, 2, &layer));

    // the clearance has to lie inside the grid
    let layer = facade_grid(12, 3, 5, 4, 6);
    assert!(!mapgen.check_door_candidate(3, 5, &layer));
    mapgen.door_clearance = 7;
    assert!(mapgen.check_door_candidate(3, 5, &layer));
    assert!(!mapgen.check_door_candidate(9, 5, &layer));
    assert!(!mapgen.check_door_candidate(u32::MAX, 5, &layer));
    assert!(!mapgen.check_door_candidate(3, u32::MAX, &layer));
}

#[test]
fn candidates_come_in_the_order_of_a_pass() {
    let mut mapgen = MapGenerator::new(Coord { x: 16, y: 16 });
    mapgen.door_clearance = 3;
    let mut layer = facade_grid(16, 2, 8, 6, 2);
    layer.fill_rect(3, 1, 7, 2, Some(FACADE_CENTER_TILE_ID));
    layer.fill_rect(3, 2, 7, 4, Some(GROUND_01_TILE_ID));
    assert_eq!(
        mapgen.find_door_candidates(&layer),
        vec![
            Coord { x: 2, y: 8 },
            Coord { x: 3, y: 1 },
            Coord { x: 3, y: 8 },
            Coord { x: 4, y: 8 },
        ]
    );
}

#[test]
fn a_door_takes_the_two_middle_cells_and_spoils_its_neighbours() {
    let mut mapgen = MapGenerator::new(Coord { x: 16, y: 12 });
    mapgen.door_clearance = 3;
    // seven cells of facade: candidates at columns 2, 3, 4 and 5
    let mut layer = TileGrid::filled(16, 12, Some(WALL_01_TILE_ID)).unwrap();
    layer.fill_rect(2, 2, 9, 3, Some(FACADE_CENTER_TILE_ID));
    layer.fill_rect(2, 3, 9, 5, Some(GROUND_01_TILE_ID));
    let mut candidates = mapgen.find_door_candidates(&layer);
    assert_eq!(
        candidates,
        vec![Coord { x: 2, y: 2 }, Coord { x: 3, y: 2 }, Coord { x: 4, y: 2 }, Coord { x: 5, y: 2 }]
    );
    let mut doors = Vec::new();

    assert!(mapgen.place_door(&mut layer, &mut candidates, &mut doors, 0));
    assert_eq!(doors, vec![Coord { x: 2, y: 2 }]);
    assert_eq!(candidates, vec![Coord { x: 3, y: 2 }, Coord { x: 4, y: 2 }, Coord { x: 5, y: 2 }]);
    assert_eq!(layer.get(2, 2), Some(FACADE_CENTER_TILE_ID));
    assert_eq!(layer.get(3, 2), Some(DOOR_LEFT_OPEN_TILE_ID));
    assert_eq!(layer.get(4, 2), Some(DOOR_RIGHT_OPEN_TILE_ID));
    assert_eq!(layer.get(5, 2), Some(FACADE_CENTER_TILE_ID));

    // the places one and two columns on are spoilt
    let before = layer.data.clone();
    assert!(!mapgen.place_door(&mut layer, &mut candidates, &mut doors, 0));
    assert!(!mapgen.place_door(&mut layer, &mut candidates, &mut doors, 0));
    assert_eq!(layer.data, before);
    assert_eq!(doors, vec![Coord { x: 2, y: 2 }]);
    assert_eq!(candidates, vec![Coord { x: 5, y: 2 }]);

    // the place three columns on is good still
    assert!(mapgen.place_door(&mut layer, &mut candidates, &mut doors, 0));
    assert_eq!(doors, vec![Coord { x: 2, y: 2 }, Coord { x: 5, y: 2 }]);
    assert!(candidates.is_empty());
    assert_eq!(layer.get(5, 2), Some(FACADE_CENTER_TILE_ID));
    assert_eq!(layer.get(6, 2), Some(DOOR_LEFT_OPEN_TILE_ID));
    assert_eq!(layer.get(7, 2), Some(DOOR_RIGHT_OPEN_TILE_ID));
    assert_eq!(layer.get(8, 2), Some(FACADE_CENTER_TILE_ID));
    assert!(mapgen.find_door_candidates(&layer).is_empty());
}

#[test]
fn doors_are_set_until_enough_are_set_or_no_place_is_left() {
    let mut mapgen = MapGenerator::new(Coord { x: 16, y: 12 });
    mapgen.door_clearance = 3;
    for seed in 0..50u64 {
        srand(seed);
        let mut layer = TileGrid::filled(16, 12, Some(WALL_01_TILE_ID)).unwrap();
        layer.fill_rect(2, 2, 9, 3, Some(FACADE_CENTER_TILE_ID));
        layer.fill_rect(2, 3, 9, 5, Some(GROUND_01_TILE_ID));
        let doors = mapgen.generate_guard_doors(1, &mut layer);
        assert_eq!(doors.len(), 1);
        assert!((2..=5).contains(&doors[0].x) && doors[0].y == 2);
        assert_eq!(layer.get(doors[0].x + 1, 2), Some(DOOR_LEFT_OPEN_TILE_ID));
        assert_eq!(layer.get(doors[0].x + 2, 2), Some(DOOR_RIGHT_OPEN_TILE_ID));

        // seven cells of facade hold two doors at best
        let mut layer = TileGrid::filled(16, 12, Some(WALL_01_TILE_ID)).unwrap();
        layer.fill_rect(2, 2, 9, 3, Some(FACADE_CENTER_TILE_ID));
        layer.fill_rect(2, 3, 9, 5, Some(GROUND_01_TILE_ID));
        let doors = mapgen.generate_guard_doors(5, &mut layer);
        assert!(doors.len() == 1 || doors.len() == 2);
        assert!(mapgen.find_door_candidates(&layer).is_empty());
        if doors.len() == 2 {
            let (a, b) = (doors[0].x.min(doors[1].x), doors[0].x.max(doors[1].x));
            assert!(b - a >= 3);
        }
        let leaves = layer.data.iter().filter(|c| **c == Some(DOOR_LEFT_OPEN_TILE_ID)).count();
        assert_eq!(leaves, doors.len());

        let mut layer = TileGrid::filled(16, 12, Some(WALL_01_TILE_ID)).unwrap();
        assert!(mapgen.generate_guard_doors(3, &mut layer).is_empty());
        let mut layer = facade_grid(16, 2, 2, 7, 2);
        let before = layer.data.clone();
        assert!(mapgen.generate_guard_doors(0, &mut layer).is_empty());
        assert_eq!(layer.data, before);
    }
}

#[test]
fn both_ways_of_setting_doors_into_seven_cells_occur() {
    let mut mapgen = MapGenerator::new(Coord { x: 16, y: 12 });
    mapgen.door_clearance = 3;
    let mut counts = [0, 0, 0];
    for seed in 0..200u64 {
        srand(seed);
        let mut layer = facade_grid(16, 2, 2, 7, 2);
        let doors = mapgen.generate_guard_doors(5, &mut layer);
        counts[doors.len()] += 1;
    }
    assert_eq!(counts[0], 0);
    assert!(counts[1] > 0);
    assert!(counts[2] > 0);
}

#[test]
fn the_exit_takes_four_columns_and_two_rows() {
    let mapgen = MapGenerator::new(Coord { x: 8, y: 6 });
    let mut layer = TileGrid::filled(8, 6, Some(WALL_01_TILE_ID)).unwrap();
    mapgen.rewrite_exit_door(Coord { x: 2, y: 1 }, &mut layer);
    let w = Some(WALL_01_TILE_ID);
    let mut want = vec![w; 48];
    want[8 + 2] = Some(MONSTER_PIPE_CLOSED_TILE_ID);
    want[8 + 3] = Some(DOOR_LEFT_CLOSED_TILE_ID);
    want[8 + 4] = Some(DOOR_RIGHT_CLOSED_TILE_ID);
    want[8 + 5] = Some(MONSTER_PIPE_CLOSED_TILE_ID);
    want[16 + 2] = Some(POOL_EMPTY_TILE_ID);
    want[16 + 3] = Some(STAIRS_LEFT_TILE_ID);
    want[16 + 4] = Some(STAIRS_RIGHT_TILE_ID);
    want[16 + 5] = Some(POOL_EMPTY_TILE_ID);
    assert_eq!(layer.data, want);
    assert_eq!(
        (MONSTER_PIPE_CLOSED_TILE_ID, DOOR_LEFT_CLOSED_TILE_ID, DOOR_RIGHT_CLOSED_TILE_ID),
        (19, 46, 47)
    );
    assert_eq!((POOL_EMPTY_TILE_ID, STAIRS_LEFT_TILE_ID, STAIRS_RIGHT_TILE_ID), (31, 36, 38));
}

#[test]
fn promoting_a_door_takes_it_off_the_list() {
    let mut mapgen = MapGenerator::new(Coord { x: 16, y: 12 });
    mapgen.door_clearance = 3;
    let mut layer = facade_grid(16, 2, 2, 7, 2);
    let mut candidates = mapgen.find_door_candidates(&layer);
    let mut doors = Vec::new();
    assert!(mapgen.place_door(&mut layer, &mut candidates, &mut doors, 3));
    assert!(mapgen.place_door(&mut layer, &mut candidates, &mut doors, 0));
    assert_eq!(doors, vec![Coord { x: 5, y: 2 }, Coord { x: 2, y: 2 }]);

    let exit = mapgen.promote_exit(&mut layer, &mut doors, 0);
    assert_eq!(exit, Coord { x: 5, y: 2 });
    assert_eq!(doors, vec![Coord { x: 2, y: 2 }]);
    // the exit
    assert_eq!(layer.get(5, 2), Some(MONSTER_PIPE_CLOSED_TILE_ID));
    assert_eq!(layer.get(6, 2), Some(DOOR_LEFT_CLOSED_TILE_ID));
    assert_eq!(layer.get(7, 2), Some(DOOR_RIGHT_CLOSED_TILE_ID));
    assert_eq!(layer.get(8, 2), Some(MONSTER_PIPE_CLOSED_TILE_ID));
    assert_eq!(layer.get(5, 3), Some(POOL_EMPTY_TILE_ID));
    assert_eq!(layer.get(6, 3), Some(STAIRS_LEFT_TILE_ID));
    assert_eq!(layer.get(7, 3), Some(STAIRS_RIGHT_TILE_ID));
    assert_eq!(layer.get(8, 3), Some(POOL_EMPTY_TILE_ID));
    // the guard door three columns to the left keeps both its leaves
    assert_eq!(layer.get(3, 2), Some(DOOR_LEFT_OPEN_TILE_ID));
    assert_eq!(layer.get(4, 2), Some(DOOR_RIGHT_OPEN_TILE_ID));
}

#[test]
fn placing_doors_sets_one_for_each_room_and_makes_one_the_exit() {
    let mut mapgen = MapGenerator::new(Coord { x: 16, y: 12 });
    mapgen.door_clearance = 3;
    let mut exits = Vec::new();
    for seed in 0..100u64 {
        srand(seed);
        // two stretches of facade, each good for one door
        let mut layer = facade_grid(16, 2, 2, 4, 2);
        layer.fill_rect(9, 7, 13, 8, Some(FACADE_CENTER_TILE_ID));
        layer.fill_rect(9, 8, 13, 10, Some(GROUND_01_TILE_ID));
        let (guards, exit) = mapgen.place_doors(&mut layer, 2).unwrap();
        assert_eq!(guards.len(), 1);
        let places = [Coord { x: 2, y: 2 }, Coord { x: 9, y: 7 }];
        assert!(places.contains(&exit) && places.contains(&guards[0]));
        assert_ne!(exit, guards[0]);
        assert_eq!(layer.get(guards[0].x + 1, guards[0].y), Some(DOOR_LEFT_OPEN_TILE_ID));
        assert_eq!(layer.get(guards[0].x + 2, guards[0].y), Some(DOOR_RIGHT_OPEN_TILE_ID));
        assert_eq!(layer.get(exit.x, exit.y), Some(MONSTER_PIPE_CLOSED_TILE_ID));
        assert_eq!(layer.get(exit.x + 1, exit.y), Some(DOOR_LEFT_CLOSED_TILE_ID));
        assert_eq!(layer.get(exit.x + 2, exit.y + 1), Some(STAIRS_RIGHT_TILE_ID));
        if !exits.contains(&exit) {
            exits.push(exit);
        }
    }
    // either door may become the exit
    assert_eq!(exits.len(), 2);
}

#[test]
fn placing_doors_gives_up_where_the_places_do_not_suffice() {
    let mut mapgen = MapGenerator::new(Coord { x: 16, y: 12 });
    mapgen.door_clearance = 3;
    for seed in 0..20u64 {
        srand(seed);
        // seven cells of facade hold two doors at best
        let mut layer = facade_grid(16, 2, 2, 7, 2);
        let before = layer.data.clone();
        assert_eq!(
            mapgen.place_doors(&mut layer, 3).err(),
            Some(MapGenError::InsufficientDoorCandidates)
        );
        assert_eq!(layer.data, before);
        // ten attempts find the two places three cells apart
        let (guards, exit) = mapgen.place_doors(&mut layer, 2).unwrap();
        assert_eq!(guards.len(), 1);
        let (a, b) = (guards[0].x.min(exit.x), guards[0].x.max(exit.x));
        assert_eq!((a, b), (2, 5));
    }
}

#[test]
fn placing_doors_rejects_what_cannot_work() {
    let mut mapgen = MapGenerator::new(Coord { x: 16, y: 12 });
    let mut layer = facade_grid(16, 2, 2, 7, 7);
    let before = layer.data.clone();
    assert_eq!(mapgen.place_doors(&mut layer, 0).err(), Some(MapGenError::InvalidConfig));
    mapgen.door_clearance = 1;
    assert_eq!(mapgen.place_doors(&mut layer, 1).err(), Some(MapGenError::InvalidConfig));
    assert_eq!(layer.data, before);
    mapgen.door_clearance = 2;
    assert!(mapgen.place_doors(&mut layer, 1).is_ok());
    // a grid of more than a million cells is no obstacle
    let mut large = TileGrid::filled(1200, 1000, Some(WALL_01_TILE_ID)).unwrap();
    large.fill_rect(600, 500, 604, 501, Some(FACADE_CENTER_TILE_ID));
    large.fill_rect(600, 501, 604, 502, Some(GROUND_01_TILE_ID));
    assert_eq!(mapgen.place_doors(&mut large, 1), Ok((Vec::new(), Coord { x: 600, y: 500 })));
    assert_eq!(
        mapgen.place_doors(&mut large, 1).err(),
        Some(MapGenError::InsufficientDoorCandidates)
    );
}

#[test]
fn doors_three_columns_apart_share_one_facade_cell_and_no_leaf() {
    let mut mapgen = MapGenerator::new(Coord { x: 16, y: 12 });
    mapgen.door_clearance = 3;
    let mut layer = facade_grid(16, 2, 2, 7, 2);
    let mut candidates = mapgen.find_door_candidates(&layer);
    let mut doors = Vec::new();
    assert!(mapgen.place_door(&mut layer, &mut candidates, &mut doors, 0));
    assert!(mapgen.place_door(&mut layer, &mut candidates, &mut doors, 2));
    assert_eq!(doors, vec![Coord { x: 2, y: 2 }, Coord { x: 5, y: 2 }]);
    // columns 2..6 and 5..9 meet in column 5, which stays facade
    assert_eq!(layer.get(5, 2), Some(FACADE_CENTER_TILE_ID));
    let exit = mapgen.promote_exit(&mut layer, &mut doors, 1);
    assert_eq!(exit, Coord { x: 5, y: 2 });
    assert_eq!(layer.get(5, 2), Some(MONSTER_PIPE_CLOSED_TILE_ID));
    // the guard door keeps its leaves and its first facade cell
    assert_eq!(layer.get(2, 2), Some(FACADE_CENTER_TILE_ID));
    assert_eq!(layer.get(3, 2), Some(DOOR_LEFT_OPEN_TILE_ID));
    assert_eq!(layer.get(4, 2), Some(DOOR_RIGHT_OPEN_TILE_ID));
}
