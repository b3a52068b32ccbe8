use stonehold::grid::{itoxy, xytoi, Coord, TileGrid};
use stonehold::generator::MapGenerator;
use stonehold::scan::Pass;
use stonehold::tiles::{
    is_wall_tile, FACADE_CENTER_TILE_ID, FACADE_LEFT_TILE_ID, FACADE_RIGHT_TILE_ID,
    GROUND_01_TILE_ID, WALL_01_TILE_ID, WALL_02_TILE_ID, WALL_DOWN_TILE_ID, WALL_INNER_DL_ID,
    WALL_INNER_DR_ID, WALL_INNER_UL_ID, WALL_INNER_UR_ID, WALL_LEFT_TILE_ID, WALL_OUTER_DL_ID,
    WALL_OUTER_DR_ID, WALL_OUTER_UL_ID, WALL_OUTER_UR_ID, WALL_RIGHT_TILE_ID, WALL_UP_TILE_ID,
};

fn walls(width: u32, height: u32) -> TileGrid {
    let mut layer = TileGrid { width, height, data: Vec::new() };
    for _i in 0..(width * height) {
        layer.data.push(Some(WALL_01_TILE_ID));
    }
    layer
}

fn from_rows(rows: &[&str]) -> TileGrid {
    let height = rows.len() as u32;
    let width = rows[0].len() as u32;
    let mut layer = walls(width, height);
    for (y, row) in rows.iter().enumerate() {
        for (x, c) in row.chars().enumerate() {
            let id = match c {
                '#' => WALL_01_TILE_ID,
                '.' => GROUND_01_TILE_ID,
                'F' => FACADE_CENTER_TILE_ID,
                _ => unreachable!(),
            };
            layer.set(x as u32, y as u32, Some(id));
        }
    }
    layer
}

#[test]
fn test_mapgen_corner_tile_horizontal_performs_rewrite() {
    // create test layer
    let (width, height) = (3, 2);
    let mut layer = TileGrid { width, height, data: Vec::new() };

    // fill with walls
    for _i in 0..(width * height) {
        layer.data.push(Some(WALL_01_TILE_ID));
    }

    // create mapgen
    let mapgen = MapGenerator::new(Coord { x: width, y: height });

    // check that the rewrite does not trigger on the base case
    let did_rewrite = mapgen.try_rewrite_double_corner_horizontal(0, 0, &mut layer);
    assert_eq!(did_rewrite, false);
    for i in 0..(width * height) {
        if let &Some(tile) = &layer.data[i as usize].as_ref() {
            assert_eq!(*tile, WALL_01_TILE_ID);
            continue;
        }
        panic!("None tile found");
    }

    // create double corner pattern (variant 1)
    let i = xytoi(0, 0, &layer);
    layer.data[i] = Some(GROUND_01_TILE_ID);
    let i = xytoi(2, 1, &layer);
    layer.data[i] = Some(GROUND_01_TILE_ID);

    // check that double corner variant 1 rewrites correctly
    let did_rewrite = mapgen.try_rewrite_double_corner_horizontal(0, 0, &mut layer);
    assert_eq!(did_rewrite, true);
    for i in 0..(width * height) {
        if let &Some(tile) = &layer.data[i as usize].as_ref() {
            assert_eq!(*tile, WALL_01_TILE_ID);
            continue;
        }
        panic!("None tile found");
    }

    // create double corner pattern (variant 2)
    let i = xytoi(0, 1, &layer);
    layer.data[i] = Some(GROUND_01_TILE_ID);
    let i = xytoi(2, 0, &layer);
    layer.data[i] = Some(GROUND_01_TILE_ID);

    // check that double corner variant 2 rewrites correctly
    let did_rewrite = mapgen.try_rewrite_double_corner_horizontal(0, 0, &mut layer);
    assert_eq!(did_rewrite, true);
    for i in 0..(width * height) {
        if let &Some(tile) = &layer.data[i as usize].as_ref() {
            assert_eq!(*tile, WALL_01_TILE_ID);
            continue;
        }
        panic!("None tile found");
    }
}

#[test]
fn test_mapgen_corner_tile_vertical_performs_rewrite() {
    // create test layer
    let (width, height) = (2, 3);
    let mut layer = TileGrid { width, height, data: Vec::new() };

    // fill with walls
    for _i in 0..(width * height) {
        layer.data.push(Some(WALL_01_TILE_ID));
    }

    // create mapgen
    let mapgen = MapGenerator::new(Coord { x: width, y: height });

    // check that the rewrite does not trigger on the base case
    let did_rewrite = mapgen.try_rewrite_double_corner_vertical(0, 0, &mut layer);
    assert_eq!(did_rewrite, false);
    for i in 0..(width * height) {
        if let &Some(tile) = &layer.data[i as usize].as_ref() {
            assert_eq!(*tile, WALL_01_TILE_ID);
            continue;
        }
        panic!("None tile found");
    }

    // create double corner pattern (variant 1)
    let i = xytoi(0, 0, &layer);
    layer.data[i] = Some(GROUND_01_TILE_ID);
    let i = xytoi(1, 2, &layer);
    layer.data[i] = Some(GROUND_01_TILE_ID);

    // check that double corner variant 1 rewrites correctly
    let did_rewrite = mapgen.try_rewrite_double_corner_vertical(0, 0, &mut layer);
    assert_eq!(did_rewrite, true);
    for i in 0..(width * height) {
        if let &Some(tile) = &layer.data[i as usize].as_ref() {
            assert_eq!(*tile, WALL_01_TILE_ID);
            continue;
        }
        panic!("None tile found");
    }

    // create double corner pattern (variant 2)
    let i = xytoi(1, 0, &layer);
    layer.data[i] = Some(GROUND_01_TILE_ID);
    let i = xytoi(0, 2, &layer);
    layer.data[i] = Some(GROUND_01_TILE_ID);

    // check that double corner variant 2 rewrites correctly
    let did_rewrite = mapgen.try_rewrite_double_corner_vertical(0, 0, &mut layer);
    assert_eq!(did_rewrite, true);
    for i in 0..(width * height) {
        if let &Some(tile) = &layer.data[i as usize].as_ref() {
            assert_eq!(*tile, WALL_01_TILE_ID);
            continue;
        }
        panic!("None tile found");
    }
}

#[test]
fn index_of_a_cell_is_row_times_width_plus_column() {
    let layer = walls(3, 2);
    assert_eq!(xytoi(0, 0, &layer), 0);
    assert_eq!(xytoi(2, 0, &layer), 2);
    assert_eq!(xytoi(0, 1, &layer), 3);
    assert_eq!(xytoi(2, 1, &layer), 5);
    assert_eq!(itoxy(5, &layer), Coord { x: 2, y: 1 });
    assert_eq!(itoxy(3, &layer), Coord { x: 0, y: 1 });
}

#[test]
fn filled_grid_has_one_entry_per_cell() {
    let layer = TileGrid::filled(4, 3, Some(WALL_01_TILE_ID)).unwrap();
    assert_eq!(layer.width, 4);
    assert_eq!(layer.height, 3);
    assert_eq!(layer.data.len(), 12);
    assert!(layer.data.iter().all(|c| *c == Some(WALL_01_TILE_ID)));
    assert!(TileGrid::filled(65536, 65536, None).is_none());
}

#[test]
fn fill_rect_touches_only_the_rectangle() {
    let mut layer = walls(5, 4);
    layer.fill_rect(1, 1, 3, 3, Some(GROUND_01_TILE_ID));
    for y in 0..4 {
        for x in 0..5 {
            let inside = (1..3).contains(&x) && (1..3).contains(&y);
            let want = if inside { GROUND_01_TILE_ID } else { WALL_01_TILE_ID };
            assert_eq!(layer.get(x, y), Some(want));
        }
    }
}

#[test]
fn wall_class_holds_the_fifteen_wall_tiles() {
    let walls = [0, 12, 24, 2, 26, 13, 15, 1, 3, 25, 27, 4, 5, 16, 17];
    for id in 0..64u32 {
        assert_eq!(is_wall_tile(id), walls.contains(&id));
    }
}

#[test]
fn thin_horizontal_wall_turns_upper_ground_into_wall() {
    let mapgen = MapGenerator::new(Coord { x: 1, y: 3 });
    let mut layer = from_rows(&[".", "#", "."]);
    assert!(mapgen.try_rewrite_thin_horizontal_wall(0, 0, &mut layer));
    assert_eq!(layer.data, vec![Some(WALL_01_TILE_ID), Some(WALL_01_TILE_ID), Some(GROUND_01_TILE_ID)]);
    assert!(!mapgen.try_rewrite_thin_horizontal_wall(0, 0, &mut layer));
    assert!(!mapgen.try_rewrite_thin_horizontal_wall(0, 1, &mut layer));
    assert!(!mapgen.try_rewrite_thin_horizontal_wall(0, 2, &mut layer));
}

#[test]
fn thin_vertical_wall_turns_left_ground_into_wall() {
    let mapgen = MapGenerator::new(Coord { x: 3, y: 1 });
    let mut layer = from_rows(&[".#."]);
    assert!(mapgen.try_rewrite_thin_vertical_wall(0, 0, &mut layer));
    assert_eq!(layer.data, vec![Some(WALL_01_TILE_ID), Some(WALL_01_TILE_ID), Some(GROUND_01_TILE_ID)]);
    assert!(!mapgen.try_rewrite_thin_vertical_wall(0, 0, &mut layer));
    assert!(!mapgen.try_rewrite_thin_vertical_wall(5, 0, &mut layer));
}

#[test]
fn an_empty_cell_fits_no_pattern() {
    let mapgen = MapGenerator::new(Coord { x: 1, y: 3 });
    let mut layer = from_rows(&[".", "#", "."]);
    layer.set(0, 2, None);
    assert!(!mapgen.try_rewrite_thin_horizontal_wall(0, 0, &mut layer));
    assert_eq!(layer.get(0, 0), Some(GROUND_01_TILE_ID));
    assert_eq!(layer.get(0, 2), None);
}

#[test]
fn rules_do_not_fire_outside_the_grid() {
    let mapgen = MapGenerator::new(Coord { x: 2, y: 2 });
    let mut layer = from_rows(&["#.", ".."]);
    let before = layer.data.clone();
    assert!(!mapgen.try_rewrite_inner_ul_wall(1, 1, &mut layer));
    assert!(!mapgen.try_rewrite_left_wall(1, 0, &mut layer));
    assert!(!mapgen.try_rewrite_top_wall(0, 1, &mut layer));
    assert!(!mapgen.try_rewrite_double_corner_horizontal(u32::MAX, u32::MAX, &mut layer));
    assert!(!mapgen.try_rewrite_outer_dr_wall(u32::MAX, 0, &mut layer));
    assert_eq!(layer.data, before);
}

#[test]
fn each_corner_rule_dresses_its_corner() {
    let mapgen = MapGenerator::new(Coord { x: 2, y: 2 });

    let mut layer = from_rows(&["##", "#."]);
    assert!(mapgen.try_rewrite_inner_ul_wall(0, 0, &mut layer));
    assert_eq!(layer.get(0, 0), Some(WALL_INNER_UL_ID));

    let mut layer = from_rows(&["##", ".#"]);
    assert!(mapgen.try_rewrite_inner_ur_wall(0, 0, &mut layer));
    assert_eq!(layer.get(1, 0), Some(WALL_INNER_UR_ID));

    let mut layer = from_rows(&["#.", "##"]);
    assert!(mapgen.try_rewrite_inner_dl_wall(0, 0, &mut layer));
    assert_eq!(layer.get(0, 1), Some(WALL_INNER_DL_ID));

    let mut layer = from_rows(&[".#", "##"]);
    assert!(mapgen.try_rewrite_inner_dr_wall(0, 0, &mut layer));
    assert_eq!(layer.get(1, 1), Some(WALL_INNER_DR_ID));

    let mut layer = from_rows(&["..", ".#"]);
    assert!(mapgen.try_rewrite_outer_ul_wall(0, 0, &mut layer));
    assert_eq!(layer.get(1, 1), Some(WALL_OUTER_UL_ID));

    let mut layer = from_rows(&["..", "#."]);
    assert!(mapgen.try_rewrite_outer_ur_wall(0, 0, &mut layer));
    assert_eq!(layer.get(0, 1), Some(WALL_OUTER_UR_ID));

    let mut layer = from_rows(&[".#", ".."]);
    assert!(mapgen.try_rewrite_outer_dl_wall(0, 0, &mut layer));
    assert_eq!(layer.get(1, 0), Some(WALL_OUTER_DL_ID));

    let mut layer = from_rows(&["#.", ".."]);
    assert!(mapgen.try_rewrite_outer_dr_wall(0, 0, &mut layer));
    assert_eq!(layer.get(0, 0), Some(WALL_OUTER_DR_ID));
}

#[test]
fn corner_rules_take_any_wall_tile_for_wall() {
    let mapgen = MapGenerator::new(Coord { x: 2, y: 2 });
    let mut layer = from_rows(&["##", "#."]);
    layer.set(1, 0, Some(WALL_02_TILE_ID));
    layer.set(0, 1, Some(WALL_UP_TILE_ID));
    assert!(mapgen.try_rewrite_inner_ul_wall(0, 0, &mut layer));
    assert_eq!(layer.get(0, 0), Some(WALL_INNER_UL_ID));
    // a facade is no wall
    let mut layer = from_rows(&["#F", "#."]);
    assert!(!mapgen.try_rewrite_inner_ul_wall(0, 0, &mut layer));
}

#[test]
fn each_edge_rule_dresses_its_wall_cell() {
    let mapgen = MapGenerator::new(Coord { x: 2, y: 2 });

    let mut layer = from_rows(&["#."]);
    assert!(mapgen.try_rewrite_left_wall(0, 0, &mut layer));
    assert_eq!(layer.data, vec![Some(WALL_LEFT_TILE_ID), Some(GROUND_01_TILE_ID)]);

    let mut layer = from_rows(&[".#"]);
    assert!(mapgen.try_rewrite_right_wall(0, 0, &mut layer));
    assert_eq!(layer.data, vec![Some(GROUND_01_TILE_ID), Some(WALL_RIGHT_TILE_ID)]);

    let mut layer = from_rows(&[".", "#"]);
    assert!(mapgen.try_rewrite_bottom_wall(0, 0, &mut layer));
    assert_eq!(layer.data, vec![Some(GROUND_01_TILE_ID), Some(WALL_DOWN_TILE_ID)]);

    let mut layer = from_rows(&["#", "."]);
    assert!(mapgen.try_rewrite_top_wall(0, 0, &mut layer));
    assert_eq!(layer.data, vec![Some(WALL_UP_TILE_ID), Some(GROUND_01_TILE_ID)]);

    // an edge wants the plain wall, not any wall
    let mut layer = from_rows(&["#", "."]);
    layer.set(0, 0, Some(WALL_02_TILE_ID));
    assert!(!mapgen.try_rewrite_top_wall(0, 0, &mut layer));
}

#[test]
fn each_facade_rule_covers_the_ground_beneath() {
    let mapgen = MapGenerator::new(Coord { x: 1, y: 2 });

    let mut layer = from_rows(&["#", "."]);
    layer.set(0, 0, Some(WALL_UP_TILE_ID));
    assert!(mapgen.try_rewrite_center_facades(0, 0, &mut layer));
    assert_eq!(layer.get(0, 1), Some(FACADE_CENTER_TILE_ID));

    let mut layer = from_rows(&["#", "."]);
    layer.set(0, 0, Some(WALL_OUTER_DL_ID));
    assert!(mapgen.try_rewrite_left_facades(0, 0, &mut layer));
    assert_eq!(layer.get(0, 1), Some(FACADE_LEFT_TILE_ID));

    let mut layer = from_rows(&["#", "."]);
    layer.set(0, 0, Some(WALL_OUTER_DR_ID));
    assert!(mapgen.try_rewrite_right_facades(0, 0, &mut layer));
    assert_eq!(layer.get(0, 1), Some(FACADE_RIGHT_TILE_ID));

    let mut layer = from_rows(&["#", "."]);
    assert!(!mapgen.try_rewrite_center_facades(0, 0, &mut layer));
}

#[test]
fn cleanup_runs_to_a_fixed_point_and_a_second_run_rewrites_nothing() {
    let mapgen = MapGenerator::new(Coord { x: 7, y: 7 });
    // thin walls in both directions and a double corner
    let mut layer = from_rows(&[
        "#######",
        "#.#...#",
        "#.#.#.#",
        "#...#.#",
        "###.###",
        "#..#..#",
        "#######",
    ]);
    let changed = mapgen.rewrite_undetailed_walls(&mut layer);
    assert!(changed);
    let fixed = layer.data.clone();
    assert_eq!(
        fixed,
        from_rows(&[
            "#######",
            "###...#",
            "#####.#",
            "#######",
            "#######",
            "#.##..#",
            "#######",
        ])
        .data
    );
    // nothing matches any more: one more pass fires no rule
    assert!(!mapgen.scan_pass(Pass::Cleanup, &mut layer));
    assert_eq!(layer.data, fixed);
    // and a whole second cleanup changes nothing
    assert!(!mapgen.rewrite_undetailed_walls(&mut layer));
    assert_eq!(layer.data, fixed);
    for y in 0..7 {
        for x in 0..7 {
            let mut probe = layer.duplicate();
            assert!(!mapgen.rewrite_cell(Pass::Cleanup, x, y, &mut probe));
        }
    }
}

#[test]
fn cleanup_needs_a_second_pass_where_a_rewrite_uncovers_a_shape() {
    let mapgen = MapGenerator::new(Coord { x: 3, y: 3 });
    // folding the wall cell's upper neighbour in column 1 leaves the top
    // row thin, seen from column 0, which the pass has left behind
    let rows = ["...", ".#.", "..."];
    let mut layer = from_rows(&rows);
    assert!(mapgen.scan_pass(Pass::Cleanup, &mut layer));
    assert_eq!(layer.data, from_rows(&[".#.", "##.", "..."]).data);
    assert!(mapgen.scan_pass(Pass::Cleanup, &mut layer));
    assert_eq!(layer.data, from_rows(&["##.", "##.", "..."]).data);
    assert!(!mapgen.scan_pass(Pass::Cleanup, &mut layer));

    let mut whole = from_rows(&rows);
    assert!(mapgen.rewrite_undetailed_walls(&mut whole));
    assert_eq!(whole.data, from_rows(&["##.", "##.", "..."]).data);
}

#[test]
fn cleanup_leaves_a_clean_grid_alone() {
    let mapgen = MapGenerator::new(Coord { x: 5, y: 5 });
    let mut layer = from_rows(&["#####", "#...#", "#...#", "#...#", "#####"]);
    let before = layer.data.clone();
    assert!(!mapgen.rewrite_undetailed_walls(&mut layer));
    assert_eq!(layer.data, before);
}

#[test]
fn detailing_a_room_dresses_every_wall_cell_next_to_ground() {
    let mapgen = MapGenerator::new(Coord { x: 7, y: 7 });
    let rows = [
        "#######",
        "#######",
        "##...##",
        "##...##",
        "##...##",
        "#######",
        "#######",
    ];
    let before = from_rows(&rows);
    let mut layer = from_rows(&rows);
    mapgen.rewrite_wall_details(&mut layer);
    // corners
    assert_eq!(layer.get(1, 1), Some(WALL_INNER_UL_ID));
    assert_eq!(layer.get(5, 1), Some(WALL_INNER_UR_ID));
    assert_eq!(layer.get(1, 5), Some(WALL_INNER_DL_ID));
    assert_eq!(layer.get(5, 5), Some(WALL_INNER_DR_ID));
    // edges
    for i in 2..5 {
        assert_eq!(layer.get(i, 1), Some(WALL_UP_TILE_ID));
        assert_eq!(layer.get(i, 5), Some(WALL_DOWN_TILE_ID));
        assert_eq!(layer.get(1, i), Some(WALL_LEFT_TILE_ID));
        assert_eq!(layer.get(5, i), Some(WALL_RIGHT_TILE_ID));
    }
    // facades beneath the top edge
    for x in 2..5 {
        assert_eq!(layer.get(x, 2), Some(FACADE_CENTER_TILE_ID));
        assert_eq!(layer.get(x, 3), Some(GROUND_01_TILE_ID));
        assert_eq!(layer.get(x, 4), Some(GROUND_01_TILE_ID));
    }
    // the outermost ring was not next to ground and stays plain
    for i in 0..7 {
        assert_eq!(layer.get(i, 0), Some(WALL_01_TILE_ID));
        assert_eq!(layer.get(i, 6), Some(WALL_01_TILE_ID));
        assert_eq!(layer.get(0, i), Some(WALL_01_TILE_ID));
        assert_eq!(layer.get(6, i), Some(WALL_01_TILE_ID));
    }
    // coverage: no plain wall cell that had ground beside, above or beneath
    // it is plain wall still
    for y in 0..7u32 {
        for x in 0..7u32 {
            if before.get(x, y) != Some(WALL_01_TILE_ID) {
                continue;
            }
            let ground = |dx: i32, dy: i32| {
                let (a, b) = (x as i32 + dx, y as i32 + dy);
                (0..7).contains(&a)
                    && (0..7).contains(&b)
                    && before.get(a as u32, b as u32) == Some(GROUND_01_TILE_ID)
            };
            if ground(1, 0) || ground(-1, 0) || ground(0, 1) || ground(0, -1) {
                let after = layer.get(x, y).unwrap();
                assert_ne!(after, WALL_01_TILE_ID);
                assert!(is_wall_tile(after));
            }
        }
    }
}

#[test]
fn detailing_dresses_outer_corners_and_their_facades() {
    let mapgen = MapGenerator::new(Coord { x: 8, y: 8 });
    // a pillar two cells wide and two high within ground
    let rows = [
        "########",
        "#......#",
        "#......#",
        "#..##..#",
        "#..##..#",
        "#......#",
        "#......#",
        "########",
    ];
    let mut layer = from_rows(&rows);
    mapgen.rewrite_wall_details(&mut layer);
    assert_eq!(layer.get(3, 3), Some(WALL_OUTER_UL_ID));
    assert_eq!(layer.get(4, 3), Some(WALL_OUTER_UR_ID));
    assert_eq!(layer.get(3, 4), Some(WALL_OUTER_DL_ID));
    assert_eq!(layer.get(4, 4), Some(WALL_OUTER_DR_ID));
    assert_eq!(layer.get(3, 5), Some(FACADE_LEFT_TILE_ID));
    assert_eq!(layer.get(4, 5), Some(FACADE_RIGHT_TILE_ID));
    // every wall cell is still wall, every cell still holds a tile
    let before = from_rows(&rows);
    for y in 0..8 {
        for x in 0..8 {
            let after = layer.get(x, y).unwrap();
            if before.get(x, y) == Some(WALL_01_TILE_ID) {
                assert!(is_wall_tile(after));
            } else {
                assert!(!is_wall_tile(after));
            }
        }
    }
}

#[test]
fn a_pass_visits_columns_from_the_left_and_each_column_from_the_top() {
    let mapgen = MapGenerator::new(Coord { x: 3, y: 1 });
    // the right-edge rule at column 0 dresses column 1 before the
    // left-edge rule gets to see it as plain wall
    let mut layer = from_rows(&[".#."]);
    assert!(mapgen.scan_pass(Pass::Sides, &mut layer));
    assert_eq!(
        layer.data,
        vec![Some(GROUND_01_TILE_ID), Some(WALL_RIGHT_TILE_ID), Some(GROUND_01_TILE_ID)]
    );
}
