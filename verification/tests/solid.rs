use stonehold::solid::{create_solid_tile_mask, is_tile_solid, solid_tiles, tile_count, TileRange};

#[test]
fn solid_tiles_of_the_dungeon_tileset() {
    let ranges = solid_tiles();
    assert_eq!(
        ranges,
        vec![
            TileRange { start: 0, end: 6 },
            TileRange { start: 12, end: 14 },
            TileRange { start: 15, end: 18 },
            TileRange { start: 19, end: 21 },
            TileRange { start: 24, end: 28 },
        ]
    );
    let mask = create_solid_tile_mask(132, &ranges);
    assert_eq!(mask.len(), 132);
    let solid = [0, 1, 2, 3, 4, 5, 12, 13, 15, 16, 17, 19, 20, 24, 25, 26, 27];
    for id in 0..132u32 {
        assert_eq!(is_tile_solid(&mask, id), solid.contains(&id));
    }
}

#[test]
fn mask_of_overlapping_and_empty_ranges() {
    let ranges = vec![
        TileRange { start: 2, end: 5 },
        TileRange { start: 4, end: 7 },
        TileRange { start: 9, end: 9 },
        TileRange { start: 30, end: 3 },
    ];
    let mask = create_solid_tile_mask(8, &ranges);
    assert_eq!(mask, vec![false, false, true, true, true, true, true, false]);
    assert!(create_solid_tile_mask(0, &Vec::new()).is_empty());
    assert_eq!(create_solid_tile_mask(3, &Vec::new()), vec![false; 3]);
}

#[test]
fn tiles_are_counted_by_rows_and_columns() {
    // a packed image of 11 rows of 16 pixels, 12 tiles to the row
    assert_eq!(tile_count(176, 0, 0, 16, 12), Some(132));
    // one pixel between rows, two around them
    assert_eq!(tile_count(100, 1, 2, 16, 3), Some(15));
    assert_eq!(tile_count(15, 0, 0, 16, 12), Some(0));
    assert_eq!(tile_count(176, 0, 0, 16, 0), Some(0));
    assert_eq!(tile_count(176, 0, 0, 0, 12), None);
    assert_eq!(tile_count(176, -16, 0, 16, 12), None);
    assert_eq!(tile_count(10, 0, 8, 16, 12), None);
    assert_eq!(tile_count(i32::MAX, i32::MAX, i32::MIN, 1, 1), Some(3));
}
