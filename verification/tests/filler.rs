use macroquad::rand::srand;
use stonehold::filler::FILLER_PROB_SCALE;
use stonehold::generator::{MapGenerator, TILE_FILLER_PROB};
use stonehold::grid::{Coord, TileGrid};
use stonehold::tiles::{
    GROUND_01_TILE_ID, GROUND_02_TILE_ID, WALL_01_TILE_ID, WALL_02_TILE_ID, WALL_03_TILE_ID,
};

fn room(size: u32) -> TileGrid {
    let mut layer = TileGrid::filled(size, size, Some(WALL_01_TILE_ID)).unwrap();
    layer.fill_rect(3, 3, size - 3, size - 3, Some(GROUND_01_TILE_ID));
    layer
}

#[test]
fn a_chance_of_zero_changes_nothing() {
    let mapgen = MapGenerator::new(Coord { x: 12, y: 12 });
    for seed in 0..20u64 {
        srand(seed);
        let mut layer = room(12);
        let before = layer.data.clone();
        assert_eq!(mapgen.rewrite_random_filler(WALL_01_TILE_ID, WALL_02_TILE_ID, 0, &mut layer), 0);
        assert_eq!(layer.data, before);
        assert_eq!(
            mapgen.rewrite_random_filler(GROUND_01_TILE_ID, GROUND_02_TILE_ID, 0, &mut layer),
            0
        );
        assert_eq!(layer.data, before);
    }
}

#[test]
fn a_chance_of_one_replaces_every_source_tile_inside_the_ring() {
    let mapgen = MapGenerator::new(Coord { x: 12, y: 12 });
    for seed in 0..20u64 {
        srand(seed);
        let mut layer = room(12);
        let count =
            mapgen.rewrite_random_filler(WALL_01_TILE_ID, WALL_02_TILE_ID, FILLER_PROB_SCALE, &mut layer);
        // ten by ten cells inside the ring, six by six of them ground
        assert_eq!(count, 100 - 36);
        for y in 0..12 {
            for x in 0..12 {
                let ring = x == 0 || y == 0 || x == 11 || y == 11;
                let ground = (3..9).contains(&x) && (3..9).contains(&y);
                let want = if ring {
                    WALL_01_TILE_ID
                } else if ground {
                    GROUND_01_TILE_ID
                } else {
                    WALL_02_TILE_ID
                };
                assert_eq!(layer.get(x, y), Some(want));
            }
        }
        // nothing is left for a second filler of the same source
        let before = layer.data.clone();
        assert_eq!(
            mapgen.rewrite_random_filler(WALL_01_TILE_ID, WALL_03_TILE_ID, u32::MAX, &mut layer),
            0
        );
        assert_eq!(layer.data, before);
    }
}

#[test]
fn a_filler_changes_source_tiles_only_and_counts_them() {
    let mapgen = MapGenerator::new(Coord { x: 40, y: 40 });
    let mut seen = Vec::new();
    for seed in 0..20u64 {
        srand(seed);
        let mut layer = room(40);
        let before = layer.data.clone();
        let count = mapgen.rewrite_random_filler(
            GROUND_01_TILE_ID,
            GROUND_02_TILE_ID,
            FILLER_PROB_SCALE / 2,
            &mut layer,
        );
        let mut changed = 0;
        for (old, new) in before.iter().zip(layer.data.iter()) {
            if old != new {
                assert_eq!(*old, Some(GROUND_01_TILE_ID));
                assert_eq!(*new, Some(GROUND_02_TILE_ID));
                changed += 1;
            }
        }
        assert_eq!(count, changed);
        // 34 by 34 cells of ground, each with an even chance
        assert!(count > 300 && count < 856);
        if !seen.contains(&count) {
            seen.push(count);
        }
    }
    assert!(seen.len() > 1);
}

#[test]
fn a_draw_below_the_chance_replaces_the_tile() {
    let mapgen = MapGenerator::new(Coord { x: 4, y: 4 });
    let mut layer = TileGrid::filled(4, 4, Some(WALL_01_TILE_ID)).unwrap();
    // the draw is not below the chance
    assert!(!mapgen.try_fill_cell(&mut layer, 1, 1, WALL_01_TILE_ID, WALL_02_TILE_ID, 3000, 3000));
    assert!(!mapgen.try_fill_cell(&mut layer, 1, 1, WALL_01_TILE_ID, WALL_02_TILE_ID, 0, 0));
    assert_eq!(layer.get(1, 1), Some(WALL_01_TILE_ID));
    // the cell does not hold the source tile
    assert!(!mapgen.try_fill_cell(&mut layer, 1, 1, GROUND_01_TILE_ID, GROUND_02_TILE_ID, 3000, 0));
    assert_eq!(layer.get(1, 1), Some(WALL_01_TILE_ID));
    assert!(mapgen.try_fill_cell(&mut layer, 1, 1, WALL_01_TILE_ID, WALL_02_TILE_ID, 3000, 2999));
    assert_eq!(layer.get(1, 1), Some(WALL_02_TILE_ID));
    assert_eq!(layer.data.iter().filter(|c| **c == Some(WALL_02_TILE_ID)).count(), 1);
    assert_eq!(TILE_FILLER_PROB, 3000);
    assert_eq!(FILLER_PROB_SCALE, 1_000_000);
}

#[test]
fn grids_too_small_to_have_an_inside_are_left_alone() {
    let mapgen = MapGenerator::new(Coord { x: 2, y: 5 });
    for (w, h) in [(0, 0), (1, 1), (2, 5), (5, 2), (0, 7)] {
        let mut layer = TileGrid::filled(w, h, Some(WALL_01_TILE_ID)).unwrap();
        let before = layer.data.clone();
        assert_eq!(
            mapgen.rewrite_random_filler(WALL_01_TILE_ID, WALL_02_TILE_ID, u32::MAX, &mut layer),
            0
        );
        assert_eq!(layer.data, before);
    }
}
