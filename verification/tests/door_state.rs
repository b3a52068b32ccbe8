use stonehold::door::{ExitDoor, GuardDoor};
use stonehold::generator::MapGenerator;
use stonehold::grid::{Coord, TileGrid};
use stonehold::state::{FacingDirection, GameState};
use stonehold::tiles::{
    DOOR_LEFT_CLOSED_TILE_ID, DOOR_LEFT_OPEN_TILE_ID, DOOR_RIGHT_CLOSED_TILE_ID,
    DOOR_RIGHT_OPEN_TILE_ID, FACADE_CENTER_TILE_ID, MONSTER_PIPE_OPEN_TILE_ID, POOL_FULL_TILE_ID,
    STAIRS_LEFT_TILE_ID, STAIRS_RIGHT_TILE_ID, WALL_01_TILE_ID,
};

#[test]
fn a_guard_door_starts_open_and_closes_its_two_leaves() {
    let mut layer = TileGrid::filled(8, 4, Some(WALL_01_TILE_ID)).unwrap();
    layer.fill_rect(2, 1, 6, 2, Some(FACADE_CENTER_TILE_ID));
    layer.set(3, 1, Some(DOOR_LEFT_OPEN_TILE_ID));
    layer.set(4, 1, Some(DOOR_RIGHT_OPEN_TILE_ID));
    let mut want = layer.data.clone();

    let mut door = GuardDoor::create(Coord { x: 2, y: 1 });
    assert!(door.is_open);
    assert_eq!(door.position, Coord { x: 2, y: 1 });
    door.close_door(&mut layer);
    assert!(!door.is_open);
    assert_eq!(door.position, Coord { x: 2, y: 1 });
    want[8 + 3] = Some(DOOR_LEFT_CLOSED_TILE_ID);
    want[8 + 4] = Some(DOOR_RIGHT_CLOSED_TILE_ID);
    assert_eq!(layer.data, want);
    assert_eq!((DOOR_LEFT_CLOSED_TILE_ID, DOOR_RIGHT_CLOSED_TILE_ID), (46, 47));
}

#[test]
fn the_exit_starts_closed_and_opens_around_its_stairs() {
    let mapgen = MapGenerator::new(Coord { x: 8, y: 4 });
    let mut layer = TileGrid::filled(8, 4, Some(WALL_01_TILE_ID)).unwrap();
    mapgen.rewrite_exit_door(Coord { x: 2, y: 1 }, &mut layer);

    let mut exit = ExitDoor::create(Coord { x: 2, y: 1 });
    assert!(!exit.is_open);
    exit.open_door(&mut layer);
    assert!(exit.is_open);
    assert_eq!(exit.position, Coord { x: 2, y: 1 });

    let mut want = vec![Some(WALL_01_TILE_ID); 32];
    want[8 + 2] = Some(MONSTER_PIPE_OPEN_TILE_ID);
    want[8 + 3] = Some(DOOR_LEFT_OPEN_TILE_ID);
    want[8 + 4] = Some(DOOR_RIGHT_OPEN_TILE_ID);
    want[8 + 5] = Some(MONSTER_PIPE_OPEN_TILE_ID);
    want[16 + 2] = Some(POOL_FULL_TILE_ID);
    want[16 + 3] = Some(STAIRS_LEFT_TILE_ID);
    want[16 + 4] = Some(STAIRS_RIGHT_TILE_ID);
    want[16 + 5] = Some(POOL_FULL_TILE_ID);
    assert_eq!(layer.data, want);
    assert_eq!((MONSTER_PIPE_OPEN_TILE_ID, POOL_FULL_TILE_ID), (20, 32));
    assert_eq!((DOOR_LEFT_OPEN_TILE_ID, DOOR_RIGHT_OPEN_TILE_ID), (10, 11));
}

#[test]
fn states_and_directions_compare_by_variant() {
    assert_eq!(GameState::MainMenu, GameState::MainMenu);
    assert_ne!(GameState::InGame, GameState::GameOver);
    assert_ne!(GameState::Instructions, GameState::MainMenu);
    let state = GameState::InGame;
    let copy = state;
    assert_eq!(state, copy);
    assert_ne!(FacingDirection::Left, FacingDirection::Right);
    assert_eq!(format!("{:?}", FacingDirection::Left), "Left");
    assert_eq!(format!("{:?}", GameState::GameOver), "GameOver");
}
