//! The states that the game around the generator moves through.

use vstd::prelude::*;

verus! {

/// What the game shows.
#[derive(Clone, Copy, Debug, PartialEq, Eq, Structural)]
pub enum GameState {
    MainMenu,
    Instructions,
    InGame,
    GameOver,
}

/// The way a character faces.
#[derive(Clone, Copy, Debug, PartialEq, Eq, Structural)]
pub enum FacingDirection {
    Left,
    Right,
}

} // verus!
