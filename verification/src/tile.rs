//! One cell of the grid and the feedback it can carry.

use vstd::prelude::*;

verus! {

/// Feedback for one guessed letter relative to the answer.
#[derive(Clone, Copy, Debug, PartialEq, Eq, Structural)]
pub enum TileState {
    /// Not scored yet.
    Unknown,
    /// The letter stands at this position in the answer.
    Correct,
    /// The letter occurs in the answer, but not at this position.
    Misplaced,
    /// The letter earns no credit.
    Incorrect,
}

/// One grid cell: the letter typed into it, if any, and its feedback.
#[derive(Clone, Copy, Debug, PartialEq, Eq, Structural)]
pub struct Tile {
    pub state: TileState,
    pub letter: Option<char>,
}

impl Tile {
    /// The empty, unscored cell.
    pub open spec fn blank() -> Tile {
        Tile { state: TileState::Unknown, letter: None }
    }

    /// A cell that holds `letter` with feedback `state`.
    pub open spec fn scored(letter: char, state: TileState) -> Tile {
        Tile { state, letter: Some(letter) }
    }

    /// Whether the cell holds a letter and has been scored.
    pub open spec fn is_final(self) -> bool {
        self.letter is Some && self.state != TileState::Unknown
    }

    /// An empty, unscored cell.
    pub fn new() -> (tile: Tile)
        ensures
            tile == Tile::blank(),
    {
        Tile { state: TileState::Unknown, letter: None }
    }
}

} // verus!
