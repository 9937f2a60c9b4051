//! A word-guessing puzzle: a hidden answer of fixed length is guessed over a
//! bounded number of rows, and every guessed letter is scored against it.
//!
//! `puzzle` holds the mathematical model of a game and its transitions,
//! `classifier` the scoring of one guess, `answers` the source of hidden
//! words, and `game_state` the executable state that refines the model.

pub mod answers;
pub mod classifier;
pub mod game_state;
pub mod puzzle;
pub mod tile;
