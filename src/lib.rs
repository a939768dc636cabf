//! A bitboard engine for 8x8 Reversi: legal moves, captures, turn passing and
//! end of game, positional evaluation and a one-ply move search.

use vstd::prelude::*;

pub mod bitboard;
pub mod bits;
pub mod coordinate;
pub mod direction;
pub mod game;
pub mod turn;
pub mod weights;

pub use bitboard::{BitBoard, SquareState};
pub use coordinate::Coordinate;
pub use direction::Direction;
pub use game::{Game, GameStatus};
pub use turn::Turn;
pub use weights::{pre_compute_weight, WeightTable};

verus! {

/// Why a request to the engine was refused.
#[derive(PartialEq, Eq, Structural, Clone, Copy, Debug)]
pub enum GameError {
    /// A square index outside 0..=63.
    InvalidCoordinate,
    /// A square that is not a legal move for the player to move.
    IllegalMove,
}

} // verus!
