//! Rules engine of a falling-block puzzle game: piece geometry, collision,
//! rotation with wall kicks, locking, line clearing, the piece queue and the
//! fall/lock timing state machine.

use vstd::prelude::*;

pub mod bag;
pub mod game_state;
pub mod laws;
pub mod tetromino_data;

verus! {

/// Identifies one of the 7 types of tetrominoes.
#[derive(Clone, Copy, Debug, PartialEq, Eq, Structural)]
pub enum TetrominoType {
    I,
    O,
    T,
    J,
    L,
    S,
    Z,
}

} // verus!
