//! The kinds of chessmen.

use vstd::prelude::*;

verus! {

/// The six kinds of chessmen.
#[derive(Copy, Clone, PartialEq, Eq, Structural, Debug, Hash)]
pub enum Piece {
    Pawn,
    Knight,
    Bishop,
    Rook,
    Queen,
    King,
}

} // verus!
