//! The two sides of a game.

use vstd::prelude::*;

verus! {

/// One of the two sides of a game.
#[derive(Copy, Clone, PartialEq, Eq, Structural, Debug, Hash)]
pub enum Player {
    White,
    Black,
}

impl Player {
    /// The other side.
    pub open spec fn other(self) -> Player {
        match self {
            Player::White => Player::Black,
            Player::Black => Player::White,
        }
    }

    /// The side that moves after this one.
    pub fn opponent(&self) -> (r: Player)
        ensures
            r == self.other(),
    {
        match self {
            Player::White => Player::Black,
            Player::Black => Player::White,
        }
    }
}

} // verus!
