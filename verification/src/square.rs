//! What a square of the board holds.

use vstd::prelude::*;
use crate::piece::Piece;
use crate::player::Player;

verus! {

/// What one square of the board holds.
#[derive(Copy, Clone, PartialEq, Eq, Structural, Debug, Hash)]
pub enum Square {
    Empty,
    Occupied(Player, Piece),
}

impl Square {
    /// The side that owns the piece on this square, if there is a piece.
    pub open spec fn color(self) -> Option<Player> {
        match self {
            Square::Empty => None,
            Square::Occupied(player, _) => Some(player),
        }
    }

    /// The kind of piece on this square, if there is a piece.
    pub open spec fn kind(self) -> Option<Piece> {
        match self {
            Square::Empty => None,
            Square::Occupied(_, piece) => Some(piece),
        }
    }

    /// Whether this square holds a piece of `player`.
    pub open spec fn owned_by(self, player: Player) -> bool {
        self.color() == Some(player)
    }

    /// Whether this square holds a pawn.
    pub open spec fn is_pawn(self) -> bool {
        self.kind() == Some(Piece::Pawn)
    }

    /// The side that owns the piece on this square, `None` for an empty square.
    pub fn get_color(&self) -> (r: Option<Player>)
        ensures
            r == self.color(),
    {
        match self {
            Square::Empty => None,
            Square::Occupied(player, _) => Some(*player),
        }
    }
}

} // verus!
