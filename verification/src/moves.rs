//! Moves and what makes two of them the same move.

use vstd::prelude::*;
use vstd::std_specs::cmp::PartialEqSpecImpl;
use crate::coordinates::BoardCoordinates;
use crate::square::Square;
use crate::state::State;

verus! {

/// What sets a move apart from a plain step or capture. A promotion names
/// the piece that takes the pawn's place.
#[derive(Copy, Clone, PartialEq, Eq, Structural, Debug)]
pub enum SpecialMove {
    EnPassant,
    Castle,
    PawnPromotion(Square),
}

/// One move: where it starts and ends, what stood on those two squares when
/// the move was made up, and what kind of special move it is, if any.
#[derive(Copy, Clone, Debug)]
pub struct Move {
    pub start: BoardCoordinates,
    pub end: BoardCoordinates,
    pub piece_moved: Square,
    pub piece_captured: Square,
    pub special_move: Option<SpecialMove>,
}

impl Move {
    /// Both squares lie on the board, and a castling move ends far enough
    /// from either edge for its rook to stand on both sides of the king.
    pub open spec fn wf(self) -> bool {
        &&& self.start.wf()
        &&& self.end.wf()
        &&& self.special_move == Some(SpecialMove::Castle) ==> 2 <= self.end.col <= 6
    }

    /// The piece a promotion turns the pawn into; `None` for any other move.
    pub open spec fn promotion(self) -> Option<Square> {
        match self.special_move {
            Some(SpecialMove::PawnPromotion(square)) => Some(square),
            _ => None,
        }
    }

    /// Two moves are the same move when they agree on both squares, on the
    /// piece moved, on the piece captured and on the promotion choice.
    pub open spec fn same_move(self, other: Move) -> bool {
        &&& self.start == other.start
        &&& self.end == other.end
        &&& self.piece_moved == other.piece_moved
        &&& self.piece_captured == other.piece_captured
        &&& self.promotion() == other.promotion()
    }

    /// The move from `start` to `end` in `game_state`: the pieces moved and
    /// captured are read off the board as it stands.
    pub fn new(
        start: BoardCoordinates,
        end: BoardCoordinates,
        special_move: Option<SpecialMove>,
        game_state: &State,
    ) -> (m: Self)
        requires
            start.wf(),
            end.wf(),
        ensures
            m == game_state@.move_to(start, end, special_move),
    {
        let piece_moved = game_state.get_square(start);
        let piece_captured = game_state.get_square(end);
        Self { start, end, piece_moved, piece_captured, special_move }
    }

    /// The piece a promotion turns the pawn into; `None` for any other move.
    pub fn get_promotion(&self) -> (r: Option<Square>)
        ensures
            r == self.promotion(),
    {
        match self.special_move {
            Some(SpecialMove::PawnPromotion(square)) => Some(square),
            _ => None,
        }
    }
}

impl PartialEq for Move {
    fn eq(&self, other: &Self) -> (r: bool) {
        let same_promotion = match (self.get_promotion(), other.get_promotion()) {
            (Some(a), Some(b)) => a == b,
            (None, None) => true,
            _ => false,
        };
        self.start == other.start && self.end == other.end && self.piece_moved
            == other.piece_moved && self.piece_captured == other.piece_captured && same_promotion
    }
}

impl PartialEqSpecImpl for Move {
    open spec fn obeys_eq_spec() -> bool {
        true
    }

    open spec fn eq_spec(&self, other: &Self) -> bool {
        self.same_move(*other)
    }
}

impl Eq for Move {

}

/// Sameness of moves is an equivalence: it holds of a move and itself, both
/// ways round if one way, and along chains.
pub proof fn law_same_move_is_equivalence(a: Move, b: Move, c: Move)
    ensures
        a.same_move(a),
        a.same_move(b) == b.same_move(a),
        a.same_move(b) && b.same_move(c) ==> a.same_move(c),
{
}

} // verus!
