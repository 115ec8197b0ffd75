//! Attack probing, castling and the filter that leaves the legal moves.

use vstd::prelude::*;
use crate::coordinates::BoardCoordinates;
use crate::moves::{Move, SpecialMove};
use crate::piece::Piece;
use crate::player::Player;
use crate::square::Square;
use crate::state::State;

verus! {

/// Whether one of `moves` ends on `target`.
pub fn any_move_ends_on(moves: &Vec<Move>, target: BoardCoordinates) -> (r: bool)
    ensures
        r == exists|i: int| 0 <= i < moves@.len() && (#[trigger] moves@[i]).end == target,
{
    let mut i: usize = 0;
    while i < moves.len()
        invariant
            i <= moves@.len(),
            forall|j: int| 0 <= j < i ==> (#[trigger] moves@[j]).end != target,
        decreases moves@.len() - i,
    {
        if moves[i].end == target {
            return true;
        }
        i = i + 1;
    }
    false
}

/// Whether one of `moves` is the move of a piece other than a pawn and ends
/// on `target`.
pub fn any_piece_move_ends_on(moves: &Vec<Move>, target: BoardCoordinates) -> (r: bool)
    ensures
        r == exists|i: int|
            0 <= i < moves@.len() && (#[trigger] moves@[i]).end == target
                && !moves@[i].piece_moved.is_pawn(),
{
    let mut i: usize = 0;
    while i < moves.len()
        invariant
            i <= moves@.len(),
            forall|j: int|
                0 <= j < i ==> !((#[trigger] moves@[j]).end == target
                    && !moves@[j].piece_moved.is_pawn()),
        decreases moves@.len() - i,
    {
        let by_pawn = match moves[i].piece_moved {
            Square::Occupied(_, piece) => piece == Piece::Pawn,
            Square::Empty => false,
        };
        if moves[i].end == target && !by_pawn {
            return true;
        }
        i = i + 1;
    }
    false
}

impl State {
    /// Whether a pawn of the side that is not to move attacks `target` from
    /// the column `side` away: it stands one row back from `target`,
    /// against its direction of travel, in that column.
    pub fn attacked_by_pawn_from(&self, target: BoardCoordinates, side: i8) -> (r: bool)
        requires
            self.wf(),
            side == 1 || side == -1,
        ensures
            r == self@.pawn_attacks_from(target, side as int),
    {
        let attacker = self.turn.opponent();
        let forward: i128 = match attacker {
            Player::White => -1,
            Player::Black => 1,
        };
        let row: i128 = target.row as i128 - forward;
        let col: i128 = target.col as i128 + side as i128;
        if 0 <= row && row <= 7 && 0 <= col && col <= 7 {
            let square = self.get_square(BoardCoordinates::new(row as usize, col as usize));
            square == Square::Occupied(attacker, Piece::Pawn)
        } else {
            false
        }
    }

    /// Whether the side that is not to move attacks `coordinates`: one of
    /// its pawns stands diagonally in front of the square, or one of its
    /// other pieces could move onto the square if the turn were handed to
    /// it. A pawn attacks the squares diagonally ahead of it whether they
    /// are empty or not, and attacks nothing by its steps forward.
    pub fn under_attack(&self, coordinates: BoardCoordinates) -> (r: bool)
        requires
            self.wf(),
        ensures
            r == self@.attacked(coordinates),
    {
        if self.attacked_by_pawn_from(coordinates, -1) || self.attacked_by_pawn_from(
            coordinates,
            1,
        ) {
            return true;
        }
        let mut probe = *self;
        probe.change_turn();
        let enemy_moves = probe.generate_all_moves();
        any_piece_move_ends_on(&enemy_moves, coordinates)
    }

    /// Whether the king of the side to move is attacked.
    pub fn in_check(&self) -> (r: bool)
        requires
            self.wf(),
        ensures
            r == self@.in_check(),
    {
        self.under_attack(self.get_king_location(self.turn))
    }

    /// Whether `candidate` would leave the mover's king where the other
    /// side can move onto it: the move is made on a copy of the state and
    /// the replies of the other side are probed.
    pub fn leaves_king_exposed(&self, candidate: Move) -> (r: bool)
        requires
            self.wf(),
            candidate.wf(),
        ensures
            r == self@.exposes_king(candidate),
    {
        let mut probe = *self;
        probe.make_move(candidate);
        let enemy_moves = probe.generate_all_moves();
        any_move_ends_on(&enemy_moves, probe.get_king_location(self.turn))
    }

    /// Appends the castling moves open to the side to move, the king's side
    /// first. There is none while the king is in check. A side is open when
    /// its right is still there, the squares between king and rook are
    /// empty, and neither the square the king passes over nor the one it
    /// lands on is attacked.
    pub fn generate_castling_moves(&self, moves: &mut Vec<Move>)
        requires
            self.wf(),
        ensures
            final(moves)@ == old(moves)@ + self@.castling_moves(),
    {
        let ghost before = moves@;
        if !self.in_check() {
            let row: usize = match self.turn {
                Player::White => 7,
                Player::Black => 0,
            };
            let king_side = match self.turn {
                Player::White => self.castling_rights.get_white_king_side(),
                Player::Black => self.castling_rights.get_black_king_side(),
            };
            let queen_side = match self.turn {
                Player::White => self.castling_rights.get_white_queen_side(),
                Player::Black => self.castling_rights.get_black_queen_side(),
            };
            let king = self.get_king_location(self.turn);
            if king_side {
                let square1 = BoardCoordinates::new(row, 5);
                let square2 = BoardCoordinates::new(row, 6);
                if self.get_square(square1) == Square::Empty && self.get_square(square2)
                    == Square::Empty && !self.under_attack(square1) && !self.under_attack(
                    square2,
                ) {
                    moves.push(Move::new(king, square2, Some(SpecialMove::Castle), self));
                }
            }
            let ghost first = moves@;
            assert(first =~= before + self@.castle_if_open(true));
            if queen_side {
                let square1 = BoardCoordinates::new(row, 3);
                let square2 = BoardCoordinates::new(row, 2);
                let square3 = BoardCoordinates::new(row, 1);
                if self.get_square(square1) == Square::Empty && self.get_square(square2)
                    == Square::Empty && self.get_square(square3) == Square::Empty
                    && !self.under_attack(square1) && !self.under_attack(square2) {
                    moves.push(Move::new(king, square2, Some(SpecialMove::Castle), self));
                }
            }
            assert(moves@ =~= first + self@.castle_if_open(false));
        }
        assert(moves@ =~= before + self@.castling_moves());
    }

    /// Whether nothing but kings is left on the board.
    pub fn only_kings_left(&self) -> (r: bool)
        ensures
            r == self@.only_kings(),
    {
        let mut i: usize = 0;
        while i < 64
            invariant
                i <= 64,
                forall|j: int|
                    0 <= j < i ==> (#[trigger] self@.board[j]) == Square::Empty
                        || self@.board[j].kind() == Some(crate::piece::Piece::King),
            decreases 64 - i,
        {
            match self.board.squares[i] {
                Square::Empty => {},
                Square::Occupied(_, piece) => {
                    if piece != crate::piece::Piece::King {
                        return false;
                    }
                },
            }
            i = i + 1;
        }
        true
    }

    /// The legal moves of the side to move: the pseudo-legal moves and the
    /// castling moves that do not leave the mover's king exposed, in the
    /// order in which they were generated. A move is on the list exactly
    /// when it fits the rule of its piece or is the castling move of an
    /// open side, and does not expose the king; no move is on it twice.
    pub fn generate_legal_moves(&self) -> (legal: Vec<Move>)
        requires
            self.wf(),
        ensures
            legal@ == self@.legal_moves(),
            legal@.no_duplicates(),
            forall|m: Move| #[trigger]
                legal@.contains(m) <==> self@.sound(m) && !self@.exposes_king(m),
    {
        let mut candidates = self.generate_all_moves();
        self.generate_castling_moves(&mut candidates);
        proof {
            assert(candidates@ == self@.candidate_moves());
            crate::shape::lemma_candidates_wf(self@);
        }
        let ghost safe = |m: Move| !self@.exposes_king(m);
        let mut legal: Vec<Move> = Vec::new();
        let mut i: usize = 0;
        assert(candidates@.take(0) =~= Seq::<Move>::empty());
        while i < candidates.len()
            invariant
                i <= candidates@.len(),
                self.wf(),
                candidates@ == self@.candidate_moves(),
                forall|j: int| 0 <= j < candidates@.len() ==> (#[trigger] candidates@[j]).wf(),
                safe == |m: Move| !self@.exposes_king(m),
                legal@ == candidates@.take(i as int).filter(safe),
            decreases candidates@.len() - i,
        {
            let candidate = candidates[i];
            let exposed = self.leaves_king_exposed(candidate);
            proof {
                assert(candidates@.take(i + 1).drop_last() =~= candidates@.take(i as int));
                assert(candidates@.take(i + 1).last() == candidate);
                reveal(Seq::filter);
            }
            if !exposed {
                legal.push(candidate);
            }
            i = i + 1;
        }
        proof {
            assert(candidates@.take(i as int) =~= candidates@);
            crate::distinct::lemma_moves_are_distinct(self@);
            assert forall|m: Move| #[trigger]
                legal@.contains(m) <==> self@.sound(m) && !self@.exposes_king(m) by {
                crate::laws::law_legal_moves_follow_the_rules(self@, m);
            }
        }
        legal
    }
}

} // verus!
