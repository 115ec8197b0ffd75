//! Attacks, castling, the legal moves and the outcome of a game, as mathematics.

use vstd::prelude::*;
use crate::coordinates::{on_board, square_at, BoardCoordinates};
use crate::generation::forward;
use crate::moves::{Move, SpecialMove};
use crate::piece::Piece;
use crate::player::Player;
use crate::position::{home_row, Position};
use crate::result::GameResult;
use crate::square::Square;

verus! {

impl Position {
    /// Whether some pseudo-legal move of the side to move ends on `target`.
    pub open spec fn reaches(self, target: BoardCoordinates) -> bool {
        exists|i: int|
            0 <= i < self.pseudo_legal_moves().len() && (#[trigger] self.pseudo_legal_moves()[i]).end
                == target
    }

    /// Whether some pseudo-legal move of a piece other than a pawn ends on
    /// `target`.
    pub open spec fn reaches_with_piece(self, target: BoardCoordinates) -> bool {
        exists|i: int|
            0 <= i < self.pseudo_legal_moves().len() && (#[trigger] self.pseudo_legal_moves()[i]).end
                == target && !self.pseudo_legal_moves()[i].piece_moved.is_pawn()
    }

    /// Whether a pawn of the side that is not to move attacks `target` from
    /// the column `side` away (-1 or 1): it stands one row back from
    /// `target`, against its direction of travel, in that column.
    pub open spec fn pawn_attacks_from(self, target: BoardCoordinates, side: int) -> bool {
        let row = target.row - forward(self.turn.other());
        let col = target.col + side;
        on_board(row, col) && self.square(row, col) == Square::Occupied(
            self.turn.other(),
            Piece::Pawn,
        )
    }

    /// Whether a pawn of the side that is not to move attacks `target`,
    /// whatever `target` holds.
    pub open spec fn pawn_attacks(self, target: BoardCoordinates) -> bool {
        self.pawn_attacks_from(target, -1) || self.pawn_attacks_from(target, 1)
    }

    /// Whether the side that is not to move attacks `target`: one of its
    /// pieces other than a pawn could move onto `target` if it were its
    /// turn, or one of its pawns stands diagonally in front of `target`. A
    /// pawn attacks the two squares diagonally ahead of it, empty or not;
    /// its steps forward attack nothing.
    pub open spec fn attacked(self, target: BoardCoordinates) -> bool {
        self.flipped().reaches_with_piece(target) || self.pawn_attacks(target)
    }

    /// Whether the king of the side to move is attacked.
    pub open spec fn in_check(self) -> bool {
        self.attacked(self.king_location(self.turn))
    }

    /// Whether the side to move still has the castling right on the king's
    /// side (`king_side`) or on the queen's side.
    pub open spec fn has_right(self, king_side: bool) -> bool {
        match self.turn {
            Player::White => if king_side {
                self.castling_rights.white_king_side
            } else {
                self.castling_rights.white_queen_side
            },
            Player::Black => if king_side {
                self.castling_rights.black_king_side
            } else {
                self.castling_rights.black_queen_side
            },
        }
    }

    /// Whether the squares between the king and the rook are empty on the
    /// home row of the side to move.
    pub open spec fn castle_path_empty(self, king_side: bool) -> bool {
        let row = home_row(self.turn);
        if king_side {
            self.square(row, 5) == Square::Empty && self.square(row, 6) == Square::Empty
        } else {
            self.square(row, 3) == Square::Empty && self.square(row, 2) == Square::Empty
                && self.square(row, 1) == Square::Empty
        }
    }

    /// Whether neither the square the king passes over nor the one it lands
    /// on is attacked.
    pub open spec fn castle_path_safe(self, king_side: bool) -> bool {
        let row = home_row(self.turn);
        if king_side {
            !self.attacked(square_at(row, 5)) && !self.attacked(square_at(row, 6))
        } else {
            !self.attacked(square_at(row, 3)) && !self.attacked(square_at(row, 2))
        }
    }

    /// The castling move of the side to move towards the given side: the
    /// king goes from its recorded square to column 6 or 2 of its home row.
    pub open spec fn castle_move(self, king_side: bool) -> Move {
        self.move_to(
            self.king_location(self.turn),
            square_at(
                home_row(self.turn),
                if king_side {
                    6
                } else {
                    2
                },
            ),
            Some(SpecialMove::Castle),
        )
    }

    /// The castling move towards the given side, if it is open: the right is
    /// still there, the squares between king and rook are empty, and the
    /// king's path is not attacked.
    pub open spec fn castle_if_open(self, king_side: bool) -> Seq<Move> {
        if self.has_right(king_side) && self.castle_path_empty(king_side)
            && self.castle_path_safe(king_side) {
            seq![self.castle_move(king_side)]
        } else {
            Seq::empty()
        }
    }

    /// The castling moves open to the side to move, the king's side first;
    /// none while its king is in check.
    pub open spec fn castling_moves(self) -> Seq<Move> {
        if self.in_check() {
            Seq::empty()
        } else {
            self.castle_if_open(true) + self.castle_if_open(false)
        }
    }

    /// The pseudo-legal moves followed by the castling moves.
    pub open spec fn candidate_moves(self) -> Seq<Move> {
        self.pseudo_legal_moves() + self.castling_moves()
    }

    /// Whether, once `m` is played, the other side can move onto the square
    /// of the mover's king.
    pub open spec fn exposes_king(self, m: Move) -> bool {
        self.after(m).reaches(self.after(m).king_location(self.turn))
    }

    /// The legal moves: the candidate moves that do not expose the mover's
    /// king, in the order of the candidates.
    pub open spec fn legal_moves(self) -> Seq<Move> {
        self.candidate_moves().filter(|m: Move| !self.exposes_king(m))
    }

    /// Whether nothing but the two kings is left on the board.
    pub open spec fn only_kings(self) -> bool {
        forall|i: int|
            0 <= i < 64 ==> (#[trigger] self.board[i]) == Square::Empty || self.board[i].kind()
                == Some(crate::piece::Piece::King)
    }
}

/// How many plies without a pawn move or a capture end the game: fifty moves
/// by each side.
pub open spec fn fifty_move_limit() -> nat {
    100
}

/// Whether and how the game has ended, given what holds of the position
/// reached. A dead position comes first; then mate or stalemate when the
/// side to move has no legal move; then a position seen three times; then
/// the fifty-move rule. `None` means that the game goes on.
pub open spec fn outcome(
    no_legal_move: bool,
    in_check: bool,
    seen_three_times: bool,
    only_kings: bool,
    quiet_plies: nat,
) -> Option<GameResult> {
    if only_kings {
        Some(GameResult::DeadPosition)
    } else if no_legal_move {
        if in_check {
            Some(GameResult::Checkmate)
        } else {
            Some(GameResult::Stalemate)
        }
    } else if seen_three_times {
        Some(GameResult::ThreefoldRepetition)
    } else if quiet_plies >= fifty_move_limit() {
        Some(GameResult::FiftyMoveRule)
    } else {
        None
    }
}

} // verus!
