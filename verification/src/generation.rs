//! The pseudo-legal moves of a position, piece by piece, as mathematical lists.

use vstd::prelude::*;
use crate::coordinates::{on_board, square_at, BoardCoordinates};
use crate::moves::{Move, SpecialMove};
use crate::piece::Piece;
use crate::player::Player;
use crate::position::Position;
use crate::square::Square;

verus! {

/// The eight jumps of a knight, as steps in row and column.
pub open spec fn knight_steps() -> Seq<(isize, isize)> {
    seq![
        (1isize, 2isize),
        (-1isize, 2isize),
        (1isize, -2isize),
        (-1isize, -2isize),
        (2isize, 1isize),
        (-2isize, 1isize),
        (2isize, -1isize),
        (-2isize, -1isize),
    ]
}

/// The four diagonal directions.
pub open spec fn bishop_steps() -> Seq<(isize, isize)> {
    seq![(1isize, 1isize), (-1isize, 1isize), (1isize, -1isize), (-1isize, -1isize)]
}

/// The four directions along rows and columns.
pub open spec fn rook_steps() -> Seq<(isize, isize)> {
    seq![(0isize, 1isize), (0isize, -1isize), (1isize, 0isize), (-1isize, 0isize)]
}

/// The eight steps of a king to a neighbouring square.
pub open spec fn king_steps() -> Seq<(isize, isize)> {
    seq![
        (0isize, 1isize),
        (0isize, -1isize),
        (1isize, 0isize),
        (-1isize, 0isize),
        (1isize, 1isize),
        (1isize, -1isize),
        (-1isize, 1isize),
        (-1isize, -1isize),
    ]
}

/// The change of row when a pawn of `player` steps forward.
pub open spec fn forward(player: Player) -> int {
    match player {
        Player::White => -1,
        Player::Black => 1,
    }
}

/// The row on which the pawns of `player` start.
pub open spec fn pawn_row(player: Player) -> int {
    match player {
        Player::White => 6,
        Player::Black => 1,
    }
}

/// The row from which a pawn of `player` steps onto the farthest row.
pub open spec fn promotion_row(player: Player) -> int {
    match player {
        Player::White => 1,
        Player::Black => 6,
    }
}

/// The row on which a pawn of `player` lands when it captures en passant.
pub open spec fn en_passant_row(player: Player) -> int {
    match player {
        Player::White => 2,
        Player::Black => 5,
    }
}

/// The four promotions open to a pawn of `player`, in the order queen, rook,
/// bishop, knight.
pub open spec fn promotions(player: Player) -> Seq<Option<SpecialMove>> {
    seq![
        Some(SpecialMove::PawnPromotion(Square::Occupied(player, Piece::Queen))),
        Some(SpecialMove::PawnPromotion(Square::Occupied(player, Piece::Rook))),
        Some(SpecialMove::PawnPromotion(Square::Occupied(player, Piece::Bishop))),
        Some(SpecialMove::PawnPromotion(Square::Occupied(player, Piece::Knight))),
    ]
}

impl Position {
    /// The moves of the piece on `start` along one line: from the square in
    /// row `row` and column `col` it walks by `dr` rows and `dc` columns at a
    /// time, at most `reach` times. Every empty square on the way is a move;
    /// the walk ends at the edge of the board, before a piece of the side to
    /// move, or on a piece of the other side, which is a capture.
    pub open spec fn ray_moves(
        self,
        start: BoardCoordinates,
        row: int,
        col: int,
        dr: int,
        dc: int,
        reach: nat,
    ) -> Seq<Move>
        decreases reach,
    {
        if reach == 0 || !on_board(row + dr, col + dc) {
            Seq::empty()
        } else {
            let end = square_at(row + dr, col + dc);
            let step = self.move_to(start, end, None);
            match self.at(end) {
                Square::Occupied(player, _) => if player != self.turn {
                    seq![step]
                } else {
                    Seq::empty()
                },
                Square::Empty => seq![step] + self.ray_moves(
                    start,
                    row + dr,
                    col + dc,
                    dr,
                    dc,
                    (reach - 1) as nat,
                ),
            }
        }
    }

    /// The moves of the piece on `start` along the first `count` directions
    /// of `steps`, one direction after the other.
    pub open spec fn step_moves(
        self,
        start: BoardCoordinates,
        steps: Seq<(isize, isize)>,
        reach: nat,
        count: nat,
    ) -> Seq<Move>
        decreases count,
    {
        if count == 0 || count > steps.len() {
            Seq::empty()
        } else {
            self.step_moves(start, steps, reach, (count - 1) as nat) + self.ray_moves(
                start,
                start.row as int,
                start.col as int,
                steps[count - 1].0 as int,
                steps[count - 1].1 as int,
                reach,
            )
        }
    }

    /// The special moves a pawn of the side to move fans out into when it
    /// steps off row `row`: the four promotions from the row before the
    /// farthest one, a single plain move from any other row.
    pub open spec fn pawn_choices(self, row: int) -> Seq<Option<SpecialMove>> {
        if row == promotion_row(self.turn) {
            promotions(self.turn)
        } else {
            seq![None]
        }
    }

    /// One move from `start` to `end` for each special move of `choices`.
    pub open spec fn fan_out(
        self,
        start: BoardCoordinates,
        end: BoardCoordinates,
        choices: Seq<Option<SpecialMove>>,
    ) -> Seq<Move> {
        Seq::new(choices.len(), |i: int| self.move_to(start, end, choices[i]))
    }

    /// The step of the pawn on `start` onto the empty square in front of it.
    pub open spec fn pawn_push(self, start: BoardCoordinates) -> Seq<Move> {
        let end = square_at(start.row + forward(self.turn), start.col as int);
        if self.at(end) == Square::Empty {
            self.fan_out(start, end, self.pawn_choices(start.row as int))
        } else {
            Seq::empty()
        }
    }

    /// The two-row step of the pawn on `start`: only from the row on which
    /// it started, and only over and onto empty squares.
    pub open spec fn pawn_double_push(self, start: BoardCoordinates) -> Seq<Move> {
        let middle = square_at(start.row + forward(self.turn), start.col as int);
        let end = square_at(start.row + 2 * forward(self.turn), start.col as int);
        if start.row == pawn_row(self.turn) && self.at(end) == Square::Empty && self.at(middle)
            == Square::Empty {
            seq![self.move_to(start, end, None)]
        } else {
            Seq::empty()
        }
    }

    /// The capture of the pawn on `start` towards the column `side` away
    /// (-1 or 1): onto a piece of the other side, or en passant onto the
    /// empty en-passant square where that lies on the right row.
    pub open spec fn pawn_capture(self, start: BoardCoordinates, side: int) -> Seq<Move> {
        if !on_board(start.row + forward(self.turn), start.col + side) {
            Seq::empty()
        } else {
            let end = square_at(start.row + forward(self.turn), start.col + side);
            match self.at(end) {
                Square::Occupied(player, _) => if player != self.turn {
                    self.fan_out(start, end, self.pawn_choices(start.row as int))
                } else {
                    Seq::empty()
                },
                Square::Empty => if self.en_passant_square == Some(end) && end.row
                    == en_passant_row(self.turn) {
                    seq![self.move_to(start, end, Some(SpecialMove::EnPassant))]
                } else {
                    Seq::empty()
                },
            }
        }
    }

    /// The moves of the pawn of the side to move on `start`: its step, its
    /// two-row step, its capture towards column 0 and its capture towards
    /// column 7. A pawn on the farthest row has none.
    pub open spec fn pawn_moves(self, start: BoardCoordinates) -> Seq<Move> {
        if !on_board(start.row + forward(self.turn), start.col as int) {
            Seq::empty()
        } else {
            self.pawn_push(start) + self.pawn_double_push(start) + self.pawn_capture(start, -1)
                + self.pawn_capture(start, 1)
        }
    }

    pub open spec fn knight_moves(self, start: BoardCoordinates) -> Seq<Move> {
        self.step_moves(start, knight_steps(), 1, 8)
    }

    pub open spec fn bishop_moves(self, start: BoardCoordinates) -> Seq<Move> {
        self.step_moves(start, bishop_steps(), 7, 4)
    }

    pub open spec fn rook_moves(self, start: BoardCoordinates) -> Seq<Move> {
        self.step_moves(start, rook_steps(), 7, 4)
    }

    pub open spec fn queen_moves(self, start: BoardCoordinates) -> Seq<Move> {
        self.bishop_moves(start) + self.rook_moves(start)
    }

    /// The moves of a king on `start` to the neighbouring squares; castling
    /// is not among them.
    pub open spec fn king_moves(self, start: BoardCoordinates) -> Seq<Move> {
        self.step_moves(start, king_steps(), 1, 8)
    }

    /// The moves of whatever stands on `start`: none for an empty square or
    /// a piece of the side that is not to move.
    pub open spec fn piece_moves(self, start: BoardCoordinates) -> Seq<Move> {
        match self.at(start) {
            Square::Empty => Seq::empty(),
            Square::Occupied(player, piece) => if player != self.turn {
                Seq::empty()
            } else {
                match piece {
                    Piece::Pawn => self.pawn_moves(start),
                    Piece::Knight => self.knight_moves(start),
                    Piece::Bishop => self.bishop_moves(start),
                    Piece::Rook => self.rook_moves(start),
                    Piece::Queen => self.queen_moves(start),
                    Piece::King => self.king_moves(start),
                }
            },
        }
    }

    /// The moves of the pieces on the first `cols` squares of row `row`.
    pub open spec fn row_moves(self, row: int, cols: nat) -> Seq<Move>
        decreases cols,
    {
        if cols == 0 {
            Seq::empty()
        } else {
            self.row_moves(row, (cols - 1) as nat) + self.piece_moves(square_at(row, cols - 1))
        }
    }

    /// The moves of the pieces on the first `rows` rows.
    pub open spec fn board_moves(self, rows: nat) -> Seq<Move>
        decreases rows,
    {
        if rows == 0 {
            Seq::empty()
        } else {
            self.board_moves((rows - 1) as nat) + self.row_moves(rows - 1, 8)
        }
    }

    /// Every move of the side to move that follows the way its piece moves
    /// and respects what stands on the board, whether or not it leaves the
    /// mover's king in check. Castling is not among them. The moves are
    /// listed square by square, row 0 first and column 0 first within a row.
    pub open spec fn pseudo_legal_moves(self) -> Seq<Move> {
        self.board_moves(8)
    }
}

} // verus!
