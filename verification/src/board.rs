//! The board: sixty-four squares, row by row.

use vstd::prelude::*;
use crate::piece::Piece;
use crate::player::Player;
use crate::square::Square;

verus! {

/// The piece that stands in column `col` of a back rank at the start of a game.
pub open spec fn back_rank_piece(col: int) -> Piece {
    if col == 0 || col == 7 {
        Piece::Rook
    } else if col == 1 || col == 6 {
        Piece::Knight
    } else if col == 2 || col == 5 {
        Piece::Bishop
    } else if col == 3 {
        Piece::Queen
    } else {
        Piece::King
    }
}

/// What the square in row `row` and column `col` holds at the start of a game.
pub open spec fn initial_square(row: int, col: int) -> Square {
    if row == 0 {
        Square::Occupied(Player::Black, back_rank_piece(col))
    } else if row == 1 {
        Square::Occupied(Player::Black, Piece::Pawn)
    } else if row == 6 {
        Square::Occupied(Player::White, Piece::Pawn)
    } else if row == 7 {
        Square::Occupied(Player::White, back_rank_piece(col))
    } else {
        Square::Empty
    }
}

/// The sixty-four squares at the start of a game, row by row.
pub open spec fn initial_board() -> Seq<Square> {
    Seq::new(64, |i: int| initial_square(i / 8, i % 8))
}

/// The 8x8 grid of squares, stored row by row.
#[derive(Copy, Clone, Debug)]
pub struct Board {
    pub squares: [Square; 64],
}

impl Board {
    /// The sixty-four squares, row by row: the square in row `r` and column
    /// `c` is at index `8 * r + c`.
    pub open spec fn view(&self) -> Seq<Square> {
        self.squares@
    }

    fn back_rank(col: usize) -> (r: Piece)
        requires
            col <= 7,
        ensures
            r == back_rank_piece(col as int),
    {
        if col == 0 || col == 7 {
            Piece::Rook
        } else if col == 1 || col == 6 {
            Piece::Knight
        } else if col == 2 || col == 5 {
            Piece::Bishop
        } else if col == 3 {
            Piece::Queen
        } else {
            Piece::King
        }
    }

    fn initial_content(row: usize, col: usize) -> (r: Square)
        requires
            row <= 7,
            col <= 7,
        ensures
            r == initial_square(row as int, col as int),
    {
        if row == 0 {
            Square::Occupied(Player::Black, Self::back_rank(col))
        } else if row == 1 {
            Square::Occupied(Player::Black, Piece::Pawn)
        } else if row == 6 {
            Square::Occupied(Player::White, Piece::Pawn)
        } else if row == 7 {
            Square::Occupied(Player::White, Self::back_rank(col))
        } else {
            Square::Empty
        }
    }

    /// The board at the start of a game.
    pub fn initial_position() -> (r: Self)
        ensures
            r@ == initial_board(),
    {
        let mut squares: [Square; 64] = [Square::Empty; 64];
        let mut i: usize = 0;
        while i < 64
            invariant
                i <= 64,
                forall|j: int| 0 <= j < i ==> squares@[j] == initial_square(j / 8, j % 8),
            decreases 64 - i,
        {
            squares[i] = Self::initial_content(i / 8, i % 8);
            i += 1;
        }
        assert(squares@ =~= initial_board());
        Self { squares }
    }

    /// Writes `square` to row `row`, column `col`; every other square is kept.
    pub fn set_square(&mut self, row: usize, col: usize, square: Square)
        requires
            row <= 7,
            col <= 7,
        ensures
            final(self)@ == old(self)@.update(row * 8 + col, square),
    {
        self.squares[row * 8 + col] = square;
    }

    /// What row `row`, column `col` holds.
    pub fn get_square(&self, row: usize, col: usize) -> (r: Square)
        requires
            row <= 7,
            col <= 7,
        ensures
            r == self@[row * 8 + col],
    {
        self.squares[row * 8 + col]
    }

    /// Whether the two boards hold the same on every square.
    pub fn same_position(&self, other: &Board) -> (r: bool)
        ensures
            r == (self@ == other@),
    {
        let mut i: usize = 0;
        while i < 64
            invariant
                i <= 64,
                forall|j: int| 0 <= j < i ==> self@[j] == other@[j],
            decreases 64 - i,
        {
            if self.squares[i] != other.squares[i] {
                return false;
            }
            i += 1;
        }
        assert(self@ =~= other@);
        true
    }
}

} // verus!
