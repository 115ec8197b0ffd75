//! Squares of the board by row and column.

use vstd::prelude::*;

verus! {

/// A square of the board by row and column. Row 0 is Black's back rank,
/// row 7 is White's; column 0 is the queen-side edge. Outside this crate a
/// coordinate is built by `new` alone, which takes indices on the board
/// only.
#[derive(Copy, Clone, PartialEq, Eq, Structural, Debug, Hash)]
#[non_exhaustive]
pub struct BoardCoordinates {
    pub row: usize,
    pub col: usize,
}

/// Whether row `row` and column `col` name a square of the board.
pub open spec fn on_board(row: int, col: int) -> bool {
    0 <= row <= 7 && 0 <= col <= 7
}

/// The coordinates of row `row` and column `col`.
pub open spec fn square_at(row: int, col: int) -> BoardCoordinates {
    BoardCoordinates { row: row as usize, col: col as usize }
}

impl BoardCoordinates {
    /// Both indices lie within the board.
    pub open spec fn wf(self) -> bool {
        self.row <= 7 && self.col <= 7
    }

    /// The position of this square in a row-major listing of the board.
    pub open spec fn index(self) -> int {
        self.row * 8 + self.col
    }

    /// The square in row `row` and column `col`; both must lie within the board.
    pub fn new(row: usize, col: usize) -> (r: Self)
        requires
            row <= 7,
            col <= 7,
        ensures
            r == (BoardCoordinates { row, col }),
            r.wf(),
    {
        Self { row, col }
    }

    pub fn row(&self) -> (r: usize)
        ensures
            r == self.row,
    {
        self.row
    }

    pub fn col(&self) -> (r: usize)
        ensures
            r == self.col,
    {
        self.col
    }
}

} // verus!
