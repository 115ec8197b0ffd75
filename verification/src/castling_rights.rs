//! The castling rights of both sides.

use vstd::prelude::*;

verus! {

/// Which of the four castling moves are still permitted by the history of
/// the game: a right is lost for good once its king or rook has moved or the
/// rook has been captured.
#[derive(Copy, Clone, PartialEq, Eq, Structural, Debug)]
pub struct CastlingRights {
    pub white_king_side: bool,
    pub white_queen_side: bool,
    pub black_king_side: bool,
    pub black_queen_side: bool,
}

impl Default for CastlingRights {
    /// All four rights, as at the start of a game.
    fn default() -> (r: Self)
        ensures
            r == CastlingRights::all(),
    {
        Self::new(true, true, true, true)
    }
}

impl CastlingRights {
    /// All four rights.
    pub open spec fn all() -> CastlingRights {
        CastlingRights {
            white_king_side: true,
            white_queen_side: true,
            black_king_side: true,
            black_queen_side: true,
        }
    }

    pub fn new(
        white_king_side: bool,
        white_queen_side: bool,
        black_king_side: bool,
        black_queen_side: bool,
    ) -> (r: Self)
        ensures
            r == (CastlingRights {
                white_king_side,
                white_queen_side,
                black_king_side,
                black_queen_side,
            }),
    {
        Self { white_king_side, white_queen_side, black_king_side, black_queen_side }
    }

    pub fn get_white_king_side(&self) -> (r: bool)
        ensures
            r == self.white_king_side,
    {
        self.white_king_side
    }

    pub fn get_white_queen_side(&self) -> (r: bool)
        ensures
            r == self.white_queen_side,
    {
        self.white_queen_side
    }

    pub fn get_black_king_side(&self) -> (r: bool)
        ensures
            r == self.black_king_side,
    {
        self.black_king_side
    }

    pub fn get_black_queen_side(&self) -> (r: bool)
        ensures
            r == self.black_queen_side,
    {
        self.black_queen_side
    }

    pub fn ban_white_king_side(&mut self)
        ensures
            *final(self) == (CastlingRights { white_king_side: false, ..*old(self) }),
    {
        self.white_king_side = false;
    }

    pub fn ban_white_queen_side(&mut self)
        ensures
            *final(self) == (CastlingRights { white_queen_side: false, ..*old(self) }),
    {
        self.white_queen_side = false;
    }

    pub fn ban_black_king_side(&mut self)
        ensures
            *final(self) == (CastlingRights { black_king_side: false, ..*old(self) }),
    {
        self.black_king_side = false;
    }

    pub fn ban_black_queen_side(&mut self)
        ensures
            *final(self) == (CastlingRights { black_queen_side: false, ..*old(self) }),
    {
        self.black_queen_side = false;
    }
}

} // verus!
