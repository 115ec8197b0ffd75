//! The ways a game can end.

use vstd::prelude::*;

verus! {

/// The ways a game can end.
#[derive(Copy, Clone, PartialEq, Eq, Structural, Debug)]
pub enum GameResult {
    Checkmate,
    Stalemate,
    DeadPosition,
    ThreefoldRepetition,
    FiftyMoveRule,
}

impl GameResult {
    /// The name of this result in plain words.
    pub open spec fn name(self) -> Seq<char> {
        match self {
            GameResult::Checkmate => "Checkmate"@,
            GameResult::Stalemate => "Stalemate"@,
            GameResult::DeadPosition => "Dead Position"@,
            GameResult::ThreefoldRepetition => "Threefold Repetition"@,
            GameResult::FiftyMoveRule => "Fifty-move rule"@,
        }
    }

    /// The name of this result in plain words.
    pub fn to_str(&self) -> (r: &'static str)
        ensures
            r@ == self.name(),
    {
        match self {
            Self::Checkmate => "Checkmate",
            Self::Stalemate => "Stalemate",
            Self::DeadPosition => "Dead Position",
            Self::ThreefoldRepetition => "Threefold Repetition",
            Self::FiftyMoveRule => "Fifty-move rule",
        }
    }
}

} // verus!
