//! A game as the list of its moves: the position, the clocks and the result that follow.

use vstd::prelude::*;
use crate::consistency::{
    lemma_initial_position_consistent, lemma_legal_move_keeps_consistency, lemma_legal_moves,
    lemma_candidate_spares_king, lemma_unmake_reverts_make,
};
use crate::legality::outcome;
use crate::moves::{Move, SpecialMove};
use crate::player::Player;
use crate::position::{en_passant_after, initial_position, Position};
use crate::result::GameResult;
use crate::square::Square;

verus! {

/// The position that the moves of `log`, played in turn from the start of a
/// game, lead to.
pub open spec fn position_after(log: Seq<Move>) -> Position
    decreases log.len(),
{
    if log.len() == 0 {
        initial_position()
    } else {
        position_after(log.drop_last()).after(log.last())
    }
}

/// Whether every move of `log` was a legal move of the position in which it
/// was played.
pub open spec fn legal_game(log: Seq<Move>) -> bool
    decreases log.len(),
{
    log.len() == 0 || (legal_game(log.drop_last()) && position_after(
        log.drop_last(),
    ).legal_moves().contains(log.last()))
}

/// The latest move of `log`, if there is one.
pub open spec fn last_move(log: Seq<Move>) -> Option<Move> {
    if log.len() == 0 {
        None
    } else {
        Some(log.last())
    }
}

/// Whether `m` starts the count of the fifty-move rule afresh: a pawn move,
/// a capture, an en-passant capture or a promotion.
pub open spec fn resets_clock(m: Move) -> bool {
    ||| m.special_move is Some && m.special_move->0 is PawnPromotion
    ||| m.piece_moved.is_pawn()
    ||| m.piece_captured != Square::Empty
    ||| m.special_move == Some(SpecialMove::EnPassant)
}

/// The number of plies at the end of `log` since the last move that reset
/// the fifty-move rule.
pub open spec fn quiet_plies(log: Seq<Move>) -> nat
    decreases log.len(),
{
    if log.len() == 0 {
        0
    } else if resets_clock(log.last()) {
        0
    } else {
        quiet_plies(log.drop_last()) + 1
    }
}

/// The number of the full move that is being played after `log`: it starts
/// at one and goes up after each move of Black.
pub open spec fn full_moves(log: Seq<Move>) -> nat {
    (1 + log.len() / 2) as nat
}

/// How often the moves of `log` reached a position with the board `board`.
/// The position at the start of the game is not counted.
pub open spec fn occurrences(log: Seq<Move>, board: Seq<Square>) -> nat
    decreases log.len(),
{
    if log.len() == 0 {
        0
    } else {
        occurrences(log.drop_last(), board) + if position_after(log).board == board {
            1nat
        } else {
            0nat
        }
    }
}

/// Whether the moves of `log` reached some board three times or more.
pub open spec fn seen_three_times(log: Seq<Move>) -> bool {
    exists|board: Seq<Square>| #[trigger] occurrences(log, board) >= 3
}

/// Whether and how the game has ended after the moves of `log`.
pub open spec fn result_after(log: Seq<Move>) -> Option<GameResult> {
    let position = position_after(log);
    outcome(
        position.legal_moves().len() == 0,
        position.in_check(),
        seen_three_times(log),
        position.only_kings(),
        quiet_plies(log),
    )
}

/// A game of legal moves reaches only consistent positions.
pub proof fn lemma_legal_game_is_consistent(log: Seq<Move>)
    requires
        legal_game(log),
    ensures
        position_after(log).consistent(),
    decreases log.len(),
{
    if log.len() == 0 {
        lemma_initial_position_consistent();
    } else {
        lemma_legal_game_is_consistent(log.drop_last());
        lemma_legal_move_keeps_consistency(position_after(log.drop_last()), log.last());
    }
}

/// White is to move after an even number of plies, Black after an odd one.
pub proof fn lemma_turn_alternates(log: Seq<Move>)
    ensures
        position_after(log).turn == if log.len() % 2 == 0 {
            Player::White
        } else {
            Player::Black
        },
    decreases log.len(),
{
    if log.len() > 0 {
        lemma_turn_alternates(log.drop_last());
    }
}

/// The en-passant square of a position is the one that the latest move left
/// behind.
pub proof fn lemma_en_passant_from_last_move(log: Seq<Move>)
    ensures
        position_after(log).en_passant_square == en_passant_after(last_move(log)),
{
}

/// The quiet plies at the end of a game are no more than its plies.
pub proof fn lemma_quiet_plies_bounded(log: Seq<Move>)
    ensures
        quiet_plies(log) <= log.len(),
    decreases log.len(),
{
    if log.len() > 0 {
        lemma_quiet_plies_bounded(log.drop_last());
    }
}

/// No board was reached more often than moves were made, and the board of
/// the latest position was reached at least once.
pub proof fn lemma_occurrences_bounded(log: Seq<Move>, board: Seq<Square>)
    ensures
        occurrences(log, board) <= log.len(),
        log.len() > 0 ==> occurrences(log, position_after(log).board) >= 1,
    decreases log.len(),
{
    if log.len() > 0 {
        lemma_occurrences_bounded(log.drop_last(), board);
    }
}

/// Taking back the latest move of a game of legal moves leads to the
/// position before it: unmaking the move on the position reached, with the
/// castling rights of the position before and the en-passant square that
/// the move before left behind, gives the position that the rest of the
/// game leads to.
pub proof fn lemma_undo_restores_position(log: Seq<Move>)
    requires
        legal_game(log),
        log.len() > 0,
    ensures
        position_after(log).before(
            log.last(),
            position_after(log.drop_last()).castling_rights,
            last_move(log.drop_last()),
        ) == position_after(log.drop_last()),
{
    let earlier = log.drop_last();
    let p = position_after(earlier);
    lemma_legal_game_is_consistent(earlier);
    lemma_legal_moves(p, log.last());
    lemma_candidate_spares_king(p, log.last());
    lemma_en_passant_from_last_move(earlier);
    lemma_unmake_reverts_make(p, log.last(), last_move(earlier));
}

} // verus!
