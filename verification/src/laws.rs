//! What the engine guarantees, stated over the model and proved.

use vstd::prelude::*;
use crate::castling::{landing_col, lemma_open_castle_is_safe, rook_landing_col};
use crate::castling_rights::CastlingRights;
use crate::completeness::{lemma_concat_contains, lemma_pseudo_legal_moves_are_those_that_fit};
use crate::consistency::{
    lemma_candidate_spares_king, lemma_legal_move_keeps_consistency, lemma_legal_moves,
    lemma_move_keeps_kings, lemma_same_candidates_are_equal,
};
use crate::coordinates::square_at;
use crate::game::{
    last_move, legal_game, lemma_legal_game_is_consistent, lemma_undo_restores_position,
    occurrences, position_after, quiet_plies, resets_clock, result_after, seen_three_times,
};
use crate::generation::{forward, promotion_row};
use crate::legality::fifty_move_limit;
use crate::moves::{Move, SpecialMove};
use crate::piece::Piece;
use crate::player::Player;
use crate::position::{home_row, rights_after, Position};
use crate::result::GameResult;
use crate::shape::lemma_candidates_sound;
use crate::square::Square;

verus! {

/// Taking a move back undoes making it. In a game of legal moves, after one
/// more legal move `m` the log without its last entry is the log as it was,
/// and unmaking `m` on the position reached gives the position before it:
/// board, side to move, castling rights, en-passant square and both kings'
/// squares. The clocks, the tally of boards, the legal moves, the check
/// flag and the result are functions of the log and so return with it.
pub proof fn law_undo_reverts_move(log: Seq<Move>, m: Move)
    requires
        legal_game(log),
        position_after(log).legal_moves().contains(m),
    ensures
        log.push(m).drop_last() == log,
        position_after(log.push(m)) == position_after(log).after(m),
        position_after(log.push(m)).before(
            m,
            position_after(log).castling_rights,
            last_move(log),
        ) == position_after(log),
        quiet_plies(log.push(m).drop_last()) == quiet_plies(log),
        forall|board: Seq<Square>|
            occurrences(log.push(m).drop_last(), board) == #[trigger] occurrences(log, board),
        result_after(log.push(m).drop_last()) == result_after(log),
{
    let played = log.push(m);
    assert(played.drop_last() =~= log);
    assert(played.last() == m);
    assert(legal_game(played));
    lemma_undo_restores_position(played);
}

/// No legal move leaves the mover's king attacked. After a legal move from
/// a position that a game of legal moves has reached, the king of the side
/// that moved stands on its recorded square, the other side has no
/// pseudo-legal move onto that square, and so the mover would not be in
/// check if the move were handed back.
pub proof fn law_legal_move_keeps_king_safe(p: Position, m: Move)
    requires
        p.consistent(),
        p.legal_moves().contains(m),
    ensures
        p.after(m).at(p.after(m).king_location(p.turn)) == Square::Occupied(
            p.turn,
            Piece::King,
        ),
        !p.after(m).reaches(p.after(m).king_location(p.turn)),
        !p.after(m).flipped().in_check(),
        p.after(m).consistent(),
{
    lemma_legal_moves(p, m);
    lemma_legal_move_keeps_consistency(p, m);
    let q = p.after(m);
    assert(q.flipped().flipped() == q);
    assert(q.flipped().turn == p.turn);
    let king = q.king_location(p.turn);
    assert(q.board[king.index()] == Square::Occupied(p.turn, Piece::King));
    law_attack_on_a_piece_is_a_capture(q.flipped(), king);
}

/// Every position of a game of legal moves is consistent, and the side that
/// has just moved is not in check.
pub proof fn law_games_stay_consistent(log: Seq<Move>)
    requires
        legal_game(log),
    ensures
        position_after(log).consistent(),
        !position_after(log).flipped().in_check(),
{
    lemma_legal_game_is_consistent(log);
    let q = position_after(log);
    assert(q.flipped().flipped() == q);
    let king = q.king_location(q.turn.other());
    assert(q.board[king.index()] == Square::Occupied(q.turn.other(), Piece::King));
    law_attack_on_a_piece_is_a_capture(q.flipped(), king);
}

/// The en-passant square lasts for one move. After a legal move it is the
/// square that a pawn has just passed over on a two-row step, which lies
/// between the start and the end of that step and is empty; after any other
/// move there is none.
pub proof fn law_en_passant_window(p: Position, m: Move)
    requires
        p.consistent(),
        p.legal_moves().contains(m),
    ensures
        p.after(m).en_passant_square == if m.piece_moved == Square::Occupied(
            p.turn,
            Piece::Pawn,
        ) && m.end.row - m.start.row == 2 * forward(p.turn) {
            Some(square_at(m.start.row + forward(p.turn), m.start.col as int))
        } else {
            None
        },
        p.after(m).en_passant_square is Some ==> {
            &&& m.end == square_at(m.start.row + 2 * forward(p.turn), m.start.col as int)
            &&& p.after(m).at(p.after(m).en_passant_square->0) == Square::Empty
            &&& m.special_move is None
        },
{
    lemma_legal_moves(p, m);
    lemma_candidate_spares_king(p, m);
    lemma_legal_move_keeps_consistency(p, m);
    if p.after(m).en_passant_square is Some {
        assert(m.piece_moved == Square::Occupied(p.turn, Piece::Pawn));
        assert(p.pawn_fits(m));
    } else if m.piece_moved == Square::Occupied(p.turn, Piece::Pawn) {
        assert(p.pawn_fits(m));
    }
}

/// A pawn move, a capture, an en-passant capture or a promotion sets the
/// count of quiet plies to zero; any other move raises it by one.
pub proof fn law_clock_counts_quiet_plies(log: Seq<Move>, m: Move)
    ensures
        quiet_plies(log.push(m)) == if resets_clock(m) {
            0
        } else {
            quiet_plies(log) + 1
        },
{
    assert(log.push(m).drop_last() =~= log);
}

/// Where the last `count` moves of a game were quiet, the count of quiet
/// plies is at least `count`.
pub proof fn lemma_quiet_run(log: Seq<Move>, count: nat)
    requires
        count <= log.len(),
        forall|i: int| log.len() - count <= i < log.len() ==> !resets_clock(#[trigger] log[i]),
    ensures
        quiet_plies(log) >= count,
    decreases count,
{
    if count > 0 {
        let earlier = log.drop_last();
        assert forall|i: int| earlier.len() - (count - 1) <= i < earlier.len() implies !resets_clock(
            #[trigger] earlier[i],
        ) by {
            assert(earlier[i] == log[i]);
        }
        lemma_quiet_run(earlier, (count - 1) as nat);
    }
}

/// Fifty moves by each side without a pawn move or a capture end the game:
/// after a hundred quiet plies in a row the game has a result, and it is
/// the fifty-move rule unless the position is dead, the side to move has no
/// legal move, or a board has been seen three times.
pub proof fn law_fifty_move_rule(log: Seq<Move>)
    requires
        log.len() >= fifty_move_limit(),
        forall|i: int|
            log.len() - fifty_move_limit() <= i < log.len() ==> !resets_clock(#[trigger] log[i]),
    ensures
        quiet_plies(log) >= fifty_move_limit(),
        result_after(log) is Some,
        !position_after(log).only_kings() && position_after(log).legal_moves().len() > 0
            && !seen_three_times(log) ==> result_after(log) == Some(GameResult::FiftyMoveRule),
{
    lemma_quiet_run(log, fifty_move_limit());
}

/// The fifty-move rule is declared only after a hundred quiet plies.
pub proof fn law_fifty_move_rule_needs_quiet_plies(log: Seq<Move>)
    ensures
        result_after(log) == Some(GameResult::FiftyMoveRule) ==> quiet_plies(log)
            >= fifty_move_limit(),
{
}

/// A board reached for the third time ends the game: once the moves of a
/// game have led to the board of the latest position three times, the game
/// has a result, and it is threefold repetition unless the position is dead
/// or the side to move has no legal move.
pub proof fn law_threefold_repetition(log: Seq<Move>)
    requires
        occurrences(log, position_after(log).board) >= 3,
    ensures
        seen_three_times(log),
        result_after(log) is Some,
        !position_after(log).only_kings() && position_after(log).legal_moves().len() > 0
            ==> result_after(log) == Some(GameResult::ThreefoldRepetition),
{
}

/// No legal move leaves the game without a result once mate, stalemate or a
/// dead position is there: with no legal move the result is checkmate when
/// the side to move is in check and stalemate when it is not, unless only
/// the kings are left.
pub proof fn law_no_move_ends_the_game(log: Seq<Move>)
    requires
        position_after(log).legal_moves().len() == 0,
        !position_after(log).only_kings(),
    ensures
        result_after(log) == Some(
            if position_after(log).in_check() {
                GameResult::Checkmate
            } else {
                GameResult::Stalemate
            },
        ),
{
}

/// A castling move is among the candidates exactly when its side is open:
/// the side to move still has the right, the squares between king and rook
/// are empty, the king is not in check, and neither the square it passes
/// over nor the one it lands on is attacked.
pub proof fn law_castling_candidates(p: Position, king_side: bool)
    requires
        p.wf(),
    ensures
        p.castling_moves().contains(p.castle_move(king_side)) <==> p.castle_open(king_side),
        p.candidate_moves().contains(p.castle_move(king_side)) <==> p.castle_open(king_side),
{
    let m = p.castle_move(king_side);
    law_legal_moves_follow_the_rules(p, m);
    assert(p.castle_move(true) != p.castle_move(false));
    if p.fits(m) {
        match p.at(m.start).kind() {
            Some(Piece::Pawn) => {},
            Some(kind) => {},
            None => {},
        }
    }
}

/// A castling move is legal exactly when its side is open. In a position
/// that a game of legal moves has reached, the castling move towards a
/// side is on the list of legal moves exactly when the side to move still
/// has the right, which it loses when its king or that rook moves or the
/// rook is captured; the squares between king and rook are empty; and none
/// of the three squares on which the king starts, which it passes over and
/// on which it lands is attacked, by a piece or by a pawn.
pub proof fn law_castling_legality(p: Position, king_side: bool)
    requires
        p.consistent(),
    ensures
        p.legal_moves().contains(p.castle_move(king_side)) <==> p.castle_open(king_side),
        p.castle_open(king_side) <==> {
            &&& p.has_right(king_side)
            &&& p.castle_path_empty(king_side)
            &&& !p.attacked(square_at(home_row(p.turn), 4))
            &&& !p.attacked(square_at(home_row(p.turn), rook_landing_col(king_side)))
            &&& !p.attacked(square_at(home_row(p.turn), landing_col(king_side)))
        },
{
    let m = p.castle_move(king_side);
    lemma_legal_moves(p, m);
    law_castling_candidates(p, king_side);
    if p.castle_open(king_side) {
        lemma_open_castle_is_safe(p, king_side);
    }
    if p.has_right(king_side) {
        assert(p.rights_sound_for(p.turn));
        assert(p.king_location(p.turn) == square_at(home_row(p.turn), 4));
    }
}

/// The legal moves are the moves that the rules allow. A move is on the
/// list of legal moves exactly when it fits the way its piece moves or is
/// the castling move of an open side, and does not expose the mover's king.
pub proof fn law_legal_moves_follow_the_rules(p: Position, m: Move)
    requires
        p.wf(),
    ensures
        p.pseudo_legal_moves().contains(m) <==> p.fits(m),
        p.castling_moves().contains(m) <==> p.castle_fits(m),
        p.candidate_moves().contains(m) <==> p.sound(m),
        p.legal_moves().contains(m) <==> p.sound(m) && !p.exposes_king(m),
{
    lemma_pseudo_legal_moves_are_those_that_fit(p, m);
    lemma_legal_moves(p, m);
    lemma_concat_contains(p.pseudo_legal_moves(), p.castling_moves(), m);
    let castles = p.castling_moves();
    let first = p.castle_if_open(true);
    let second = p.castle_if_open(false);
    lemma_concat_contains(first, second, m);
    if castles.contains(m) {
        lemma_candidates_sound(p);
        let i = choose|i: int| 0 <= i < castles.len() && castles[i] == m;
        assert(p.castle_fits(castles[i]));
    }
    if p.castle_fits(m) {
        let king_side = choose|king_side: bool|
            {
                &&& m == #[trigger] p.castle_move(king_side)
                &&& !p.in_check()
                &&& p.has_right(king_side)
                &&& p.castle_path_empty(king_side)
                &&& p.castle_path_safe(king_side)
            };
        if king_side {
            assert(first[0] == m);
        } else {
            assert(second[0] == m);
        }
    }
}

/// A square is attacked exactly when a piece of the side that is not to
/// move, other than a pawn, has a move that fits the rule of that piece and
/// ends there, were it its turn, or a pawn of that side stands one row back
/// from the square, against its direction of travel, and one column aside.
/// What the square holds does not matter to the pawn, and no step forward
/// of a pawn attacks anything.
pub proof fn law_attack_is_a_fitting_move(p: Position, target: crate::coordinates::BoardCoordinates)
    requires
        p.wf(),
    ensures
        p.attacked(target) <==> (exists|m: Move| #[trigger]
            p.flipped().fits(m) && m.end == target && !m.piece_moved.is_pawn())
            || p.pawn_attacks(target),
        p.pawn_attacks(target) <==> exists|side: int|
            (side == 1 || side == -1) && #[trigger] p.pawn_attacks_from(target, side),
{
    let q = p.flipped();
    let pseudo = q.pseudo_legal_moves();
    if q.reaches_with_piece(target) {
        let i = choose|i: int|
            0 <= i < pseudo.len() && (#[trigger] pseudo[i]).end == target
                && !pseudo[i].piece_moved.is_pawn();
        lemma_pseudo_legal_moves_are_those_that_fit(q, pseudo[i]);
        assert(pseudo.contains(pseudo[i]));
        assert(q.fits(pseudo[i]) && pseudo[i].end == target && !pseudo[i].piece_moved.is_pawn());
    }
    if exists|m: Move| #[trigger] q.fits(m) && m.end == target && !m.piece_moved.is_pawn() {
        let m = choose|m: Move| #[trigger] q.fits(m) && m.end == target && !m.piece_moved.is_pawn();
        lemma_pseudo_legal_moves_are_those_that_fit(q, m);
        let i = choose|i: int| 0 <= i < pseudo.len() && pseudo[i] == m;
        assert(pseudo[i].end == target && !pseudo[i].piece_moved.is_pawn());
    }
}

/// An attack on a piece is a capture. Where `target` holds a piece of the
/// side to move, the other side attacks it exactly when one of its
/// pseudo-legal moves would end there, were it its turn: for every piece
/// but the pawn the two are the same by definition, and a pawn that stands
/// diagonally in front of a piece of the other side can capture it.
pub proof fn law_attack_on_a_piece_is_a_capture(
    p: Position,
    target: crate::coordinates::BoardCoordinates,
)
    requires
        p.wf(),
        target.wf(),
        p.at(target).owned_by(p.turn),
    ensures
        p.attacked(target) <==> p.flipped().reaches(target),
{
    let q = p.flipped();
    let pseudo = q.pseudo_legal_moves();
    let f = forward(q.turn);
    if q.reaches(target) {
        let i = choose|i: int| 0 <= i < pseudo.len() && (#[trigger] pseudo[i]).end == target;
        let m = pseudo[i];
        lemma_candidates_sound(q);
        assert(q.fits(m));
        if m.piece_moved.is_pawn() {
            assert(q.pawn_fits(m));
            let side = m.start.col - target.col;
            assert(m.start.index() == (target.row - f) * 8 + (target.col + side));
            assert(p.pawn_attacks_from(target, side));
        }
    }
    if p.pawn_attacks(target) {
        let side: int = if p.pawn_attacks_from(target, -1) {
            -1
        } else {
            1
        };
        let start = square_at(target.row - f, target.col + side);
        assert(start.index() == (target.row - f) * 8 + (target.col + side));
        let special = if start.row == promotion_row(q.turn) {
            Some(SpecialMove::PawnPromotion(Square::Occupied(q.turn, Piece::Queen)))
        } else {
            None
        };
        let m = q.move_to(start, target, special);
        assert(q.pawn_fits(m));
        assert(q.fits(m));
        lemma_pseudo_legal_moves_are_those_that_fit(q, m);
        let i = choose|i: int| 0 <= i < pseudo.len() && pseudo[i] == m;
        assert(pseudo[i].end == target);
    }
}

/// Check is a threat to capture the king. Where the king of the side to
/// move stands on its recorded square, that side is in check exactly when
/// a pseudo-legal move of the other side would end on the king's square,
/// were it its turn.
pub proof fn law_check_is_king_capture(p: Position)
    requires
        p.wf(),
        p.at(p.king_location(p.turn)) == Square::Occupied(p.turn, Piece::King),
    ensures
        p.in_check() <==> p.flipped().reaches(p.king_location(p.turn)),
{
    law_attack_on_a_piece_is_a_capture(p, p.king_location(p.turn));
}

/// The side to move can move onto a square exactly when it has a move that
/// fits the rule of its piece and ends there.
pub proof fn law_reach_is_a_fitting_move(p: Position, target: crate::coordinates::BoardCoordinates)
    requires
        p.wf(),
    ensures
        p.reaches(target) <==> exists|m: Move| #[trigger] p.fits(m) && m.end == target,
{
    let pseudo = p.pseudo_legal_moves();
    if p.reaches(target) {
        let i = choose|i: int| 0 <= i < pseudo.len() && (#[trigger] pseudo[i]).end == target;
        lemma_pseudo_legal_moves_are_those_that_fit(p, pseudo[i]);
        assert(pseudo.contains(pseudo[i]));
        assert(p.fits(pseudo[i]) && pseudo[i].end == target);
    }
    if exists|m: Move| #[trigger] p.fits(m) && m.end == target {
        let m = choose|m: Move| #[trigger] p.fits(m) && m.end == target;
        lemma_pseudo_legal_moves_are_those_that_fit(p, m);
        let i = choose|i: int| 0 <= i < pseudo.len() && pseudo[i] == m;
        assert(pseudo[i].end == target);
    }
}

/// A candidate move exposes the mover's king exactly when the other side
/// could then capture a king: in a position that a game of legal moves has
/// reached, the replies that end on the square of the mover's king are the
/// replies that record a king as the piece captured.
#[verifier::rlimit(30)]
pub proof fn law_exposure_is_king_capture(p: Position, m: Move)
    requires
        p.consistent(),
        p.candidate_moves().contains(m),
    ensures
        p.exposes_king(m) <==> exists|i: int|
            0 <= i < p.after(m).pseudo_legal_moves().len() && (#[trigger] p.after(
                m,
            ).pseudo_legal_moves()[i]).piece_captured.kind() == Some(Piece::King),
{
    lemma_candidate_spares_king(p, m);
    lemma_move_keeps_kings(p, m);
    let q = p.after(m);
    let replies = q.pseudo_legal_moves();
    let king = q.king_location(p.turn);
    let other = q.king_location(p.turn.other());
    assert(q.wf());
    lemma_candidates_sound(q);
    assert(q.board[king.index()] == Square::Occupied(p.turn, Piece::King));
    assert(q.board[other.index()] == Square::Occupied(p.turn.other(), Piece::King));
    if p.exposes_king(m) {
        let i = choose|i: int| 0 <= i < replies.len() && (#[trigger] replies[i]).end == king;
        assert(q.fits(replies[i]));
        assert(replies[i].piece_captured == q.at(king));
    }
    if exists|i: int|
        0 <= i < replies.len() && (#[trigger] replies[i]).piece_captured.kind() == Some(
            Piece::King,
        ) {
        let i = choose|i: int|
            0 <= i < replies.len() && (#[trigger] replies[i]).piece_captured.kind() == Some(
                Piece::King,
            );
        let reply = replies[i];
        assert(q.fits(reply));
        assert(q.board[reply.end.index()] == q.at(reply.end));
        assert(reply.end == king);
    }
}

/// The result of a game says what holds of the position reached: a dead
/// position when only the kings are left; otherwise checkmate or stalemate
/// when the side to move has no legal move and is or is not in check;
/// otherwise threefold repetition when a board has been reached three
/// times; otherwise the fifty-move rule after a hundred quiet plies; and
/// none otherwise.
pub proof fn law_results(log: Seq<Move>)
    ensures
        result_after(log) == Some(GameResult::DeadPosition) <==> position_after(log).only_kings(),
        result_after(log) == Some(GameResult::Checkmate) <==> !position_after(log).only_kings()
            && position_after(log).legal_moves().len() == 0 && position_after(log).in_check(),
        result_after(log) == Some(GameResult::Stalemate) <==> !position_after(log).only_kings()
            && position_after(log).legal_moves().len() == 0 && !position_after(log).in_check(),
        result_after(log) == Some(GameResult::ThreefoldRepetition) <==> !position_after(
            log,
        ).only_kings() && position_after(log).legal_moves().len() > 0 && seen_three_times(log),
        result_after(log) == Some(GameResult::FiftyMoveRule) <==> !position_after(
            log,
        ).only_kings() && position_after(log).legal_moves().len() > 0 && !seen_three_times(log)
            && quiet_plies(log) >= fifty_move_limit(),
        result_after(log) is None <==> !position_after(log).only_kings() && position_after(
            log,
        ).legal_moves().len() > 0 && !seen_three_times(log) && quiet_plies(log)
            < fifty_move_limit(),
{
}

/// No list of moves holds a move twice: the number of legal moves is the
/// number of entries on the list.
pub proof fn law_moves_listed_once(p: Position)
    requires
        p.wf(),
    ensures
        p.pseudo_legal_moves().no_duplicates(),
        p.castling_moves().no_duplicates(),
        p.candidate_moves().no_duplicates(),
        p.legal_moves().no_duplicates(),
{
    crate::distinct::lemma_moves_are_distinct(p);
}

/// On the list of legal moves the same move is one move: two legal moves
/// of a position that a game of legal moves has reached are equal, special
/// move and all, as soon as they agree on both squares and on the
/// promotion choice. So a move made up from two squares and a promotion
/// choice picks at most one legal move.
pub proof fn law_same_move_is_one_move(p: Position, a: Move, b: Move)
    requires
        p.consistent(),
        p.legal_moves().contains(a),
        p.legal_moves().contains(b),
        a.same_move(b),
    ensures
        a == b,
{
    lemma_legal_moves(p, a);
    lemma_legal_moves(p, b);
    lemma_candidate_spares_king(p, a);
    lemma_candidate_spares_king(p, b);
    lemma_same_candidates_are_equal(p, a, b);
}

/// The corner in which the rook of a castling right starts.
pub open spec fn rook_corner(player: Player, king_side: bool) -> crate::coordinates::BoardCoordinates {
    square_at(
        home_row(player),
        if king_side {
            7
        } else {
            0
        },
    )
}

/// Whether `rights` hold the right of `player` to castle on the given side.
pub open spec fn holds_right(rights: CastlingRights, player: Player, king_side: bool) -> bool {
    match player {
        Player::White => if king_side {
            rights.white_king_side
        } else {
            rights.white_queen_side
        },
        Player::Black => if king_side {
            rights.black_king_side
        } else {
            rights.black_queen_side
        },
    }
}

/// Whether `m` leaves the right of `player` to castle on the given side
/// alone: it does not move the king of `player`, nor a rook off the corner
/// of that right, nor does it capture a rook on that corner.
pub open spec fn keeps_right(m: Move, player: Player, king_side: bool) -> bool {
    &&& m.piece_moved != Square::Occupied(player, Piece::King)
    &&& !(m.piece_moved.kind() == Some(Piece::Rook) && m.start == rook_corner(player, king_side))
    &&& !(m.piece_captured.kind() == Some(Piece::Rook) && m.end == rook_corner(player, king_side))
}

/// A move takes a castling right away exactly when it does not leave it
/// alone, and it never gives one back.
pub proof fn law_rights_after_move(rights: CastlingRights, m: Move, player: Player, king_side: bool)
    ensures
        holds_right(rights_after(rights, m), player, king_side) <==> holds_right(
            rights,
            player,
            king_side,
        ) && keeps_right(m, player, king_side),
{
}

/// A castling right is there exactly as long as its king and its rook
/// have stayed at home: after the moves of a game a side holds a right
/// exactly when no move of the game moved its king, moved a rook off the
/// corner of that right or captured a rook there.
pub proof fn law_castling_right_history(log: Seq<Move>, player: Player, king_side: bool)
    ensures
        holds_right(position_after(log).castling_rights, player, king_side) <==> forall|i: int|
            0 <= i < log.len() ==> keeps_right(#[trigger] log[i], player, king_side),
    decreases log.len(),
{
    if log.len() > 0 {
        let earlier = log.drop_last();
        law_castling_right_history(earlier, player, king_side);
        law_rights_after_move(
            position_after(earlier).castling_rights,
            log.last(),
            player,
            king_side,
        );
        if forall|i: int| 0 <= i < log.len() ==> keeps_right(#[trigger] log[i], player, king_side) {
            assert forall|i: int| 0 <= i < earlier.len() implies keeps_right(
                #[trigger] earlier[i],
                player,
                king_side,
            ) by {
                assert(earlier[i] == log[i]);
            }
            assert(keeps_right(log[log.len() - 1], player, king_side));
        }
        if holds_right(position_after(log).castling_rights, player, king_side) {
            assert forall|i: int| 0 <= i < log.len() implies keeps_right(
                #[trigger] log[i],
                player,
                king_side,
            ) by {
                if i < earlier.len() {
                    assert(earlier[i] == log[i]);
                }
            }
        }
    }
}

} // verus!
