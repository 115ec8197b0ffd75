//! The proof that an open castling move never exposes the king.

use vstd::prelude::*;
use crate::completeness::lemma_pseudo_legal_moves_are_those_that_fit;
use crate::consistency::lemma_sound_is_grounded;
use crate::coordinates::square_at;
use crate::generation::forward;
use crate::moves::Move;
use crate::piece::Piece;
use crate::position::{home_row, Position};
use crate::shape::{lemma_candidates_sound, signum, span, walk};
use crate::square::Square;

verus! {

impl Position {
    /// The castling towards the given side is open: the king is not in
    /// check, the right is still there, the squares between king and rook
    /// are empty, and neither the square the king passes over nor the one
    /// it lands on is attacked.
    pub open spec fn castle_open(self, king_side: bool) -> bool {
        &&& !self.in_check()
        &&& self.has_right(king_side)
        &&& self.castle_path_empty(king_side)
        &&& self.castle_path_safe(king_side)
    }
}

/// The column on which the king lands when it castles.
pub open spec fn landing_col(king_side: bool) -> int {
    if king_side {
        6
    } else {
        2
    }
}

/// The column on which the rook lands when its king castles.
pub open spec fn rook_landing_col(king_side: bool) -> int {
    if king_side {
        5
    } else {
        3
    }
}

/// The column of the corner from which the rook castles.
pub open spec fn corner_col(king_side: bool) -> int {
    if king_side {
        7
    } else {
        0
    }
}

/// What the board holds after castling: the king and the rook have landed,
/// their first squares are empty, and every other square is as it was.
pub proof fn lemma_board_after_castling(p: Position, king_side: bool)
    requires
        p.wf(),
        p.kings_in_place(),
        p.rights_sound(),
        p.castle_open(king_side),
    ensures
        ({
            let m = p.castle_move(king_side);
            let q = p.after(m);
            let row = home_row(p.turn);
            &&& q.wf()
            &&& q.turn == p.turn.other()
            &&& m.end == square_at(row, landing_col(king_side))
            &&& q.king_location(p.turn) == m.end
            &&& p.square(row, landing_col(king_side)) == Square::Empty
            &&& q.square(row, 4) == Square::Empty
            &&& q.square(row, landing_col(king_side)) == Square::Occupied(p.turn, Piece::King)
            &&& q.square(row, rook_landing_col(king_side)) == Square::Occupied(
                p.turn,
                Piece::Rook,
            )
            &&& q.square(row, corner_col(king_side)) == Square::Empty
            &&& forall|i: int|
                0 <= i < 64 && i != row * 8 + 4 && i != row * 8 + landing_col(king_side) && i != row
                    * 8 + rook_landing_col(king_side) && i != row * 8 + corner_col(king_side)
                    ==> #[trigger] q.board[i] == p.board[i]
        }),
{
    let m = p.castle_move(king_side);
    assert(p.castle_fits(m));
    lemma_sound_is_grounded(p, m);
    let row = home_row(p.turn);
    assert(m.start.index() == row * 8 + 4);
    assert(m.end.index() == row * 8 + landing_col(king_side));
    assert(crate::position::castle_rook_end(m).index() == row * 8 + rook_landing_col(king_side));
    assert(crate::position::castle_rook_start(m).index() == row * 8 + corner_col(king_side));
}

/// An open castling move does not expose the king: where the square on
/// which the king lands is not attacked before the move, no reply can end
/// on it after the move. The rook that has come to stand beside the king
/// shields it along the row, and nothing else on the board has changed to
/// open a line towards it.
#[verifier::rlimit(50)]
pub proof fn lemma_open_castle_is_safe(p: Position, king_side: bool)
    requires
        p.wf(),
        p.kings_in_place(),
        p.rights_sound(),
        p.castle_open(king_side),
    ensures
        !p.exposes_king(p.castle_move(king_side)),
{
    let m = p.castle_move(king_side);
    let q = p.after(m);
    let row = home_row(p.turn);
    let target = m.end;
    let other = p.turn.other();
    let back = p.flipped();
    lemma_board_after_castling(p, king_side);
    assert(target.index() == row * 8 + landing_col(king_side));
    assert(!p.attacked(target));
    if q.reaches(target) {
        let replies = q.pseudo_legal_moves();
        let i = choose|i: int| 0 <= i < replies.len() && (#[trigger] replies[i]).end == target;
        let reply = replies[i];
        lemma_candidates_sound(q);
        assert(q.fits(reply));
        let from = reply.start.index();
        assert(q.board[from] == q.at(reply.start));
        assert(q.board[from] == p.board[from]);
        let kind = q.at(reply.start).kind()->0;
        if kind == Piece::Pawn {
            assert(q.pawn_fits(reply));
            let side = reply.start.col - target.col;
            assert(from == (target.row - forward(other)) * 8 + (target.col + side));
            assert(p.pawn_attacks_from(target, side));
        } else {
            assert(q.piece_fits(reply, kind));
            let attack = back.move_to(reply.start, target, None);
            assert(back.takes_from_board(attack));
            if crate::shape::slides(kind) {
                let sr = signum(target.row - reply.start.row);
                let sc = signum(target.col - reply.start.col);
                assert forall|j: int| 0 < j < span(attack) implies #[trigger] back.path_square(
                    attack,
                    j,
                ) == Square::Empty by {
                    lemma_path_square_after_castling(p, king_side, reply, j);
                }
            }
            assert(back.piece_fits(attack, kind));
            assert(back.fits(attack));
            lemma_pseudo_legal_moves_are_those_that_fit(back, attack);
            let attacks = back.pseudo_legal_moves();
            let k = choose|k: int| 0 <= k < attacks.len() && attacks[k] == attack;
            assert(attacks[k].end == target && !attacks[k].piece_moved.is_pawn());
            assert(back.reaches_with_piece(target));
        }
    }
}

/// A square on the way of a sliding reply onto the king that has castled
/// was empty before the castling too: the way does not lead over the first
/// squares of king and rook, since it would then run along the home row
/// and into the rook beside the king, or off the board.
proof fn lemma_path_square_after_castling(p: Position, king_side: bool, reply: Move, j: int)
    requires
        p.wf(),
        p.kings_in_place(),
        p.rights_sound(),
        p.castle_open(king_side),
        reply.start.wf(),
        reply.end == p.castle_move(king_side).end,
        crate::shape::diagonal(reply) || crate::shape::straight(reply),
        p.after(p.castle_move(king_side)).path_clear(reply),
        0 < j < span(reply),
    ensures
        p.path_square(reply, j) == Square::Empty,
{
    let m = p.castle_move(king_side);
    let q = p.after(m);
    let row = home_row(p.turn);
    lemma_board_after_castling(p, king_side);
    let sr = signum(reply.end.row - reply.start.row);
    let sc = signum(reply.end.col - reply.start.col);
    let r = reply.start.row + walk(sr, j);
    let c = reply.start.col + walk(sc, j);
    assert(reply.end.row == row && reply.end.col == landing_col(king_side));
    assert(0 <= r <= 7 && 0 <= c <= 7);
    assert(q.path_square(reply, j) == Square::Empty);
    assert(q.path_square(reply, j) == q.board[r * 8 + c]);
    assert(p.path_square(reply, j) == p.board[r * 8 + c]);
    if r == row && (c == 4 || c == corner_col(king_side)) {
        assert(sr == 0);
        if c == 4 {
            assert(j + 1 < span(reply));
            assert(q.path_square(reply, j + 1) == Square::Empty);
            assert(q.path_square(reply, j + 1) == q.board[row * 8 + rook_landing_col(king_side)]);
        }
    }
}

} // verus!
