//! What holds of every position of a game, and that legal moves keep it so.

use vstd::prelude::*;
use crate::coordinates::square_at;
use crate::generation::{en_passant_row, forward};
use crate::moves::{Move, SpecialMove};
use crate::piece::Piece;
use crate::player::Player;
use crate::position::{
    castle_rook_end, castle_rook_start, en_passant_after, en_passant_victim, home_row,
    initial_position, Position,
};
use crate::shape::{lemma_candidates_sound, slides};
use crate::square::Square;

verus! {

impl Position {
    /// Each side has exactly one king, and it stands where it is recorded.
    pub open spec fn kings_in_place(self) -> bool {
        forall|i: int|
            0 <= i < 64 ==> {
                &&& (#[trigger] self.board[i]) == Square::Occupied(Player::White, Piece::King) <==> i
                    == self.white_king_location.index()
                &&& self.board[i] == Square::Occupied(Player::Black, Piece::King) <==> i
                    == self.black_king_location.index()
            }
    }

    /// An en-passant square is the empty square that a pawn of the side not
    /// to move has just passed over: that pawn stands right behind it.
    pub open spec fn en_passant_sound(self) -> bool {
        match self.en_passant_square {
            None => true,
            Some(target) => {
                &&& target.row == en_passant_row(self.turn)
                &&& self.at(target) == Square::Empty
                &&& self.square(target.row - forward(self.turn), target.col as int)
                    == Square::Occupied(self.turn.other(), Piece::Pawn)
            },
        }
    }

    /// While `player` has a castling right, its king is recorded on its
    /// first square and the rook of that right stands in its corner.
    pub open spec fn rights_sound_for(self, player: Player) -> bool {
        let row = home_row(player);
        let (king_side, queen_side) = match player {
            Player::White => (
                self.castling_rights.white_king_side,
                self.castling_rights.white_queen_side,
            ),
            Player::Black => (
                self.castling_rights.black_king_side,
                self.castling_rights.black_queen_side,
            ),
        };
        &&& king_side ==> self.king_location(player) == square_at(row, 4) && self.square(row, 7)
            == Square::Occupied(player, Piece::Rook)
        &&& queen_side ==> self.king_location(player) == square_at(row, 4) && self.square(row, 0)
            == Square::Occupied(player, Piece::Rook)
    }

    /// The castling rights agree with the board for both sides.
    pub open spec fn rights_sound(self) -> bool {
        self.rights_sound_for(Player::White) && self.rights_sound_for(Player::Black)
    }

    /// The side to move cannot move onto the square of the other king: the
    /// side that has just moved did not leave its king attacked.
    pub open spec fn opponent_safe(self) -> bool {
        !self.reaches(self.king_location(self.turn.other()))
    }

    /// What holds of every position that a game of legal moves reaches.
    pub open spec fn consistent(self) -> bool {
        &&& self.wf()
        &&& self.kings_in_place()
        &&& self.en_passant_sound()
        &&& self.rights_sound()
        &&& self.opponent_safe()
    }

    /// What holds of a candidate move in a position where kings and
    /// castling rights agree with the board: it goes from a piece of the
    /// side to move to a square without one; the king that it moves starts
    /// from its recorded square; and a castling move goes two columns from
    /// the king's first square over empty squares, with its rook in the
    /// corner and the square beyond the king's first step empty.
    pub open spec fn grounded(self, m: Move) -> bool {
        &&& self.takes_from_board(m)
        &&& m.piece_moved.kind() == Some(Piece::King) ==> m.start == self.king_location(self.turn)
        &&& match m.special_move {
            Some(SpecialMove::Castle) => {
                &&& m.piece_moved == Square::Occupied(self.turn, Piece::King)
                &&& m.start == square_at(home_row(self.turn), 4)
                &&& m.end == square_at(home_row(self.turn), 6) || m.end == square_at(
                    home_row(self.turn),
                    2,
                )
                &&& self.at(m.end) == Square::Empty
                &&& self.at(castle_rook_end(m)) == Square::Empty
                &&& self.at(castle_rook_start(m)) == Square::Occupied(self.turn, Piece::Rook)
            },
            _ => self.fits(m),
        }
    }
}

/// A candidate move is grounded where kings and castling rights agree with
/// the board.
pub proof fn lemma_sound_is_grounded(p: Position, m: Move)
    requires
        p.wf(),
        p.kings_in_place(),
        p.rights_sound(),
        p.sound(m),
    ensures
        p.grounded(m),
{
    let own_king = p.king_location(p.turn);
    assert(p.board[own_king.index()] == Square::Occupied(p.turn, Piece::King));
    if p.fits(m) {
        assert(m.special_move != Some(SpecialMove::Castle)) by {
            match p.at(m.start).kind() {
                Some(Piece::Pawn) => {},
                Some(kind) => {},
                None => {},
            }
        }
        if m.piece_moved.kind() == Some(Piece::King) {
            assert(p.board[m.start.index()] == Square::Occupied(p.turn, Piece::King));
        }
    } else {
        let king_side = choose|king_side: bool|
            {
                &&& m == #[trigger] p.castle_move(king_side)
                &&& !p.in_check()
                &&& p.has_right(king_side)
                &&& p.castle_path_empty(king_side)
                &&& p.castle_path_safe(king_side)
            };
        assert(m == p.castle_move(king_side));
        assert(p.rights_sound_for(p.turn));
        assert(own_king == square_at(home_row(p.turn), 4));
    }
}

/// Putting the pieces of a candidate move back undoes moving them: from a
/// position where kings, castling rights and the en-passant square agree
/// with the board, making the move and unmaking it gives the same position.
pub proof fn lemma_unmake_reverts_make(p: Position, m: Move, previous: Option<Move>)
    requires
        p.wf(),
        p.kings_in_place(),
        p.en_passant_sound(),
        p.rights_sound(),
        p.sound(m),
        en_passant_after(previous) == p.en_passant_square,
    ensures
        p.after(m).before(m, p.castling_rights, previous) == p,
{
    lemma_sound_is_grounded(p, m);
    let q = p.after(m);
    let r = q.before(m, p.castling_rights, previous);
    assert(r.board =~= p.board) by {
        match m.special_move {
            Some(SpecialMove::EnPassant) => {
                assert(en_passant_victim(m).index() == m.start.row * 8 + m.end.col);
            },
            _ => {},
        }
    }
}

/// Among the candidate moves of a position where kings and castling rights
/// agree with the board, the same move is one move: two candidates that
/// agree on both squares and on the promotion choice are equal, special
/// move and all.
pub proof fn lemma_same_candidates_are_equal(p: Position, a: Move, b: Move)
    requires
        p.wf(),
        p.kings_in_place(),
        p.rights_sound(),
        p.sound(a),
        p.sound(b),
        a.same_move(b),
    ensures
        a == b,
{
    lemma_sound_is_grounded(p, a);
    lemma_sound_is_grounded(p, b);
    let own_king = p.king_location(p.turn);
    assert(p.board[own_king.index()] == Square::Occupied(p.turn, Piece::King));
    assert(p.board[a.start.index()] == p.at(a.start));
    if a.special_move == Some(SpecialMove::Castle) || b.special_move == Some(SpecialMove::Castle) {
        let c = if a.special_move == Some(SpecialMove::Castle) {
            a
        } else {
            b
        };
        let d = if a.special_move == Some(SpecialMove::Castle) {
            b
        } else {
            a
        };
        if d.special_move != Some(SpecialMove::Castle) {
            assert(p.fits(d));
            assert(p.at(d.start).kind() == Some(Piece::King));
            assert(p.piece_fits(d, Piece::King));
            assert(crate::shape::king_step(d));
            assert(crate::shape::cols_apart(c) == 2);
        }
    } else {
        assert(p.fits(a) && p.fits(b));
        match p.at(a.start).kind() {
            Some(Piece::Pawn) => {
                assert(p.pawn_fits(a) && p.pawn_fits(b));
            },
            Some(kind) => {
                assert(p.piece_fits(a, kind) && p.piece_fits(b, kind));
            },
            None => {},
        }
    }
}

/// A move is legal exactly when it is a candidate that does not expose the
/// mover's king.
pub proof fn lemma_legal_moves(p: Position, m: Move)
    ensures
        p.legal_moves().contains(m) <==> p.candidate_moves().contains(m) && !p.exposes_king(m),
{
    let safe = |m: Move| !p.exposes_king(m);
    let candidates = p.candidate_moves();
    if p.legal_moves().contains(m) {
        candidates.lemma_filter_contains_rev(safe, m);
        let i = choose|i: int| 0 <= i < candidates.filter(safe).len() && candidates.filter(safe)[i] == m;
        candidates.lemma_filter_pred(safe, i);
    }
    if candidates.contains(m) && !p.exposes_king(m) {
        let i = choose|i: int| 0 <= i < candidates.len() && candidates[i] == m;
        candidates.lemma_filter_contains(safe, i);
    }
}

/// A candidate move of a consistent position is sound and grounded, and it
/// does not end on the square of the other side's king.
pub proof fn lemma_candidate_spares_king(p: Position, m: Move)
    requires
        p.consistent(),
        p.candidate_moves().contains(m),
    ensures
        p.sound(m),
        p.grounded(m),
        m.end != p.king_location(p.turn.other()),
{
    lemma_candidates_sound(p);
    let candidates = p.candidate_moves();
    let pseudo = p.pseudo_legal_moves();
    let j = choose|j: int| 0 <= j < candidates.len() && candidates[j] == m;
    assert(p.sound(candidates[j]));
    lemma_sound_is_grounded(p, m);
    let other_king = p.king_location(p.turn.other());
    assert(p.board[other_king.index()] == Square::Occupied(p.turn.other(), Piece::King));
    if j < pseudo.len() {
        assert(pseudo[j] == m);
    } else {
        assert(p.castling_moves()[j - pseudo.len()] == m);
        assert(p.castle_fits(m));
        assert(m.special_move == Some(SpecialMove::Castle));
    }
}

/// After a grounded move that does not take a king, each side still has
/// exactly one king, recorded where it stands.
pub proof fn lemma_move_keeps_kings(p: Position, m: Move)
    requires
        p.wf(),
        p.kings_in_place(),
        p.en_passant_sound(),
        p.grounded(m),
        m.end != p.king_location(p.turn.other()),
    ensures
        p.after(m).kings_in_place(),
{
    let q = p.after(m);
    let own = p.king_location(p.turn);
    let other = p.king_location(p.turn.other());
    assert(p.board[own.index()] == Square::Occupied(p.turn, Piece::King));
    assert(p.board[other.index()] == Square::Occupied(p.turn.other(), Piece::King));
    assert(p.board[m.end.index()] == p.at(m.end));
    assert(p.board[m.start.index()] == p.at(m.start));
    match m.special_move {
        Some(SpecialMove::EnPassant) => {
            assert(en_passant_victim(m).index() == m.start.row * 8 + m.end.col);
            assert(p.board[en_passant_victim(m).index()] == Square::Occupied(
                p.turn.other(),
                Piece::Pawn,
            ));
        },
        Some(SpecialMove::Castle) => {
            assert(p.board[castle_rook_start(m).index()] == Square::Occupied(p.turn, Piece::Rook));
            assert(p.board[castle_rook_end(m).index()] == Square::Empty);
        },
        _ => {},
    }
    assert forall|i: int| 0 <= i < 64 implies {
        &&& (#[trigger] q.board[i]) == Square::Occupied(Player::White, Piece::King) <==> i
            == q.white_king_location.index()
        &&& q.board[i] == Square::Occupied(Player::Black, Piece::King) <==> i
            == q.black_king_location.index()
    } by {
        assert(p.board[i] == Square::Occupied(Player::White, Piece::King) <==> i
            == p.white_king_location.index());
        assert(p.board[i] == Square::Occupied(Player::Black, Piece::King) <==> i
            == p.black_king_location.index());
    }
}

/// After a grounded move the en-passant square, if there is one, is the
/// empty square behind the pawn that has just gone two rows forward.
pub proof fn lemma_move_keeps_en_passant(p: Position, m: Move)
    requires
        p.wf(),
        p.grounded(m),
    ensures
        p.after(m).en_passant_sound(),
{
    let q = p.after(m);
    match q.en_passant_square {
        None => {},
        Some(target) => {
            assert(m.piece_moved == Square::Occupied(p.turn, Piece::Pawn));
            assert(p.pawn_fits(m));
            let f = forward(p.turn);
            assert(m.end.row - m.start.row == 2 * f);
            assert(m.special_move is None);
            assert(target == square_at(m.start.row + f, m.start.col as int));
            assert(target.index() == (m.start.row + f) * 8 + m.start.col);
            assert(q.board[m.end.index()] == m.piece_moved);
        },
    }
}

/// After a grounded move every castling right that is left still has its
/// king and its rook on their first squares.
pub proof fn lemma_move_keeps_rights(p: Position, m: Move)
    requires
        p.wf(),
        p.kings_in_place(),
        p.rights_sound(),
        p.grounded(m),
    ensures
        p.after(m).rights_sound(),
{
    let q = p.after(m);
    assert(p.board[m.end.index()] == p.at(m.end));
    assert(p.board[m.start.index()] == p.at(m.start));
    assert(m.piece_moved == Square::Occupied(p.turn, Piece::King) || q.king_location(p.turn)
        == p.king_location(p.turn));
    assert(q.king_location(p.turn.other()) == p.king_location(p.turn.other()));
    match m.special_move {
        Some(SpecialMove::EnPassant) => {
            assert(en_passant_victim(m).index() == m.start.row * 8 + m.end.col);
            assert(p.pawn_fits(m));
        },
        _ => {},
    }
    assert(q.rights_sound_for(Player::White));
    assert(q.rights_sound_for(Player::Black));
}

/// A legal move leads from a consistent position to a consistent position.
pub proof fn lemma_legal_move_keeps_consistency(p: Position, m: Move)
    requires
        p.consistent(),
        p.legal_moves().contains(m),
    ensures
        p.after(m).consistent(),
{
    lemma_legal_moves(p, m);
    lemma_candidate_spares_king(p, m);
    lemma_move_keeps_kings(p, m);
    lemma_move_keeps_en_passant(p, m);
    lemma_move_keeps_rights(p, m);
}

/// The position at the start of a game is consistent.
pub proof fn lemma_initial_position_consistent()
    ensures
        initial_position().consistent(),
{
    let p = initial_position();
    assert(p.board.len() == 64);
    assert forall|i: int| 0 <= i < 64 implies (#[trigger] p.board[i]) == crate::board::initial_square(
        i / 8,
        i % 8,
    ) by {}
    assert(p.kings_in_place());
    assert(p.rights_sound());
    lemma_candidates_sound(p);
    let target = p.king_location(Player::Black);
    let pseudo = p.pseudo_legal_moves();
    assert forall|j: int| 0 <= j < pseudo.len() implies (#[trigger] pseudo[j]).end != target by {
        let m = pseudo[j];
        assert(p.fits(m));
        let i = m.start.index();
        assert(p.board[i] == crate::board::initial_square(i / 8, i % 8));
        assert(i / 8 == m.start.row && i % 8 == m.start.col);
        assert(m.start.row == 6 || m.start.row == 7);
        if m.start.row == 6 {
            assert(p.at(m.start).kind() == Some(Piece::Pawn));
            assert(p.pawn_fits(m));
        } else {
            let kind = p.at(m.start).kind()->0;
            assert(kind != Piece::Pawn);
            assert(p.piece_fits(m, kind));
            if slides(kind) && m.end.row < 6 {
                assert(crate::shape::span(m) >= 2);
                let row = m.start.row + crate::shape::walk(
                    crate::shape::signum(m.end.row - m.start.row),
                    1,
                );
                let col = m.start.col + crate::shape::walk(
                    crate::shape::signum(m.end.col - m.start.col),
                    1,
                );
                let k = row * 8 + col;
                assert(p.path_square(m, 1) == Square::Empty);
                assert(p.board[k] == crate::board::initial_square(k / 8, k % 8));
                assert(k / 8 == row && k % 8 == col);
            }
        }
    }
}

} // verus!
