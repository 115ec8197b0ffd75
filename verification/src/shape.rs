//! The rules of the pieces, and the proof that every generated move obeys them.

use vstd::prelude::*;
use crate::coordinates::{on_board, square_at, BoardCoordinates};
use crate::generation::{
    bishop_steps, en_passant_row, forward, king_steps, knight_steps, pawn_row, promotion_row,
    promotions, rook_steps,
};
use crate::moves::{Move, SpecialMove};
use crate::piece::Piece;
use crate::position::Position;
use crate::square::Square;

verus! {

/// Whether `kind` is a piece that walks along a line as far as it is free.
pub open spec fn slides(kind: Piece) -> bool {
    kind == Piece::Bishop || kind == Piece::Rook || kind == Piece::Queen
}

/// Whether `square` is a piece that a pawn of `player` may be promoted to.
pub open spec fn promotion_piece(square: Square, player: crate::player::Player) -> bool {
    square == Square::Occupied(player, Piece::Queen) || square == Square::Occupied(
        player,
        Piece::Rook,
    ) || square == Square::Occupied(player, Piece::Bishop) || square == Square::Occupied(
        player,
        Piece::Knight,
    )
}

/// The sign of `d`: 1, -1 or 0.
pub open spec fn signum(d: int) -> int {
    if d > 0 {
        1
    } else if d < 0 {
        -1
    } else {
        0
    }
}

/// How far `steps` steps in the direction `sign` lead: `steps` forward,
/// `steps` backward, or nowhere.
pub open spec fn walk(sign: int, steps: int) -> int {
    if sign > 0 {
        steps
    } else if sign < 0 {
        -steps
    } else {
        0
    }
}

/// The distance that `m` covers in rows.
pub open spec fn rows_apart(m: Move) -> int {
    if m.end.row >= m.start.row {
        m.end.row - m.start.row
    } else {
        m.start.row - m.end.row
    }
}

/// The distance that `m` covers in columns.
pub open spec fn cols_apart(m: Move) -> int {
    if m.end.col >= m.start.col {
        m.end.col - m.start.col
    } else {
        m.start.col - m.end.col
    }
}

/// The number of king's steps from the start of `m` to its end.
pub open spec fn span(m: Move) -> int {
    if rows_apart(m) >= cols_apart(m) {
        rows_apart(m)
    } else {
        cols_apart(m)
    }
}

/// `m` goes along a diagonal.
pub open spec fn diagonal(m: Move) -> bool {
    rows_apart(m) == cols_apart(m) && rows_apart(m) > 0
}

/// `m` goes along a row or a column.
pub open spec fn straight(m: Move) -> bool {
    (rows_apart(m) == 0) != (cols_apart(m) == 0)
}

/// `m` is the jump of a knight: two squares one way and one the other.
pub open spec fn knight_jump(m: Move) -> bool {
    (rows_apart(m) == 1 && cols_apart(m) == 2) || (rows_apart(m) == 2 && cols_apart(m) == 1)
}

/// `m` goes to a neighbouring square.
pub open spec fn king_step(m: Move) -> bool {
    span(m) == 1
}

impl Position {
    /// `m` goes from a piece of the side to move to a square that holds no
    /// piece of that side, both on the board, and records what stands on
    /// the two squares.
    pub open spec fn takes_from_board(self, m: Move) -> bool {
        &&& m.start.wf()
        &&& m.end.wf()
        &&& m.piece_moved == self.at(m.start)
        &&& m.piece_captured == self.at(m.end)
        &&& self.at(m.start).owned_by(self.turn)
        &&& !self.at(m.end).owned_by(self.turn)
    }

    /// `m` moves as a pawn of the side to move does: one row forward onto
    /// an empty square, two rows forward from its starting row over and
    /// onto empty squares, or one row forward and one column aside onto a
    /// piece of the other side or, en passant, onto the empty en-passant
    /// square. Off the row before the farthest one the move is a promotion
    /// to a queen, rook, bishop or knight of its side, and only there.
    pub open spec fn pawn_fits(self, m: Move) -> bool {
        let f = forward(self.turn);
        let dr = m.end.row - m.start.row;
        let dc = m.end.col - m.start.col;
        let steps = dr == f && dc == 0 && self.at(m.end) == Square::Empty;
        let captures = dr == f && (dc == 1 || dc == -1) && self.at(m.end).owned_by(
            self.turn.other(),
        );
        match m.special_move {
            None => {
                &&& m.start.row != promotion_row(self.turn)
                &&& steps || captures || {
                    &&& dr == 2 * f
                    &&& dc == 0
                    &&& m.start.row == pawn_row(self.turn)
                    &&& self.at(m.end) == Square::Empty
                    &&& self.square(m.start.row + f, m.start.col as int) == Square::Empty
                }
            },
            Some(SpecialMove::PawnPromotion(square)) => {
                &&& m.start.row == promotion_row(self.turn)
                &&& steps || captures
                &&& promotion_piece(square, self.turn)
            },
            Some(SpecialMove::EnPassant) => {
                &&& dr == f
                &&& dc == 1 || dc == -1
                &&& self.at(m.end) == Square::Empty
                &&& self.en_passant_square == Some(m.end)
                &&& m.end.row == en_passant_row(self.turn)
            },
            Some(SpecialMove::Castle) => false,
        }
    }

    /// What stands on the square `j` steps from the start of `m` towards
    /// its end, along the row, column or diagonal of the move.
    pub open spec fn path_square(self, m: Move, j: int) -> Square {
        self.square(
            m.start.row + walk(signum(m.end.row - m.start.row), j),
            m.start.col + walk(signum(m.end.col - m.start.col), j),
        )
    }

    /// Every square strictly between the start and the end of `m` is empty.
    pub open spec fn path_clear(self, m: Move) -> bool {
        forall|j: int| 0 < j < span(m) ==> #[trigger] self.path_square(m, j) == Square::Empty
    }

    /// `m` is a plain move of a piece of kind `kind` other than a pawn: a
    /// knight jumps, a king steps to a neighbouring square, and a bishop,
    /// a rook or a queen goes along a diagonal, a row or column, or either,
    /// over empty squares.
    pub open spec fn piece_fits(self, m: Move, kind: Piece) -> bool {
        &&& m.special_move is None
        &&& match kind {
            Piece::Pawn => false,
            Piece::Knight => knight_jump(m),
            Piece::King => king_step(m),
            Piece::Bishop => diagonal(m) && self.path_clear(m),
            Piece::Rook => straight(m) && self.path_clear(m),
            Piece::Queen => (diagonal(m) || straight(m)) && self.path_clear(m),
        }
    }

    /// `m` is a move by the rules, castling apart: it goes from a piece of
    /// the side to move to a square without one and obeys the rule of the
    /// piece that it moves. These are exactly the pseudo-legal moves.
    pub open spec fn fits(self, m: Move) -> bool {
        &&& self.takes_from_board(m)
        &&& match self.at(m.start).kind() {
            Some(Piece::Pawn) => self.pawn_fits(m),
            Some(kind) => self.piece_fits(m, kind),
            None => false,
        }
    }

    /// `m` is the castling move towards one side, and that side is open.
    pub open spec fn castle_fits(self, m: Move) -> bool {
        exists|king_side: bool|
            {
                &&& m == #[trigger] self.castle_move(king_side)
                &&& !self.in_check()
                &&& self.has_right(king_side)
                &&& self.castle_path_empty(king_side)
                &&& self.castle_path_safe(king_side)
            }
    }

    /// `m` is a move by the rules, castling included. These are exactly
    /// the candidate moves.
    pub open spec fn sound(self, m: Move) -> bool {
        self.fits(m) || self.castle_fits(m)
    }
}

/// `m` is a plain move from `start` onto a square of the board that holds
/// no piece of the side to move.
pub open spec fn plain_step(p: Position, start: BoardCoordinates, m: Move) -> bool {
    &&& m == p.move_to(start, m.end, None)
    &&& m.end.wf()
    &&& !p.at(m.end).owned_by(p.turn)
}

/// What stands `j` steps from `start` in the direction of `dr` rows and
/// `dc` columns.
pub open spec fn line_square(p: Position, start: BoardCoordinates, dr: int, dc: int, j: int)
    -> Square {
    p.square(start.row + walk(dr, j), start.col + walk(dc, j))
}

/// `dr` and `dc` are the steps of a king: at most one row and one column,
/// not both none.
pub open spec fn unit_step(dr: int, dc: int) -> bool {
    -1 <= dr <= 1 && -1 <= dc <= 1 && (dr != 0 || dc != 0)
}

/// `m` ends `k` steps from `start` in the direction of `dr` rows and `dc`
/// columns, and the squares before it on that line are empty.
pub open spec fn along_line(
    p: Position,
    start: BoardCoordinates,
    dr: int,
    dc: int,
    k: int,
    m: Move,
) -> bool {
    &&& m.end.row - start.row == walk(dr, k)
    &&& m.end.col - start.col == walk(dc, k)
    &&& forall|j: int| 0 < j < k ==> #[trigger] line_square(p, start, dr, dc, j) == Square::Empty
}

/// Every move along a line is a plain step onto a square of that line, no
/// farther than the reach allows, with nothing but empty squares before it.
pub proof fn lemma_ray_moves(
    p: Position,
    start: BoardCoordinates,
    dr: int,
    dc: int,
    from: int,
    reach: nat,
)
    requires
        p.wf(),
        start.wf(),
        unit_step(dr, dc),
        from >= 0,
        forall|j: int| 0 < j <= from ==> #[trigger] line_square(p, start, dr, dc, j) == Square::Empty,
    ensures
        forall|i: int|
            0 <= i < p.ray_moves(
                start,
                start.row + walk(dr, from),
                start.col + walk(dc, from),
                dr,
                dc,
                reach,
            ).len() ==> {
                let m = #[trigger] p.ray_moves(
                    start,
                    start.row + walk(dr, from),
                    start.col + walk(dc, from),
                    dr,
                    dc,
                    reach,
                )[i];
                &&& plain_step(p, start, m)
                &&& from < span(m) <= from + reach
                &&& along_line(p, start, dr, dc, span(m), m)
            },
    decreases reach,
{
    let row = start.row + walk(dr, from);
    let col = start.col + walk(dc, from);
    let ray = p.ray_moves(start, row, col, dr, dc, reach);
    if reach == 0 || !on_board(row + dr, col + dc) {
    } else {
        let end = square_at(row + dr, col + dc);
        assert(end.index() == (row + dr) * 8 + (col + dc));
        assert(row + dr == start.row + walk(dr, from + 1));
        assert(col + dc == start.col + walk(dc, from + 1));
        let step = p.move_to(start, end, None);
        assert(span(step) == from + 1);
        assert(along_line(p, start, dr, dc, from + 1, step));
        match p.at(end) {
            Square::Occupied(player, _) => {},
            Square::Empty => {
                assert(line_square(p, start, dr, dc, from + 1) == Square::Empty);
                let rest = p.ray_moves(start, row + dr, col + dc, dr, dc, (reach - 1) as nat);
                lemma_ray_moves(p, start, dr, dc, from + 1, (reach - 1) as nat);
                assert(ray == seq![step] + rest);
                assert forall|i: int| 0 <= i < ray.len() implies {
                    let m = #[trigger] ray[i];
                    &&& plain_step(p, start, m)
                    &&& from < span(m) <= from + reach
                    &&& along_line(p, start, dr, dc, span(m), m)
                } by {
                    if i > 0 {
                        assert(ray[i] == rest[i - 1]);
                    }
                }
            },
        }
    }
}

/// A walk of at most one step gives at most the move onto the next square.
pub proof fn lemma_single_step(p: Position, start: BoardCoordinates, dr: int, dc: int)
    requires
        p.wf(),
        start.wf(),
    ensures
        forall|i: int|
            0 <= i < p.ray_moves(start, start.row as int, start.col as int, dr, dc, 1).len() ==> {
                let m = #[trigger] p.ray_moves(
                    start,
                    start.row as int,
                    start.col as int,
                    dr,
                    dc,
                    1,
                )[i];
                &&& plain_step(p, start, m)
                &&& m.end.row - start.row == dr
                &&& m.end.col - start.col == dc
            },
{
    let row = start.row as int;
    let col = start.col as int;
    if on_board(row + dr, col + dc) {
        let end = square_at(row + dr, col + dc);
        assert(end.index() == (row + dr) * 8 + (col + dc));
        assert(p.ray_moves(start, row + dr, col + dc, dr, dc, 0).len() == 0);
    }
}

/// The tables of steps hold the eight jumps of a knight, the four
/// diagonal and the four straight directions, and the eight steps of a
/// king.
pub proof fn lemma_step_tables()
    ensures
        knight_steps().len() == 8,
        bishop_steps().len() == 4,
        rook_steps().len() == 4,
        king_steps().len() == 8,
        forall|i: int|
            0 <= i < 8 ==> {
                let (dr, dc) = #[trigger] knight_steps()[i];
                (dr * dr == 1 && dc * dc == 4) || (dr * dr == 4 && dc * dc == 1)
            },
        forall|i: int|
            0 <= i < 4 ==> {
                let (dr, dc) = #[trigger] bishop_steps()[i];
                unit_step(dr as int, dc as int) && dr != 0 && dc != 0
            },
        forall|i: int|
            0 <= i < 4 ==> {
                let (dr, dc) = #[trigger] rook_steps()[i];
                unit_step(dr as int, dc as int) && (dr == 0 || dc == 0)
            },
        forall|i: int|
            0 <= i < 8 ==> {
                let (dr, dc) = #[trigger] king_steps()[i];
                unit_step(dr as int, dc as int)
            },
{
    assert forall|i: int| 0 <= i < 8 implies {
        let (dr, dc) = #[trigger] knight_steps()[i];
        (dr * dr == 1 && dc * dc == 4) || (dr * dr == 4 && dc * dc == 1)
    } by {
        let (dr, dc) = knight_steps()[i];
        assert(dr == 1 || dr == -1 || dr == 2 || dr == -2);
        assert(dc == 1 || dc == -1 || dc == 2 || dc == -2);
        assert((dr == 1 || dr == -1) <==> (dc == 2 || dc == -2));
    }
}

/// Every move along the first `count` directions of a table of king's
/// steps, walked as far as the board allows, goes along one of them over
/// empty squares.
pub proof fn lemma_sliding_moves(
    p: Position,
    start: BoardCoordinates,
    steps: Seq<(isize, isize)>,
    count: nat,
)
    requires
        p.wf(),
        start.wf(),
        count <= steps.len(),
        forall|i: int| 0 <= i < steps.len() ==> unit_step(
            (#[trigger] steps[i]).0 as int,
            steps[i].1 as int,
        ),
    ensures
        forall|j: int|
            0 <= j < p.step_moves(start, steps, 7, count).len() ==> {
                let m = #[trigger] p.step_moves(start, steps, 7, count)[j];
                &&& plain_step(p, start, m)
                &&& exists|i: int|
                    0 <= i < count && #[trigger] along_line(
                        p,
                        start,
                        steps[i].0 as int,
                        steps[i].1 as int,
                        span(m),
                        m,
                    )
            },
    decreases count,
{
    if count > 0 {
        let earlier = p.step_moves(start, steps, 7, (count - 1) as nat);
        let dr = steps[count - 1].0 as int;
        let dc = steps[count - 1].1 as int;
        let ray = p.ray_moves(start, start.row as int, start.col as int, dr, dc, 7);
        lemma_sliding_moves(p, start, steps, (count - 1) as nat);
        lemma_ray_moves(p, start, dr, dc, 0, 7);
        let all = p.step_moves(start, steps, 7, count);
        assert(all == earlier + ray);
        assert forall|j: int| 0 <= j < all.len() implies {
            let m = #[trigger] all[j];
            &&& plain_step(p, start, m)
            &&& exists|i: int|
                0 <= i < count && #[trigger] along_line(
                    p,
                    start,
                    steps[i].0 as int,
                    steps[i].1 as int,
                    span(m),
                    m,
                )
        } by {
            let m = all[j];
            if j < earlier.len() {
                assert(m == earlier[j]);
                let i = choose|i: int|
                    0 <= i < count - 1 && #[trigger] along_line(
                        p,
                        start,
                        steps[i].0 as int,
                        steps[i].1 as int,
                        span(m),
                        m,
                    );
                assert(along_line(p, start, steps[i].0 as int, steps[i].1 as int, span(m), m));
            } else {
                assert(m == ray[j - earlier.len()]);
                assert(along_line(p, start, dr, dc, span(m), m));
            }
        }
    }
}

/// Every move along the first `count` directions of `steps`, one step
/// each, is the plain step by one of them.
pub proof fn lemma_jumping_moves(
    p: Position,
    start: BoardCoordinates,
    steps: Seq<(isize, isize)>,
    count: nat,
)
    requires
        p.wf(),
        start.wf(),
        count <= steps.len(),
    ensures
        forall|j: int|
            0 <= j < p.step_moves(start, steps, 1, count).len() ==> {
                let m = #[trigger] p.step_moves(start, steps, 1, count)[j];
                &&& plain_step(p, start, m)
                &&& exists|i: int|
                    0 <= i < count && m.end.row - start.row == (#[trigger] steps[i]).0
                        && m.end.col - start.col == steps[i].1
            },
    decreases count,
{
    if count > 0 {
        let earlier = p.step_moves(start, steps, 1, (count - 1) as nat);
        let dr = steps[count - 1].0 as int;
        let dc = steps[count - 1].1 as int;
        let ray = p.ray_moves(start, start.row as int, start.col as int, dr, dc, 1);
        lemma_jumping_moves(p, start, steps, (count - 1) as nat);
        lemma_single_step(p, start, dr, dc);
        let all = p.step_moves(start, steps, 1, count);
        assert(all == earlier + ray);
        assert forall|j: int| 0 <= j < all.len() implies {
            let m = #[trigger] all[j];
            &&& plain_step(p, start, m)
            &&& exists|i: int|
                0 <= i < count && m.end.row - start.row == (#[trigger] steps[i]).0 && m.end.col
                    - start.col == steps[i].1
        } by {
            let m = all[j];
            if j < earlier.len() {
                assert(m == earlier[j]);
                let i = choose|i: int|
                    0 <= i < count - 1 && m.end.row - start.row == (#[trigger] steps[i]).0
                        && m.end.col - start.col == steps[i].1;
                assert(m.end.row - start.row == steps[i].0);
            } else {
                assert(m == ray[j - earlier.len()]);
                assert(m.end.row - start.row == steps[count - 1].0);
            }
        }
    }
}

/// A move that goes `span(m)` steps along a line of king's steps over
/// empty squares has a clear path.
pub proof fn lemma_line_is_path(p: Position, m: Move, dr: int, dc: int)
    requires
        unit_step(dr, dc),
        span(m) >= 1,
        along_line(p, m.start, dr, dc, span(m), m),
    ensures
        signum(m.end.row - m.start.row) == dr,
        signum(m.end.col - m.start.col) == dc,
        p.path_clear(m),
        dr != 0 && dc != 0 ==> diagonal(m),
        dr == 0 || dc == 0 ==> straight(m),
{
    assert forall|j: int| 0 < j < span(m) implies #[trigger] p.path_square(m, j)
        == Square::Empty by {
        assert(line_square(p, m.start, dr, dc, j) == Square::Empty);
    }
}

/// Every move of a knight, bishop, rook, queen or king on `start` fits the
/// way that piece moves.
pub proof fn lemma_piece_moves_fit(p: Position, start: BoardCoordinates, kind: Piece)
    requires
        p.wf(),
        start.wf(),
        p.at(start) == Square::Occupied(p.turn, kind),
        kind != Piece::Pawn,
    ensures
        forall|j: int|
            0 <= j < p.piece_moves(start).len() ==> {
                let m = #[trigger] p.piece_moves(start)[j];
                m.start == start && p.fits(m)
            },
{
    lemma_step_tables();
    let moves = p.piece_moves(start);
    let diagonals = p.step_moves(start, bishop_steps(), 7, 4);
    lemma_jumping_moves(p, start, knight_steps(), 8);
    lemma_jumping_moves(p, start, king_steps(), 8);
    lemma_sliding_moves(p, start, bishop_steps(), 4);
    lemma_sliding_moves(p, start, rook_steps(), 4);
    assert forall|j: int| 0 <= j < moves.len() implies {
        let m = #[trigger] moves[j];
        m.start == start && p.fits(m)
    } by {
        let m = moves[j];
        if kind == Piece::Knight || kind == Piece::King {
            let steps = if kind == Piece::Knight {
                knight_steps()
            } else {
                king_steps()
            };
            assert(m == p.step_moves(start, steps, 1, 8)[j]);
            let i = choose|i: int|
                0 <= i < 8 && m.end.row - start.row == (#[trigger] steps[i]).0 && m.end.col
                    - start.col == steps[i].1;
            let (dr, dc) = steps[i];
            if kind == Piece::Knight {
                assert((dr * dr == 1 && dc * dc == 4) || (dr * dr == 4 && dc * dc == 1));
                assert(dr * dr == 1 ==> dr == 1 || dr == -1) by (nonlinear_arith);
                assert(dr * dr == 4 ==> dr == 2 || dr == -2) by (nonlinear_arith);
                assert(dc * dc == 1 ==> dc == 1 || dc == -1) by (nonlinear_arith);
                assert(dc * dc == 4 ==> dc == 2 || dc == -2) by (nonlinear_arith);
            } else {
                assert(unit_step(dr as int, dc as int));
            }
        } else {
            let steps = if kind == Piece::Bishop || (kind == Piece::Queen && j < diagonals.len()) {
                bishop_steps()
            } else {
                rook_steps()
            };
            let k = if kind == Piece::Queen && j >= diagonals.len() {
                j - diagonals.len()
            } else {
                j
            };
            assert(m == p.step_moves(start, steps, 7, 4)[k]);
            let i = choose|i: int|
                0 <= i < 4 && #[trigger] along_line(
                    p,
                    start,
                    steps[i].0 as int,
                    steps[i].1 as int,
                    span(m),
                    m,
                );
            assert(unit_step(steps[i].0 as int, steps[i].1 as int));
            assert(m.end != start) by {
                assert(p.at(start).owned_by(p.turn));
            }
            lemma_line_is_path(p, m, steps[i].0 as int, steps[i].1 as int);
        }
    }
}

/// Every move of a pawn of the side to move on `start` fits the way a pawn
/// moves.
pub proof fn lemma_pawn_moves_fit(p: Position, start: BoardCoordinates)
    requires
        p.wf(),
        start.wf(),
        p.at(start) == Square::Occupied(p.turn, Piece::Pawn),
    ensures
        forall|j: int|
            0 <= j < p.pawn_moves(start).len() ==> {
                let m = #[trigger] p.pawn_moves(start)[j];
                m.start == start && p.fits(m)
            },
{
    let f = forward(p.turn);
    let moves = p.pawn_moves(start);
    if on_board(start.row + f, start.col as int) {
        let push = p.pawn_push(start);
        let double = p.pawn_double_push(start);
        let first = p.pawn_capture(start, -1);
        let second = p.pawn_capture(start, 1);
        assert(moves == push + double + first + second);
        let choices = p.pawn_choices(start.row as int);
        assert forall|i: int| 0 <= i < choices.len() implies match #[trigger] choices[i] {
            None => start.row != promotion_row(p.turn),
            Some(SpecialMove::PawnPromotion(square)) => start.row == promotion_row(p.turn)
                && promotion_piece(square, p.turn),
            _ => false,
        } by {
            if start.row == promotion_row(p.turn) {
                assert(choices == promotions(p.turn));
                if i == 0 {
                } else if i == 1 {
                } else if i == 2 {
                } else {
                }
            }
        }
        let ahead = square_at(start.row + f, start.col as int);
        assert(ahead.index() == (start.row + f) * 8 + start.col);
        assert forall|j: int| 0 <= j < moves.len() implies {
            let m = #[trigger] moves[j];
            m.start == start && p.fits(m)
        } by {
            let m = moves[j];
            if j < push.len() {
                assert(m == push[j]);
                assert(m == p.move_to(start, ahead, choices[j]));
            } else if j < push.len() + double.len() {
                assert(m == double[j - push.len()]);
                let far = square_at(start.row + 2 * f, start.col as int);
                assert(far.index() == (start.row + 2 * f) * 8 + start.col);
                assert(m == p.move_to(start, far, None));
            } else if j < push.len() + double.len() + first.len() {
                let k = j - push.len() - double.len();
                assert(m == first[k]);
                lemma_pawn_capture_fits(p, start, -1, k);
            } else {
                let k = j - push.len() - double.len() - first.len();
                assert(m == second[k]);
                lemma_pawn_capture_fits(p, start, 1, k);
            }
        }
    }
}

/// Every capture of a pawn fits the way a pawn moves.
proof fn lemma_pawn_capture_fits(p: Position, start: BoardCoordinates, side: int, k: int)
    requires
        p.wf(),
        start.wf(),
        p.at(start) == Square::Occupied(p.turn, Piece::Pawn),
        side == 1 || side == -1,
        0 <= k < p.pawn_capture(start, side).len(),
    ensures
        p.pawn_capture(start, side)[k].start == start,
        p.fits(p.pawn_capture(start, side)[k]),
{
    let f = forward(p.turn);
    let end = square_at(start.row + f, start.col + side);
    assert(end.index() == (start.row + f) * 8 + start.col + side);
    let choices = p.pawn_choices(start.row as int);
    let m = p.pawn_capture(start, side)[k];
    match p.at(end) {
        Square::Occupied(player, _) => {
            assert(m == p.move_to(start, end, choices[k]));
            if start.row == promotion_row(p.turn) {
                assert(choices == promotions(p.turn));
                if k == 0 {
                } else if k == 1 {
                } else if k == 2 {
                } else {
                }
            }
        },
        Square::Empty => {},
    }
}

/// Every move of whatever stands on `start` starts there and fits the way
/// its piece moves.
pub proof fn lemma_piece_moves(p: Position, start: BoardCoordinates)
    requires
        p.wf(),
        start.wf(),
    ensures
        forall|j: int|
            0 <= j < p.piece_moves(start).len() ==> {
                let m = #[trigger] p.piece_moves(start)[j];
                m.start == start && p.fits(m)
            },
{
    match p.at(start) {
        Square::Empty => {},
        Square::Occupied(player, piece) => {
            if player == p.turn {
                if piece == Piece::Pawn {
                    lemma_pawn_moves_fit(p, start);
                } else {
                    lemma_piece_moves_fit(p, start, piece);
                }
            }
        },
    }
}

/// Every move of the pieces on the first `cols` squares of row `row` fits.
pub proof fn lemma_row_moves(p: Position, row: int, cols: nat)
    requires
        p.wf(),
        0 <= row <= 7,
        cols <= 8,
    ensures
        forall|j: int|
            0 <= j < p.row_moves(row, cols).len() ==> p.fits(#[trigger] p.row_moves(row, cols)[j]),
    decreases cols,
{
    if cols > 0 {
        lemma_row_moves(p, row, (cols - 1) as nat);
        lemma_piece_moves(p, square_at(row, cols - 1));
        let earlier = p.row_moves(row, (cols - 1) as nat);
        let here = p.piece_moves(square_at(row, cols - 1));
        let all = p.row_moves(row, cols);
        assert(all == earlier + here);
        assert forall|j: int| 0 <= j < all.len() implies p.fits(#[trigger] all[j]) by {
            if j < earlier.len() {
                assert(all[j] == earlier[j]);
            } else {
                assert(all[j] == here[j - earlier.len()]);
            }
        }
    }
}

/// Every move of the pieces on the first `rows` rows fits.
pub proof fn lemma_board_moves(p: Position, rows: nat)
    requires
        p.wf(),
        rows <= 8,
    ensures
        forall|j: int|
            0 <= j < p.board_moves(rows).len() ==> p.fits(#[trigger] p.board_moves(rows)[j]),
    decreases rows,
{
    if rows > 0 {
        lemma_board_moves(p, (rows - 1) as nat);
        lemma_row_moves(p, rows - 1, 8);
        let earlier = p.board_moves((rows - 1) as nat);
        let here = p.row_moves(rows - 1, 8);
        let all = p.board_moves(rows);
        assert(all == earlier + here);
        assert forall|j: int| 0 <= j < all.len() implies p.fits(#[trigger] all[j]) by {
            if j < earlier.len() {
                assert(all[j] == earlier[j]);
            } else {
                assert(all[j] == here[j - earlier.len()]);
            }
        }
    }
}

/// Every pseudo-legal move fits the way its piece moves; every castling
/// move is the castling move of an open side; so every candidate is sound.
pub proof fn lemma_candidates_sound(p: Position)
    requires
        p.wf(),
    ensures
        forall|j: int|
            0 <= j < p.pseudo_legal_moves().len() ==> p.fits(#[trigger] p.pseudo_legal_moves()[j]),
        forall|j: int|
            0 <= j < p.castling_moves().len() ==> p.castle_fits(#[trigger] p.castling_moves()[j]),
        forall|j: int|
            0 <= j < p.candidate_moves().len() ==> p.sound(#[trigger] p.candidate_moves()[j]),
{
    lemma_board_moves(p, 8);
    let pseudo = p.pseudo_legal_moves();
    let castles = p.castling_moves();
    assert forall|j: int| 0 <= j < castles.len() implies p.castle_fits(#[trigger] castles[j]) by {
        let first = p.castle_if_open(true);
        if j < first.len() {
            assert(castles[j] == p.castle_move(true));
        } else {
            assert(castles[j] == p.castle_move(false));
        }
    }
    let all = p.candidate_moves();
    assert forall|j: int| 0 <= j < all.len() implies p.sound(#[trigger] all[j]) by {
        if j < pseudo.len() {
            assert(all[j] == pseudo[j]);
        } else {
            assert(all[j] == castles[j - pseudo.len()]);
        }
    }
}

/// Every candidate move lies on the board, and a castling move among them
/// ends in column 2 or 6.
pub proof fn lemma_candidates_wf(p: Position)
    requires
        p.wf(),
    ensures
        forall|j: int|
            0 <= j < p.candidate_moves().len() ==> (#[trigger] p.candidate_moves()[j]).wf(),
{
    lemma_candidates_sound(p);
    assert forall|j: int| 0 <= j < p.candidate_moves().len() implies (
    #[trigger] p.candidate_moves()[j]).wf() by {
        let m = p.candidate_moves()[j];
        assert(p.sound(m));
        if p.fits(m) {
            match p.at(m.start).kind() {
                Some(Piece::Pawn) => {},
                Some(kind) => {},
                None => {},
            }
        } else {
            let king_side = choose|king_side: bool|
                {
                    &&& m == #[trigger] p.castle_move(king_side)
                    &&& !p.in_check()
                    &&& p.has_right(king_side)
                    &&& p.castle_path_empty(king_side)
                    &&& p.castle_path_safe(king_side)
                };
            assert(m == p.castle_move(king_side));
        }
    }
}

} // verus!
