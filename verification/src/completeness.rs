//! The proof that every move that obeys the rule of its piece is generated.

use vstd::prelude::*;
use crate::coordinates::{on_board, square_at, BoardCoordinates};
use crate::generation::{
    bishop_steps, forward, king_steps, knight_steps, promotion_row, promotions, rook_steps,
};
use crate::moves::{Move, SpecialMove};
use crate::piece::Piece;
use crate::position::Position;
use crate::shape::{
    diagonal, lemma_board_moves, line_square, signum,
    span, straight, unit_step, walk,
};
use crate::square::Square;

verus! {

/// A list put together from two holds what either of them holds.
pub proof fn lemma_concat_contains(a: Seq<Move>, b: Seq<Move>, m: Move)
    ensures
        (a + b).contains(m) <==> a.contains(m) || b.contains(m),
{
    if a.contains(m) {
        let i = choose|i: int| 0 <= i < a.len() && a[i] == m;
        assert((a + b)[i] == m);
    }
    if b.contains(m) {
        let i = choose|i: int| 0 <= i < b.len() && b[i] == m;
        assert((a + b)[a.len() + i] == m);
    }
    if (a + b).contains(m) {
        let i = choose|i: int| 0 <= i < (a + b).len() && (a + b)[i] == m;
        if i < a.len() {
            assert(a[i] == m);
        } else {
            assert(b[i - a.len()] == m);
        }
    }
}

/// The walk along a line reaches every square that it can: the move onto
/// the square `k` steps from the start is among the moves of the walk that
/// has come `from` steps, where `k` is within reach, the squares on the way
/// are empty, and the square itself is on the board and holds no piece of
/// the side to move.
pub proof fn lemma_ray_contains(
    p: Position,
    start: BoardCoordinates,
    dr: int,
    dc: int,
    from: int,
    reach: nat,
    k: int,
)
    requires
        p.wf(),
        start.wf(),
        unit_step(dr, dc),
        0 <= from < k <= from + reach,
        on_board(start.row + walk(dr, k), start.col + walk(dc, k)),
        forall|j: int| from < j < k ==> #[trigger] line_square(p, start, dr, dc, j) == Square::Empty,
        !p.square(start.row + walk(dr, k), start.col + walk(dc, k)).owned_by(p.turn),
    ensures
        p.ray_moves(
            start,
            start.row + walk(dr, from),
            start.col + walk(dc, from),
            dr,
            dc,
            reach,
        ).contains(
            p.move_to(start, square_at(start.row + walk(dr, k), start.col + walk(dc, k)), None),
        ),
    decreases k - from,
{
    let row = start.row + walk(dr, from);
    let col = start.col + walk(dc, from);
    let ray = p.ray_moves(start, row, col, dr, dc, reach);
    let target = p.move_to(
        start,
        square_at(start.row + walk(dr, k), start.col + walk(dc, k)),
        None,
    );
    assert(row + dr == start.row + walk(dr, from + 1));
    assert(col + dc == start.col + walk(dc, from + 1));
    assert(on_board(row + dr, col + dc));
    let end = square_at(row + dr, col + dc);
    assert(end.index() == (row + dr) * 8 + (col + dc));
    let step = p.move_to(start, end, None);
    if k == from + 1 {
        assert(ray[0] == step);
    } else {
        assert(line_square(p, start, dr, dc, from + 1) == Square::Empty);
        let rest = p.ray_moves(start, row + dr, col + dc, dr, dc, (reach - 1) as nat);
        lemma_ray_contains(p, start, dr, dc, from + 1, (reach - 1) as nat, k);
        assert(ray == seq![step] + rest);
        lemma_concat_contains(seq![step], rest, target);
    }
}

/// The moves along the first `count` directions hold the moves along each
/// of these directions.
pub proof fn lemma_step_moves_contain(
    p: Position,
    start: BoardCoordinates,
    steps: Seq<(isize, isize)>,
    reach: nat,
    count: nat,
    i: int,
    m: Move,
)
    requires
        0 <= i < count <= steps.len(),
        p.ray_moves(
            start,
            start.row as int,
            start.col as int,
            steps[i].0 as int,
            steps[i].1 as int,
            reach,
        ).contains(m),
    ensures
        p.step_moves(start, steps, reach, count).contains(m),
    decreases count,
{
    let earlier = p.step_moves(start, steps, reach, (count - 1) as nat);
    let ray = p.ray_moves(
        start,
        start.row as int,
        start.col as int,
        steps[count - 1].0 as int,
        steps[count - 1].1 as int,
        reach,
    );
    if i < count - 1 {
        lemma_step_moves_contain(p, start, steps, reach, (count - 1) as nat, i, m);
    }
    lemma_concat_contains(earlier, ray, m);
}

/// Every jump of a knight, every diagonal and every straight direction and
/// every step of a king is in its table.
pub proof fn lemma_step_tables_complete(dr: int, dc: int)
    ensures
        (dr * dr == 1 && dc * dc == 4) || (dr * dr == 4 && dc * dc == 1) ==> exists|i: int|
            0 <= i < 8 && (#[trigger] knight_steps()[i]).0 == dr && knight_steps()[i].1 == dc,
        unit_step(dr, dc) && dr != 0 && dc != 0 ==> exists|i: int|
            0 <= i < 4 && (#[trigger] bishop_steps()[i]).0 == dr && bishop_steps()[i].1 == dc,
        unit_step(dr, dc) && (dr == 0 || dc == 0) ==> exists|i: int|
            0 <= i < 4 && (#[trigger] rook_steps()[i]).0 == dr && rook_steps()[i].1 == dc,
        unit_step(dr, dc) ==> exists|i: int|
            0 <= i < 8 && (#[trigger] king_steps()[i]).0 == dr && king_steps()[i].1 == dc,
{
    assert(dr * dr == 1 ==> dr == 1 || dr == -1) by (nonlinear_arith);
    assert(dr * dr == 4 ==> dr == 2 || dr == -2) by (nonlinear_arith);
    assert(dc * dc == 1 ==> dc == 1 || dc == -1) by (nonlinear_arith);
    assert(dc * dc == 4 ==> dc == 2 || dc == -2) by (nonlinear_arith);
    let knights = knight_steps();
    assert(knights[0] == (1isize, 2isize) && knights[1] == (-1isize, 2isize) && knights[2] == (
        1isize,
        -2isize,
    ) && knights[3] == (-1isize, -2isize) && knights[4] == (2isize, 1isize) && knights[5] == (
        -2isize,
        1isize,
    ) && knights[6] == (2isize, -1isize) && knights[7] == (-2isize, -1isize));
    let bishops = bishop_steps();
    assert(bishops[0] == (1isize, 1isize) && bishops[1] == (-1isize, 1isize) && bishops[2] == (
        1isize,
        -1isize,
    ) && bishops[3] == (-1isize, -1isize));
    let rooks = rook_steps();
    assert(rooks[0] == (0isize, 1isize) && rooks[1] == (0isize, -1isize) && rooks[2] == (
        1isize,
        0isize,
    ) && rooks[3] == (-1isize, 0isize));
    let kings = king_steps();
    assert(kings[0] == (0isize, 1isize) && kings[1] == (0isize, -1isize) && kings[2] == (
        1isize,
        0isize,
    ) && kings[3] == (-1isize, 0isize) && kings[4] == (1isize, 1isize) && kings[5] == (
        1isize,
        -1isize,
    ) && kings[6] == (-1isize, 1isize) && kings[7] == (-1isize, -1isize));
}

/// A move that fits the way a knight or a king moves is among the moves
/// along the table of its steps.
pub proof fn lemma_jump_is_generated(p: Position, m: Move, steps: Seq<(isize, isize)>, i: int)
    requires
        p.wf(),
        p.takes_from_board(m),
        m.special_move is None,
        0 <= i < steps.len(),
        m.end.row - m.start.row == steps[i].0,
        m.end.col - m.start.col == steps[i].1,
    ensures
        p.step_moves(m.start, steps, 1, steps.len()).contains(m),
{
    let start = m.start;
    let dr = steps[i].0 as int;
    let dc = steps[i].1 as int;
    let row = start.row as int;
    let col = start.col as int;
    let ray = p.ray_moves(start, row, col, dr, dc, 1);
    let end = square_at(row + dr, col + dc);
    assert(end == m.end);
    assert(end.index() == (row + dr) * 8 + (col + dc));
    assert(m == p.move_to(start, end, None));
    assert(p.ray_moves(start, row + dr, col + dc, dr, dc, 0).len() == 0);
    assert(ray[0] == m);
    lemma_step_moves_contain(p, start, steps, 1, steps.len(), i, m);
}

/// A move that goes along a line of king's steps over empty squares is
/// among the moves along a table that holds the direction of the line.
pub proof fn lemma_slide_is_generated(p: Position, m: Move, steps: Seq<(isize, isize)>, i: int)
    requires
        p.wf(),
        p.takes_from_board(m),
        m.special_move is None,
        diagonal(m) || straight(m),
        p.path_clear(m),
        0 <= i < steps.len(),
        signum(m.end.row - m.start.row) == steps[i].0,
        signum(m.end.col - m.start.col) == steps[i].1,
    ensures
        p.step_moves(m.start, steps, 7, steps.len()).contains(m),
{
    let start = m.start;
    let dr = steps[i].0 as int;
    let dc = steps[i].1 as int;
    let k = span(m);
    assert(m.end.row - start.row == walk(dr, k));
    assert(m.end.col - start.col == walk(dc, k));
    assert forall|j: int| 0 < j < k implies #[trigger] line_square(p, start, dr, dc, j)
        == Square::Empty by {
        assert(p.path_square(m, j) == Square::Empty);
    }
    let end = square_at(start.row + walk(dr, k), start.col + walk(dc, k));
    assert(end == m.end);
    assert(end.index() == (start.row + walk(dr, k)) * 8 + (start.col + walk(dc, k)));
    assert(m == p.move_to(start, end, None));
    assert(start.row + walk(dr, 0) == start.row && start.col + walk(dc, 0) == start.col);
    lemma_ray_contains(p, start, dr, dc, 0, 7, k);
    lemma_step_moves_contain(p, start, steps, 7, steps.len(), i, m);
}

/// A move that fits the way a knight, bishop, rook, queen or king moves is
/// among the moves of that piece.
pub proof fn lemma_piece_fits_is_generated(p: Position, m: Move, kind: Piece)
    requires
        p.wf(),
        p.takes_from_board(m),
        p.at(m.start) == Square::Occupied(p.turn, kind),
        kind != Piece::Pawn,
        p.piece_fits(m, kind),
    ensures
        p.piece_moves(m.start).contains(m),
{
    let dr = m.end.row - m.start.row;
    let dc = m.end.col - m.start.col;
    crate::shape::lemma_step_tables();
    if kind == Piece::Knight {
        lemma_step_tables_complete(dr, dc);
        let i = choose|i: int|
            0 <= i < 8 && (#[trigger] knight_steps()[i]).0 == dr && knight_steps()[i].1 == dc;
        lemma_jump_is_generated(p, m, knight_steps(), i);
    } else if kind == Piece::King {
        lemma_step_tables_complete(dr, dc);
        let i = choose|i: int|
            0 <= i < 8 && (#[trigger] king_steps()[i]).0 == dr && king_steps()[i].1 == dc;
        lemma_jump_is_generated(p, m, king_steps(), i);
    } else {
        let sr = signum(dr);
        let sc = signum(dc);
        lemma_step_tables_complete(sr, sc);
        let diagonals = p.step_moves(m.start, bishop_steps(), 7, 4);
        let straights = p.step_moves(m.start, rook_steps(), 7, 4);
        if diagonal(m) {
            let i = choose|i: int|
                0 <= i < 4 && (#[trigger] bishop_steps()[i]).0 == sr && bishop_steps()[i].1 == sc;
            lemma_slide_is_generated(p, m, bishop_steps(), i);
        } else {
            let i = choose|i: int|
                0 <= i < 4 && (#[trigger] rook_steps()[i]).0 == sr && rook_steps()[i].1 == sc;
            lemma_slide_is_generated(p, m, rook_steps(), i);
        }
        lemma_concat_contains(diagonals, straights, m);
    }
}

/// A move that fits the way a pawn moves is among the moves of that pawn.
pub proof fn lemma_pawn_fits_is_generated(p: Position, m: Move)
    requires
        p.wf(),
        p.takes_from_board(m),
        p.at(m.start) == Square::Occupied(p.turn, Piece::Pawn),
        p.pawn_fits(m),
    ensures
        p.pawn_moves(m.start).contains(m),
{
    let start = m.start;
    let f = forward(p.turn);
    let dr = m.end.row - m.start.row;
    let dc = m.end.col - m.start.col;
    let push = p.pawn_push(start);
    let double = p.pawn_double_push(start);
    let first = p.pawn_capture(start, -1);
    let second = p.pawn_capture(start, 1);
    assert(on_board(start.row + f, start.col as int));
    assert(p.pawn_moves(start) == push + double + first + second);
    let choices = p.pawn_choices(start.row as int);
    let ahead = square_at(start.row + f, start.col as int);
    assert(ahead.index() == (start.row + f) * 8 + start.col);
    let choice: int = match m.special_move {
        Some(SpecialMove::PawnPromotion(square)) => if square == Square::Occupied(
            p.turn,
            Piece::Queen,
        ) {
            0
        } else if square == Square::Occupied(p.turn, Piece::Rook) {
            1
        } else if square == Square::Occupied(p.turn, Piece::Bishop) {
            2
        } else {
            3
        },
        _ => 0,
    };
    if start.row == promotion_row(p.turn) {
        assert(choices == promotions(p.turn));
    }
    if dc == 0 && dr == f {
        assert(m.end == ahead);
        assert(choices[choice] == m.special_move);
        assert(push[choice] == m);
    } else if dc == 0 {
        let far = square_at(start.row + 2 * f, start.col as int);
        assert(far.index() == (start.row + 2 * f) * 8 + start.col);
        assert(m.end == far);
        assert(double[0] == m);
    } else {
        let end = square_at(start.row + f, start.col + dc);
        assert(end.index() == (start.row + f) * 8 + start.col + dc);
        assert(m.end == end);
        let capture = p.pawn_capture(start, dc);
        match p.at(end) {
            Square::Occupied(player, _) => {
                assert(choices[choice] == m.special_move);
                assert(capture[choice] == m);
            },
            Square::Empty => {
                assert(capture[0] == m);
            },
        }
    }
    lemma_concat_contains(push, double, m);
    lemma_concat_contains(push + double, first, m);
    lemma_concat_contains(push + double + first, second, m);
}

/// The moves of the squares of a row hold the moves of each of its squares.
pub proof fn lemma_row_moves_contain(p: Position, row: int, cols: nat, col: int, m: Move)
    requires
        0 <= col < cols,
        p.piece_moves(square_at(row, col)).contains(m),
    ensures
        p.row_moves(row, cols).contains(m),
    decreases cols,
{
    let earlier = p.row_moves(row, (cols - 1) as nat);
    let here = p.piece_moves(square_at(row, cols - 1));
    if col < cols - 1 {
        lemma_row_moves_contain(p, row, (cols - 1) as nat, col, m);
    }
    lemma_concat_contains(earlier, here, m);
}

/// The moves of the rows of the board hold the moves of each of its rows.
pub proof fn lemma_board_moves_contain(p: Position, rows: nat, row: int, m: Move)
    requires
        0 <= row < rows,
        p.row_moves(row, 8).contains(m),
    ensures
        p.board_moves(rows).contains(m),
    decreases rows,
{
    let earlier = p.board_moves((rows - 1) as nat);
    let here = p.row_moves(rows - 1, 8);
    if row < rows - 1 {
        lemma_board_moves_contain(p, (rows - 1) as nat, row, m);
    }
    lemma_concat_contains(earlier, here, m);
}

/// The pseudo-legal moves are the moves that fit: a move is on the list
/// exactly when it goes from a piece of the side to move to a square
/// without one, records the pieces on both squares, and obeys the rule of
/// the piece that it moves.
pub proof fn lemma_pseudo_legal_moves_are_those_that_fit(p: Position, m: Move)
    requires
        p.wf(),
    ensures
        p.pseudo_legal_moves().contains(m) <==> p.fits(m),
{
    let pseudo = p.pseudo_legal_moves();
    if pseudo.contains(m) {
        lemma_board_moves(p, 8);
        let i = choose|i: int| 0 <= i < pseudo.len() && pseudo[i] == m;
        assert(p.fits(pseudo[i]));
    }
    if p.fits(m) {
        assert(p.board[m.start.index()] == p.at(m.start));
        match p.at(m.start) {
            Square::Empty => {},
            Square::Occupied(player, kind) => {
                if kind == Piece::Pawn {
                    lemma_pawn_fits_is_generated(p, m);
                } else {
                    lemma_piece_fits_is_generated(p, m, kind);
                }
            },
        }
        assert(m.start == square_at(m.start.row as int, m.start.col as int));
        lemma_row_moves_contain(p, m.start.row as int, 8, m.start.col as int, m);
        lemma_board_moves_contain(p, 8, m.start.row as int, m);
    }
}

} // verus!
