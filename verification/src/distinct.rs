//! The proof that no list of moves holds a move twice.

use vstd::prelude::*;
use vstd::seq_lib::lemma_no_dup_in_concat;
use crate::coordinates::{on_board, square_at, BoardCoordinates};
use crate::generation::{
    bishop_steps, forward, king_steps, knight_steps, promotion_row, promotions, rook_steps,
};
use crate::moves::{Move, SpecialMove};
use crate::piece::Piece;
use crate::position::Position;
use crate::shape::{
    diagonal, lemma_candidates_sound, lemma_jumping_moves, lemma_line_is_path, lemma_piece_moves,
    lemma_ray_moves, lemma_single_step, lemma_sliding_moves, lemma_step_tables, line_square,
    along_line, span, straight, unit_step, walk,
};
use crate::square::Square;

verus! {

/// No two entries of `steps` are the same.
pub open spec fn distinct_steps(steps: Seq<(isize, isize)>) -> bool {
    forall|i: int, j: int| 0 <= i < j < steps.len() ==> (#[trigger] steps[i]) != (#[trigger] steps[j])
}

/// No table of steps holds a step twice.
pub proof fn lemma_step_tables_distinct()
    ensures
        distinct_steps(knight_steps()),
        distinct_steps(bishop_steps()),
        distinct_steps(rook_steps()),
        distinct_steps(king_steps()),
{
    let knights = knight_steps();
    assert(knights[0] == (1isize, 2isize) && knights[1] == (-1isize, 2isize) && knights[2] == (
        1isize,
        -2isize,
    ) && knights[3] == (-1isize, -2isize) && knights[4] == (2isize, 1isize) && knights[5] == (
        -2isize,
        1isize,
    ) && knights[6] == (2isize, -1isize) && knights[7] == (-2isize, -1isize));
    let bishops = bishop_steps();
    assert(bishops[0] == (1isize, 1isize) && bishops[1] == (-1isize, 1isize) && bishops[2] == (
        1isize,
        -1isize,
    ) && bishops[3] == (-1isize, -1isize));
    let rooks = rook_steps();
    assert(rooks[0] == (0isize, 1isize) && rooks[1] == (0isize, -1isize) && rooks[2] == (
        1isize,
        0isize,
    ) && rooks[3] == (-1isize, 0isize));
    let kings = king_steps();
    assert(kings[0] == (0isize, 1isize) && kings[1] == (0isize, -1isize) && kings[2] == (
        1isize,
        0isize,
    ) && kings[3] == (-1isize, 0isize) && kings[4] == (1isize, 1isize) && kings[5] == (
        1isize,
        -1isize,
    ) && kings[6] == (-1isize, 1isize) && kings[7] == (-1isize, -1isize));
}

/// A walk along a line gives no move twice: each move ends farther from
/// the start than the one before.
pub proof fn lemma_ray_distinct(
    p: Position,
    start: BoardCoordinates,
    dr: int,
    dc: int,
    from: int,
    reach: nat,
)
    requires
        p.wf(),
        start.wf(),
        unit_step(dr, dc),
        from >= 0,
        forall|j: int| 0 < j <= from ==> #[trigger] line_square(p, start, dr, dc, j) == Square::Empty,
    ensures
        p.ray_moves(
            start,
            start.row + walk(dr, from),
            start.col + walk(dc, from),
            dr,
            dc,
            reach,
        ).no_duplicates(),
    decreases reach,
{
    let row = start.row + walk(dr, from);
    let col = start.col + walk(dc, from);
    let ray = p.ray_moves(start, row, col, dr, dc, reach);
    if reach == 0 || !on_board(row + dr, col + dc) {
    } else {
        let end = square_at(row + dr, col + dc);
        assert(end.index() == (row + dr) * 8 + (col + dc));
        assert(row + dr == start.row + walk(dr, from + 1));
        assert(col + dc == start.col + walk(dc, from + 1));
        let step = p.move_to(start, end, None);
        assert(span(step) == from + 1);
        match p.at(end) {
            Square::Occupied(player, _) => {},
            Square::Empty => {
                assert(line_square(p, start, dr, dc, from + 1) == Square::Empty);
                let rest = p.ray_moves(start, row + dr, col + dc, dr, dc, (reach - 1) as nat);
                lemma_ray_moves(p, start, dr, dc, from + 1, (reach - 1) as nat);
                lemma_ray_distinct(p, start, dr, dc, from + 1, (reach - 1) as nat);
                assert(ray == seq![step] + rest);
                assert forall|i: int, j: int|
                    0 <= i < seq![step].len() && 0 <= j < rest.len() implies seq![step][i]
                    != rest[j] by {
                    assert(span(rest[j]) > from + 1);
                }
                lemma_no_dup_in_concat(seq![step], rest);
            },
        }
    }
}

/// The moves of a sliding piece along directions that differ from each
/// other hold no move twice.
pub proof fn lemma_sliding_distinct(
    p: Position,
    start: BoardCoordinates,
    steps: Seq<(isize, isize)>,
    count: nat,
)
    requires
        p.wf(),
        start.wf(),
        p.at(start).owned_by(p.turn),
        count <= steps.len(),
        distinct_steps(steps),
        forall|i: int| 0 <= i < steps.len() ==> unit_step(
            (#[trigger] steps[i]).0 as int,
            steps[i].1 as int,
        ),
    ensures
        p.step_moves(start, steps, 7, count).no_duplicates(),
    decreases count,
{
    if count > 0 {
        let earlier = p.step_moves(start, steps, 7, (count - 1) as nat);
        let dr = steps[count - 1].0 as int;
        let dc = steps[count - 1].1 as int;
        let ray = p.ray_moves(start, start.row as int, start.col as int, dr, dc, 7);
        lemma_sliding_distinct(p, start, steps, (count - 1) as nat);
        lemma_sliding_moves(p, start, steps, (count - 1) as nat);
        assert(start.row + walk(dr, 0) == start.row && start.col + walk(dc, 0) == start.col);
        lemma_ray_moves(p, start, dr, dc, 0, 7);
        lemma_ray_distinct(p, start, dr, dc, 0, 7);
        assert forall|a: int, b: int| 0 <= a < earlier.len() && 0 <= b < ray.len() implies earlier[a]
            != ray[b] by {
            let m = earlier[a];
            let n = ray[b];
            let i = choose|i: int|
                0 <= i < count - 1 && #[trigger] along_line(
                    p,
                    start,
                    steps[i].0 as int,
                    steps[i].1 as int,
                    span(m),
                    m,
                );
            assert(unit_step(steps[i].0 as int, steps[i].1 as int));
            assert(steps[i] != steps[count - 1]);
            lemma_line_is_path(p, m, steps[i].0 as int, steps[i].1 as int);
            lemma_line_is_path(p, n, dr, dc);
        }
        lemma_no_dup_in_concat(earlier, ray);
    }
}

/// The moves of a knight or a king along steps that differ from each other
/// hold no move twice.
pub proof fn lemma_jumping_distinct(
    p: Position,
    start: BoardCoordinates,
    steps: Seq<(isize, isize)>,
    count: nat,
)
    requires
        p.wf(),
        start.wf(),
        count <= steps.len(),
        distinct_steps(steps),
    ensures
        p.step_moves(start, steps, 1, count).no_duplicates(),
    decreases count,
{
    if count > 0 {
        let earlier = p.step_moves(start, steps, 1, (count - 1) as nat);
        let dr = steps[count - 1].0 as int;
        let dc = steps[count - 1].1 as int;
        let row = start.row as int;
        let col = start.col as int;
        let ray = p.ray_moves(start, row, col, dr, dc, 1);
        lemma_jumping_distinct(p, start, steps, (count - 1) as nat);
        lemma_jumping_moves(p, start, steps, (count - 1) as nat);
        lemma_single_step(p, start, dr, dc);
        assert(ray.len() <= 1) by {
            if on_board(row + dr, col + dc) {
                assert(p.ray_moves(start, row + dr, col + dc, dr, dc, 0).len() == 0);
            }
        }
        assert forall|a: int, b: int| 0 <= a < earlier.len() && 0 <= b < ray.len() implies earlier[a]
            != ray[b] by {
            let m = earlier[a];
            let i = choose|i: int|
                0 <= i < count - 1 && m.end.row - start.row == (#[trigger] steps[i]).0 && m.end.col
                    - start.col == steps[i].1;
            assert(steps[i] != steps[count - 1]);
        }
        lemma_no_dup_in_concat(earlier, ray);
    }
}

/// The moves of a pawn hold no move twice.
pub proof fn lemma_pawn_moves_distinct(p: Position, start: BoardCoordinates)
    requires
        p.wf(),
        start.wf(),
    ensures
        p.pawn_moves(start).no_duplicates(),
{
    let f = forward(p.turn);
    if on_board(start.row + f, start.col as int) {
        let push = p.pawn_push(start);
        let double = p.pawn_double_push(start);
        let first = p.pawn_capture(start, -1);
        let second = p.pawn_capture(start, 1);
        let choices = p.pawn_choices(start.row as int);
        if start.row == promotion_row(p.turn) {
            assert(choices == promotions(p.turn));
        }
        assert forall|i: int, j: int| 0 <= i < j < choices.len() implies choices[i]
            != choices[j] by {}
        assert forall|i: int| 0 <= i < push.len() implies (#[trigger] push[i]).end.row == start.row
            + f && push[i].end.col == start.col && push[i].special_move == choices[i] by {}
        assert forall|i: int| 0 <= i < double.len() implies (#[trigger] double[i]).end.row
            == start.row + 2 * f && double[i].end.col == start.col && double.len() == 1 by {}
        assert forall|i: int| 0 <= i < first.len() implies (#[trigger] first[i]).end.col
            == start.col - 1 && (first.len() == 1 || first[i].special_move == choices[i]) by {}
        assert forall|i: int| 0 <= i < second.len() implies (#[trigger] second[i]).end.col
            == start.col + 1 && (second.len() == 1 || second[i].special_move == choices[i]) by {}
        assert(push.no_duplicates());
        assert(double.no_duplicates());
        assert(first.no_duplicates());
        assert(second.no_duplicates());
        lemma_no_dup_in_concat(push, double);
        assert forall|i: int, j: int|
            0 <= i < (push + double).len() && 0 <= j < first.len() implies (push + double)[i]
            != first[j] by {
            assert(first[j].end.col == start.col - 1);
            if i < push.len() {
                assert((push + double)[i] == push[i]);
            } else {
                assert((push + double)[i] == double[i - push.len()]);
            }
        }
        lemma_no_dup_in_concat(push + double, first);
        assert forall|i: int, j: int|
            0 <= i < (push + double + first).len() && 0 <= j < second.len() implies (push + double
            + first)[i] != second[j] by {
            assert(second[j].end.col == start.col + 1);
            if i < push.len() {
                assert((push + double + first)[i] == push[i]);
            } else if i < push.len() + double.len() {
                assert((push + double + first)[i] == double[i - push.len()]);
            } else {
                assert((push + double + first)[i] == first[i - push.len() - double.len()]);
            }
        }
        lemma_no_dup_in_concat(push + double + first, second);
    }
}

/// The moves of whatever stands on a square hold no move twice.
pub proof fn lemma_piece_moves_distinct(p: Position, start: BoardCoordinates)
    requires
        p.wf(),
        start.wf(),
    ensures
        p.piece_moves(start).no_duplicates(),
{
    lemma_step_tables();
    lemma_step_tables_distinct();
    match p.at(start) {
        Square::Empty => {},
        Square::Occupied(player, piece) => {
            if player == p.turn {
                match piece {
                    Piece::Pawn => {
                        lemma_pawn_moves_distinct(p, start);
                    },
                    Piece::Knight => {
                        lemma_jumping_distinct(p, start, knight_steps(), 8);
                    },
                    Piece::King => {
                        lemma_jumping_distinct(p, start, king_steps(), 8);
                    },
                    Piece::Bishop => {
                        lemma_sliding_distinct(p, start, bishop_steps(), 4);
                    },
                    Piece::Rook => {
                        lemma_sliding_distinct(p, start, rook_steps(), 4);
                    },
                    Piece::Queen => {
                        let diagonals = p.step_moves(start, bishop_steps(), 7, 4);
                        let straights = p.step_moves(start, rook_steps(), 7, 4);
                        lemma_sliding_distinct(p, start, bishop_steps(), 4);
                        lemma_sliding_distinct(p, start, rook_steps(), 4);
                        lemma_sliding_moves(p, start, bishop_steps(), 4);
                        lemma_sliding_moves(p, start, rook_steps(), 4);
                        assert forall|a: int, b: int|
                            0 <= a < diagonals.len() && 0 <= b < straights.len() implies diagonals[a]
                            != straights[b] by {
                            let m = diagonals[a];
                            let n = straights[b];
                            let i = choose|i: int|
                                0 <= i < 4 && #[trigger] along_line(
                                    p,
                                    start,
                                    bishop_steps()[i].0 as int,
                                    bishop_steps()[i].1 as int,
                                    span(m),
                                    m,
                                );
                            let j = choose|j: int|
                                0 <= j < 4 && #[trigger] along_line(
                                    p,
                                    start,
                                    rook_steps()[j].0 as int,
                                    rook_steps()[j].1 as int,
                                    span(n),
                                    n,
                                );
                            assert(unit_step(
                                bishop_steps()[i].0 as int,
                                bishop_steps()[i].1 as int,
                            ));
                            assert(unit_step(rook_steps()[j].0 as int, rook_steps()[j].1 as int));
                            lemma_line_is_path(
                                p,
                                m,
                                bishop_steps()[i].0 as int,
                                bishop_steps()[i].1 as int,
                            );
                            lemma_line_is_path(
                                p,
                                n,
                                rook_steps()[j].0 as int,
                                rook_steps()[j].1 as int,
                            );
                            assert(diagonal(m) && straight(n));
                        }
                        lemma_no_dup_in_concat(diagonals, straights);
                    },
                }
            }
        },
    }
}

/// The moves of the first `cols` squares of a row start on these squares
/// and hold no move twice.
pub proof fn lemma_row_moves_distinct(p: Position, row: int, cols: nat)
    requires
        p.wf(),
        0 <= row <= 7,
        cols <= 8,
    ensures
        p.row_moves(row, cols).no_duplicates(),
        forall|i: int|
            0 <= i < p.row_moves(row, cols).len() ==> (#[trigger] p.row_moves(row, cols)[i]).start.row
                == row && p.row_moves(row, cols)[i].start.col < cols,
    decreases cols,
{
    if cols > 0 {
        let earlier = p.row_moves(row, (cols - 1) as nat);
        let here = p.piece_moves(square_at(row, cols - 1));
        lemma_row_moves_distinct(p, row, (cols - 1) as nat);
        lemma_piece_moves(p, square_at(row, cols - 1));
        lemma_piece_moves_distinct(p, square_at(row, cols - 1));
        let all = p.row_moves(row, cols);
        assert(all == earlier + here);
        assert forall|i: int| 0 <= i < all.len() implies (#[trigger] all[i]).start.row == row
            && all[i].start.col < cols by {
            if i < earlier.len() {
                assert(all[i] == earlier[i]);
            } else {
                assert(all[i] == here[i - earlier.len()]);
            }
        }
        assert forall|i: int, j: int| 0 <= i < earlier.len() && 0 <= j < here.len() implies earlier[i]
            != here[j] by {
            assert(earlier[i].start.col < cols - 1);
            assert(here[j].start.col == cols - 1);
        }
        lemma_no_dup_in_concat(earlier, here);
    }
}

/// The moves of the first `rows` rows start on these rows and hold no move
/// twice.
pub proof fn lemma_board_moves_distinct(p: Position, rows: nat)
    requires
        p.wf(),
        rows <= 8,
    ensures
        p.board_moves(rows).no_duplicates(),
        forall|i: int|
            0 <= i < p.board_moves(rows).len() ==> (#[trigger] p.board_moves(rows)[i]).start.row
                < rows,
    decreases rows,
{
    if rows > 0 {
        let earlier = p.board_moves((rows - 1) as nat);
        let here = p.row_moves(rows - 1, 8);
        lemma_board_moves_distinct(p, (rows - 1) as nat);
        lemma_row_moves_distinct(p, rows - 1, 8);
        let all = p.board_moves(rows);
        assert(all == earlier + here);
        assert forall|i: int| 0 <= i < all.len() implies (#[trigger] all[i]).start.row < rows by {
            if i < earlier.len() {
                assert(all[i] == earlier[i]);
            } else {
                assert(all[i] == here[i - earlier.len()]);
            }
        }
        assert forall|i: int, j: int| 0 <= i < earlier.len() && 0 <= j < here.len() implies earlier[i]
            != here[j] by {
            assert(earlier[i].start.row < rows - 1);
            assert(here[j].start.row == rows - 1);
        }
        lemma_no_dup_in_concat(earlier, here);
    }
}

/// Leaving entries out of a list without repetitions leaves a list without
/// repetitions.
pub proof fn lemma_filter_keeps_distinct(moves: Seq<Move>, keep: spec_fn(Move) -> bool)
    requires
        moves.no_duplicates(),
    ensures
        moves.filter(keep).no_duplicates(),
    decreases moves.len(),
{
    reveal(Seq::filter);
    if moves.len() > 0 {
        let rest = moves.drop_last();
        assert forall|i: int, j: int|
            0 <= i < rest.len() && 0 <= j < rest.len() && i != j implies rest[i] != rest[j] by {
            assert(rest[i] == moves[i] && rest[j] == moves[j]);
        }
        lemma_filter_keeps_distinct(rest, keep);
        if keep(moves.last()) {
            let kept = rest.filter(keep);
            assert forall|i: int| 0 <= i < kept.len() implies kept[i] != moves.last() by {
                if kept[i] == moves.last() {
                    assert(kept.contains(moves.last()));
                    rest.lemma_filter_contains_rev(keep, moves.last());
                    let k = choose|k: int| 0 <= k < rest.len() && rest[k] == moves.last();
                    assert(moves[k] == moves[moves.len() - 1]);
                }
            }
            assert(moves.filter(keep) == kept.push(moves.last()));
        }
    }
}

/// No list of moves holds a move twice: not the pseudo-legal moves, not
/// the castling moves, not the candidates and not the legal moves.
pub proof fn lemma_moves_are_distinct(p: Position)
    requires
        p.wf(),
    ensures
        p.pseudo_legal_moves().no_duplicates(),
        p.castling_moves().no_duplicates(),
        p.candidate_moves().no_duplicates(),
        p.legal_moves().no_duplicates(),
{
    let pseudo = p.pseudo_legal_moves();
    let castles = p.castling_moves();
    lemma_board_moves_distinct(p, 8);
    lemma_candidates_sound(p);
    assert(p.castle_move(true) != p.castle_move(false));
    assert forall|i: int, j: int|
        0 <= i < castles.len() && 0 <= j < castles.len() && i != j implies castles[i]
        != castles[j] by {
        let first = p.castle_if_open(true);
        assert(first.len() <= 1);
    }
    assert forall|i: int, j: int| 0 <= i < pseudo.len() && 0 <= j < castles.len() implies pseudo[i]
        != castles[j] by {
        let m = pseudo[i];
        assert(p.fits(m));
        assert(p.castle_fits(castles[j]));
        assert(castles[j].special_move == Some(SpecialMove::Castle));
        match p.at(m.start).kind() {
            Some(Piece::Pawn) => {},
            Some(kind) => {},
            None => {},
        }
    }
    lemma_no_dup_in_concat(pseudo, castles);
    lemma_filter_keeps_distinct(p.candidate_moves(), |m: Move| !p.exposes_king(m));
}

} // verus!
