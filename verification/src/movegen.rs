//! The generators of pseudo-legal moves.

use vstd::prelude::*;
use crate::coordinates::BoardCoordinates;
use crate::generation::{bishop_steps, king_steps, knight_steps, rook_steps};
use crate::moves::{Move, SpecialMove};
use crate::piece::Piece;
use crate::player::Player;
use crate::square::Square;
use crate::state::State;

verus! {

/// Appending four lists one after the other appends them all at once.
proof fn lemma_append_four(
    before: Seq<Move>,
    a: Seq<Move>,
    b: Seq<Move>,
    c: Seq<Move>,
    d: Seq<Move>,
)
    ensures
        before + a + b + c + d == before + (a + b + c + d),
{
    assert(before + a + b + c + d =~= before + (a + b + c + d));
}

impl State {
    /// Appends the moves of the piece on `coordinates` along each of
    /// `directions` in turn: up to `distance` steps in a direction, every
    /// empty square a move, a piece of the other side a capture that ends
    /// the walk, a piece of the side to move or the edge of the board ending
    /// it without a move.
    pub fn generate_sliding_piece_moves(
        &self,
        coordinates: BoardCoordinates,
        distance: usize,
        directions: &[(isize, isize)],
        moves: &mut Vec<Move>,
    )
        requires
            self.wf(),
            coordinates.wf(),
        ensures
            final(moves)@ == old(moves)@ + self@.step_moves(
                coordinates,
                directions@,
                distance as nat,
                directions@.len(),
            ),
    {
        let ghost before = moves@;
        let mut index: usize = 0;
        while index < directions.len()
            invariant
                index <= directions@.len(),
                self.wf(),
                coordinates.wf(),
                moves@ == before + self@.step_moves(
                    coordinates,
                    directions@,
                    distance as nat,
                    index as nat,
                ),
            decreases directions@.len() - index,
        {
            let direction = directions[index];
            let ghost base = moves@;
            let ghost along = self@.ray_moves(
                coordinates,
                coordinates.row as int,
                coordinates.col as int,
                direction.0 as int,
                direction.1 as int,
                distance as nat,
            );
            let mut row: i128 = coordinates.row() as i128;
            let mut col: i128 = coordinates.col() as i128;
            let mut left: usize = distance;
            proof {
                assert(base + along =~= moves@ + along);
            }
            while left > 0
                invariant
                    0 <= row <= 7,
                    0 <= col <= 7,
                    self.wf(),
                    coordinates.wf(),
                    base + along == moves@ + self@.ray_moves(
                        coordinates,
                        row as int,
                        col as int,
                        direction.0 as int,
                        direction.1 as int,
                        left as nat,
                    ),
                decreases left,
            {
                let ghost rest = self@.ray_moves(
                    coordinates,
                    row as int,
                    col as int,
                    direction.0 as int,
                    direction.1 as int,
                    left as nat,
                );
                let ghost earlier = moves@;
                let end_row: i128 = row + direction.0 as i128;
                let end_col: i128 = col + direction.1 as i128;
                if 0 <= end_row && end_row <= 7 && 0 <= end_col && end_col <= 7 {
                    let end = BoardCoordinates::new(end_row as usize, end_col as usize);
                    let end_piece = self.get_square(end);
                    let potential_move = Move::new(coordinates, end, None, self);
                    match end_piece {
                        Square::Occupied(player, _) => {
                            if player != self.turn {
                                moves.push(potential_move);
                            }
                            left = 0;
                            proof {
                                assert(moves@ + Seq::<Move>::empty() =~= earlier + rest);
                            }
                        },
                        Square::Empty => {
                            moves.push(potential_move);
                            row = end_row;
                            col = end_col;
                            left = left - 1;
                            proof {
                                let further = self@.ray_moves(
                                    coordinates,
                                    row as int,
                                    col as int,
                                    direction.0 as int,
                                    direction.1 as int,
                                    left as nat,
                                );
                                assert(rest == seq![potential_move] + further);
                                assert(moves@ + further =~= earlier + rest);
                            }
                        },
                    }
                } else {
                    left = 0;
                    proof {
                        assert(moves@ + Seq::<Move>::empty() =~= earlier + rest);
                    }
                }
            }
            index = index + 1;
            proof {
                assert(moves@ =~= base + along);
                assert(moves@ =~= before + self@.step_moves(
                    coordinates,
                    directions@,
                    distance as nat,
                    index as nat,
                ));
            }
        }
    }

    /// Appends the eight jumps of the knight on `coordinates`, as far as
    /// they stay on the board and do not land on a piece of its own side.
    pub fn generate_knight_moves(&self, coordinates: BoardCoordinates, moves: &mut Vec<Move>)
        requires
            self.wf(),
            coordinates.wf(),
        ensures
            final(moves)@ == old(moves)@ + self@.knight_moves(coordinates),
    {
        let directions: [(isize, isize); 8] = [
            (1, 2),
            (-1, 2),
            (1, -2),
            (-1, -2),
            (2, 1),
            (-2, 1),
            (2, -1),
            (-2, -1),
        ];
        assert(directions@ =~= knight_steps());
        self.generate_sliding_piece_moves(coordinates, 1, &directions, moves);
    }

    /// Appends the moves of the bishop on `coordinates` along the four
    /// diagonals.
    pub fn generate_bishop_moves(&self, coordinates: BoardCoordinates, moves: &mut Vec<Move>)
        requires
            self.wf(),
            coordinates.wf(),
        ensures
            final(moves)@ == old(moves)@ + self@.bishop_moves(coordinates),
    {
        let directions: [(isize, isize); 4] = [(1, 1), (-1, 1), (1, -1), (-1, -1)];
        assert(directions@ =~= bishop_steps());
        self.generate_sliding_piece_moves(coordinates, 7, &directions, moves);
    }

    /// Appends the moves of the rook on `coordinates` along its row and its
    /// column.
    pub fn generate_rook_moves(&self, coordinates: BoardCoordinates, moves: &mut Vec<Move>)
        requires
            self.wf(),
            coordinates.wf(),
        ensures
            final(moves)@ == old(moves)@ + self@.rook_moves(coordinates),
    {
        let directions: [(isize, isize); 4] = [(0, 1), (0, -1), (1, 0), (-1, 0)];
        assert(directions@ =~= rook_steps());
        self.generate_sliding_piece_moves(coordinates, 7, &directions, moves);
    }

    /// Appends the moves of the queen on `coordinates`: those of a bishop,
    /// then those of a rook.
    pub fn generate_queen_moves(&self, coordinates: BoardCoordinates, moves: &mut Vec<Move>)
        requires
            self.wf(),
            coordinates.wf(),
        ensures
            final(moves)@ == old(moves)@ + self@.queen_moves(coordinates),
    {
        let ghost before = moves@;
        self.generate_bishop_moves(coordinates, moves);
        self.generate_rook_moves(coordinates, moves);
        assert(moves@ =~= before + self@.queen_moves(coordinates));
    }

    /// Appends the steps of the king on `coordinates` to its neighbouring
    /// squares. Castling is generated apart.
    pub fn generate_king_moves(&self, coordinates: BoardCoordinates, moves: &mut Vec<Move>)
        requires
            self.wf(),
            coordinates.wf(),
        ensures
            final(moves)@ == old(moves)@ + self@.king_moves(coordinates),
    {
        let directions: [(isize, isize); 8] = [
            (0, 1),
            (0, -1),
            (1, 0),
            (-1, 0),
            (1, 1),
            (1, -1),
            (-1, 1),
            (-1, -1),
        ];
        assert(directions@ =~= king_steps());
        self.generate_sliding_piece_moves(coordinates, 1, &directions, moves);
    }

    /// Appends the move of a pawn from `start` to `end`: one move for each
    /// promotion where the pawn reaches the farthest row, a single plain
    /// move otherwise.
    fn generate_pawn_arrivals(
        &self,
        start: BoardCoordinates,
        end: BoardCoordinates,
        moves: &mut Vec<Move>,
    )
        requires
            self.wf(),
            start.wf(),
            end.wf(),
        ensures
            final(moves)@ == old(moves)@ + self@.fan_out(
                start,
                end,
                self@.pawn_choices(start.row as int),
            ),
    {
        let ghost before = moves@;
        let player = self.turn;
        let promotes = match player {
            Player::White => start.row() == 1,
            Player::Black => start.row() == 6,
        };
        if promotes {
            moves.push(
                Move::new(
                    start,
                    end,
                    Some(SpecialMove::PawnPromotion(Square::Occupied(player, Piece::Queen))),
                    self,
                ),
            );
            moves.push(
                Move::new(
                    start,
                    end,
                    Some(SpecialMove::PawnPromotion(Square::Occupied(player, Piece::Rook))),
                    self,
                ),
            );
            moves.push(
                Move::new(
                    start,
                    end,
                    Some(SpecialMove::PawnPromotion(Square::Occupied(player, Piece::Bishop))),
                    self,
                ),
            );
            moves.push(
                Move::new(
                    start,
                    end,
                    Some(SpecialMove::PawnPromotion(Square::Occupied(player, Piece::Knight))),
                    self,
                ),
            );
        } else {
            moves.push(Move::new(start, end, None, self));
        }
        assert(moves@ =~= before + self@.fan_out(start, end, self@.pawn_choices(start.row as int)));
    }

    /// Appends the capture of the pawn on `start` onto `end`, the square
    /// diagonally in front of it: onto a piece of the other side, or en
    /// passant onto the empty en-passant square.
    fn generate_pawn_capture(
        &self,
        start: BoardCoordinates,
        end: BoardCoordinates,
        moves: &mut Vec<Move>,
    )
        requires
            self.wf(),
            start.wf(),
            end.wf(),
            end.row == start.row + crate::generation::forward(self.turn),
            end.col == start.col + 1 || end.col + 1 == start.col,
        ensures
            final(moves)@ == old(moves)@ + self@.pawn_capture(start, end.col - start.col),
    {
        let ghost before = moves@;
        match self.get_square(end) {
            Square::Occupied(player, _) => {
                if player != self.turn {
                    self.generate_pawn_arrivals(start, end, moves);
                }
            },
            Square::Empty => {
                let en_passant_row: usize = match self.turn {
                    Player::White => 2,
                    Player::Black => 5,
                };
                let onto_target = match self.en_passant_square {
                    Some(target) => target == end,
                    None => false,
                };
                if onto_target && end.row() == en_passant_row {
                    moves.push(Move::new(start, end, Some(SpecialMove::EnPassant), self));
                }
            },
        }
        assert(moves@ =~= before + self@.pawn_capture(start, end.col - start.col));
    }

    /// Appends the step of the pawn on `coordinates` onto the square in
    /// front of it, if that square is empty.
    fn generate_pawn_push(
        &self,
        coordinates: BoardCoordinates,
        ahead: BoardCoordinates,
        moves: &mut Vec<Move>,
    )
        requires
            self.wf(),
            coordinates.wf(),
            ahead.wf(),
            ahead.row == coordinates.row + crate::generation::forward(self.turn),
            ahead.col == coordinates.col,
        ensures
            final(moves)@ == old(moves)@ + self@.pawn_push(coordinates),
    {
        if self.get_square(ahead) == Square::Empty {
            self.generate_pawn_arrivals(coordinates, ahead, moves);
        } else {
            assert(moves@ =~= old(moves)@ + self@.pawn_push(coordinates));
        }
    }

    /// Appends the two-row step of the pawn on `coordinates`, if the pawn
    /// stands on its starting row and both squares in front of it are
    /// empty.
    fn generate_pawn_double_push(
        &self,
        coordinates: BoardCoordinates,
        ahead: BoardCoordinates,
        moves: &mut Vec<Move>,
    )
        requires
            self.wf(),
            coordinates.wf(),
            ahead.wf(),
            ahead.row == coordinates.row + crate::generation::forward(self.turn),
            ahead.col == coordinates.col,
        ensures
            final(moves)@ == old(moves)@ + self@.pawn_double_push(coordinates),
    {
        let first_row: usize = match self.turn {
            Player::White => 6,
            Player::Black => 1,
        };
        if coordinates.row() == first_row {
            let far_row: usize = match self.turn {
                Player::White => 4,
                Player::Black => 3,
            };
            let far = BoardCoordinates::new(far_row, coordinates.col());
            if self.get_square(far) == Square::Empty && self.get_square(ahead) == Square::Empty {
                moves.push(Move::new(coordinates, far, None, self));
            }
        }
        assert(moves@ =~= old(moves)@ + self@.pawn_double_push(coordinates));
    }

    /// Appends the capture of the pawn on `coordinates` towards the column
    /// `side` away, -1 or 1, if there is such a column.
    fn generate_pawn_capture_towards(
        &self,
        coordinates: BoardCoordinates,
        ahead: BoardCoordinates,
        side: i8,
        moves: &mut Vec<Move>,
    )
        requires
            self.wf(),
            coordinates.wf(),
            ahead.wf(),
            ahead.row == coordinates.row + crate::generation::forward(self.turn),
            ahead.col == coordinates.col,
            side == 1 || side == -1,
        ensures
            final(moves)@ == old(moves)@ + self@.pawn_capture(coordinates, side as int),
    {
        let col: usize = coordinates.col();
        if side < 0 && col > 0 {
            let end = BoardCoordinates::new(ahead.row(), col - 1);
            self.generate_pawn_capture(coordinates, end, moves);
        } else if side > 0 && col < 7 {
            let end = BoardCoordinates::new(ahead.row(), col + 1);
            self.generate_pawn_capture(coordinates, end, moves);
        } else {
            assert(moves@ =~= old(moves)@ + self@.pawn_capture(coordinates, side as int));
        }
    }

    /// Appends the moves of the pawn of the side to move on `coordinates`:
    /// the step forward onto an empty square, the two-row step from its
    /// starting row over and onto empty squares, and the two diagonal
    /// captures, en passant included. A pawn that reaches the farthest row
    /// gives one move for each of the four promotions.
    pub fn generate_pawn_moves(&self, coordinates: BoardCoordinates, moves: &mut Vec<Move>)
        requires
            self.wf(),
            coordinates.wf(),
        ensures
            final(moves)@ == old(moves)@ + self@.pawn_moves(coordinates),
    {
        let row: usize = coordinates.row();
        let on_last_row = match self.turn {
            Player::White => row == 0,
            Player::Black => row == 7,
        };
        if on_last_row {
            assert(moves@ =~= old(moves)@ + self@.pawn_moves(coordinates));
            return ;
        }
        let next_row: usize = match self.turn {
            Player::White => row - 1,
            Player::Black => row + 1,
        };
        let ahead = BoardCoordinates::new(next_row, coordinates.col());
        self.generate_pawn_push(coordinates, ahead, moves);
        self.generate_pawn_double_push(coordinates, ahead, moves);
        self.generate_pawn_capture_towards(coordinates, ahead, -1, moves);
        self.generate_pawn_capture_towards(coordinates, ahead, 1, moves);
        proof {
            lemma_append_four(
                old(moves)@,
                self@.pawn_push(coordinates),
                self@.pawn_double_push(coordinates),
                self@.pawn_capture(coordinates, -1),
                self@.pawn_capture(coordinates, 1),
            );
        }
    }

    /// Appends the moves of whatever stands on `coordinates`, if it belongs
    /// to the side to move.
    pub fn generate_piece_moves(&self, coordinates: BoardCoordinates, moves: &mut Vec<Move>)
        requires
            self.wf(),
            coordinates.wf(),
        ensures
            final(moves)@ == old(moves)@ + self@.piece_moves(coordinates),
    {
        let ghost before = moves@;
        if let Square::Occupied(player, piece) = self.get_square(coordinates) {
            if player == self.turn {
                match piece {
                    Piece::Pawn => self.generate_pawn_moves(coordinates, moves),
                    Piece::Knight => self.generate_knight_moves(coordinates, moves),
                    Piece::Bishop => self.generate_bishop_moves(coordinates, moves),
                    Piece::Rook => self.generate_rook_moves(coordinates, moves),
                    Piece::Queen => self.generate_queen_moves(coordinates, moves),
                    Piece::King => self.generate_king_moves(coordinates, moves),
                }
            }
        }
        assert(moves@ =~= before + self@.piece_moves(coordinates));
    }

    /// The pseudo-legal moves of the side to move, square by square from
    /// row 0, column 0: every move that its piece can make as the board
    /// stands, whether or not it leaves the mover's king in check, castling
    /// left out. A move is on the list exactly when it fits the rule of the
    /// piece that it moves, and no move is on it twice.
    pub fn generate_all_moves(&self) -> (all_moves: Vec<Move>)
        requires
            self.wf(),
        ensures
            all_moves@ == self@.pseudo_legal_moves(),
            all_moves@.no_duplicates(),
            forall|m: Move| #[trigger] all_moves@.contains(m) <==> self@.fits(m),
    {
        let mut all_moves: Vec<Move> = Vec::new();
        let mut row: usize = 0;
        while row < 8
            invariant
                row <= 8,
                self.wf(),
                all_moves@ == self@.board_moves(row as nat),
            decreases 8 - row,
        {
            let ghost above = all_moves@;
            let mut col: usize = 0;
            proof {
                assert(all_moves@ =~= above + self@.row_moves(row as int, 0));
            }
            while col < 8
                invariant
                    row < 8,
                    col <= 8,
                    self.wf(),
                    all_moves@ == above + self@.row_moves(row as int, col as nat),
                decreases 8 - col,
            {
                let ghost earlier = all_moves@;
                let coordinates = BoardCoordinates::new(row, col);
                self.generate_piece_moves(coordinates, &mut all_moves);
                col = col + 1;
                proof {
                    assert(coordinates == crate::coordinates::square_at(row as int, col - 1));
                    assert(all_moves@ =~= above + self@.row_moves(row as int, col as nat));
                }
            }
            row = row + 1;
        }
        proof {
            crate::distinct::lemma_moves_are_distinct(self@);
            assert forall|m: Move| #[trigger] all_moves@.contains(m) <==> self@.fits(m) by {
                crate::completeness::lemma_pseudo_legal_moves_are_those_that_fit(self@, m);
            }
        }
        all_moves
    }
}

} // verus!
