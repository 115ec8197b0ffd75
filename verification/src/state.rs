//! A position as a value: squares, side to move, rights, and how moves change them.

use vstd::prelude::*;
use crate::board::Board;
use crate::castling_rights::CastlingRights;
use crate::coordinates::BoardCoordinates;
use crate::moves::{Move, SpecialMove};
use crate::piece::Piece;
use crate::player::Player;
use crate::position::{initial_position, Position};
use crate::square::Square;

verus! {

/// A position on the board: everything that decides which moves can be made
/// next. It is a plain value that can be copied, moved on and probed without
/// touching the game it came from.
#[derive(Copy, Clone, Debug)]
pub struct State {
    pub board: Board,
    pub turn: Player,
    pub castling_rights: CastlingRights,
    pub en_passant_square: Option<BoardCoordinates>,
    pub white_king_location: BoardCoordinates,
    pub black_king_location: BoardCoordinates,
}

impl Default for State {
    fn default() -> (r: Self)
        ensures
            r@ == initial_position(),
            r.wf(),
    {
        Self::new()
    }
}

impl State {
    /// The position that this state stands for.
    pub open spec fn view(&self) -> Position {
        Position {
            board: self.board@,
            turn: self.turn,
            castling_rights: self.castling_rights,
            en_passant_square: self.en_passant_square,
            white_king_location: self.white_king_location,
            black_king_location: self.black_king_location,
        }
    }

    /// Every recorded square lies on the board.
    pub open spec fn wf(&self) -> bool {
        self@.wf()
    }

    /// The position at the start of a game: White to move, all castling
    /// rights, no en-passant square.
    pub fn new() -> (r: Self)
        ensures
            r@ == initial_position(),
            r.wf(),
    {
        Self {
            board: Board::initial_position(),
            turn: Player::White,
            castling_rights: CastlingRights::default(),
            en_passant_square: None,
            white_king_location: BoardCoordinates::new(7, 4),
            black_king_location: BoardCoordinates::new(0, 4),
        }
    }

    /// What the square `coordinates` holds.
    pub fn get_square(&self, coordinates: BoardCoordinates) -> (r: Square)
        requires
            coordinates.wf(),
        ensures
            r == self@.at(coordinates),
    {
        self.board.get_square(coordinates.row(), coordinates.col())
    }

    /// Writes `square` to `coordinates`; nothing else changes.
    pub fn set_square(&mut self, coordinates: BoardCoordinates, square: Square)
        requires
            coordinates.wf(),
        ensures
            final(self)@ == (Position {
                board: old(self)@.board.update(coordinates.index(), square),
                ..old(self)@
            }),
    {
        self.board.set_square(coordinates.row(), coordinates.col(), square);
    }

    /// Hands the move to the other side.
    pub fn change_turn(&mut self)
        ensures
            final(self)@ == old(self)@.flipped(),
    {
        self.turn = self.turn.opponent();
    }

    /// Where the king of `player` is recorded to stand.
    pub fn get_king_location(&self, player: Player) -> (r: BoardCoordinates)
        ensures
            r == self@.king_location(player),
    {
        match player {
            Player::White => self.white_king_location,
            Player::Black => self.black_king_location,
        }
    }

    /// Moves the pieces of `to_move` on the board: the start square is
    /// cleared and the piece is put on the end square; a promotion puts the
    /// chosen piece there instead, an en-passant capture also clears the
    /// square of the captured pawn, and castling also moves the rook.
    pub fn move_pieces(&mut self, to_move: Move)
        requires
            to_move.wf(),
        ensures
            final(self)@ == (Position {
                board: crate::position::board_after(old(self)@.board, to_move),
                ..old(self)@
            }),
    {
        self.set_square(to_move.start, Square::Empty);
        self.set_square(to_move.end, to_move.piece_moved);
        match to_move.special_move {
            Some(SpecialMove::PawnPromotion(square)) => {
                self.set_square(to_move.end, square);
                assert(self.board@ =~= crate::position::board_after(old(self).board@, to_move));
            },
            Some(SpecialMove::EnPassant) => {
                let captured_pawn = BoardCoordinates::new(to_move.start.row(), to_move.end.col());
                self.set_square(captured_pawn, Square::Empty);
                assert(self.board@ =~= crate::position::board_after(old(self).board@, to_move));
            },
            Some(SpecialMove::Castle) => {
                let (rook_start, rook_end) = if to_move.start.col() < to_move.end.col() {
                    (
                        BoardCoordinates::new(to_move.end.row(), to_move.end.col() + 1),
                        BoardCoordinates::new(to_move.end.row(), to_move.end.col() - 1),
                    )
                } else {
                    (
                        BoardCoordinates::new(to_move.end.row(), to_move.end.col() - 2),
                        BoardCoordinates::new(to_move.end.row(), to_move.end.col() + 1),
                    )
                };
                let rook = self.get_square(rook_start);
                self.set_square(rook_end, rook);
                self.set_square(rook_start, Square::Empty);
                assert(self.board@ =~= crate::position::board_after(old(self).board@, to_move));
            },
            None => {
                assert(self.board@ =~= crate::position::board_after(old(self).board@, to_move));
            },
        }
    }

    /// Makes the move `to_move`: its pieces are moved, the en-passant square,
    /// the castling rights and the kings' squares are brought up to date,
    /// and the move is handed to the other side.
    pub fn make_move(&mut self, to_move: Move)
        requires
            old(self).wf(),
            to_move.wf(),
        ensures
            final(self)@ == old(self)@.after(to_move),
            final(self).wf(),
    {
        self.move_pieces(to_move);
        self.en_passant_square = None;
        if let Square::Occupied(_, piece) = to_move.piece_moved {
            if piece == Piece::Pawn {
                let start_row: usize = to_move.start.row();
                let end_row: usize = to_move.end.row();
                if start_row == end_row + 2 || end_row == start_row + 2 {
                    self.en_passant_square = Some(
                        BoardCoordinates::new((start_row + end_row) / 2, to_move.start.col()),
                    );
                }
            }
        }
        self.update_castle_rights(to_move);
        self.change_turn();
    }

    /// Takes away the castling rights that `to_move` gives up and records
    /// where a king that moved now stands.
    pub fn update_castle_rights(&mut self, to_move: Move)
        requires
            to_move.start.wf(),
            to_move.end.wf(),
        ensures
            final(self)@ == (Position {
                castling_rights: crate::position::rights_after(
                    old(self)@.castling_rights,
                    to_move,
                ),
                white_king_location: old(self)@.moved(to_move).white_king_location,
                black_king_location: old(self)@.moved(to_move).black_king_location,
                ..old(self)@
            }),
    {
        let mut new_castling_rights = self.castling_rights;
        if to_move.piece_moved == Square::Occupied(Player::White, Piece::King) {
            self.white_king_location = to_move.end;
            new_castling_rights.ban_white_king_side();
            new_castling_rights.ban_white_queen_side();
        } else if to_move.piece_moved == Square::Occupied(Player::Black, Piece::King) {
            self.black_king_location = to_move.end;
            new_castling_rights.ban_black_king_side();
            new_castling_rights.ban_black_queen_side();
        }
        if let Square::Occupied(_, piece_moved) = to_move.piece_moved {
            if piece_moved == Piece::Rook {
                new_castling_rights = Self::ban_corner(new_castling_rights, to_move.start);
            }
        }
        if let Square::Occupied(_, piece_captured) = to_move.piece_captured {
            if piece_captured == Piece::Rook {
                new_castling_rights = Self::ban_corner(new_castling_rights, to_move.end);
            }
        }
        self.castling_rights = new_castling_rights;
    }

    fn ban_corner(rights: CastlingRights, corner: BoardCoordinates) -> (r: CastlingRights)
        ensures
            r == crate::position::without_corner(rights, corner),
    {
        let mut rights = rights;
        let row: usize = corner.row();
        let col: usize = corner.col();
        if row == 0 && col == 0 {
            rights.ban_black_queen_side();
        } else if row == 0 && col == 7 {
            rights.ban_black_king_side();
        } else if row == 7 && col == 0 {
            rights.ban_white_queen_side();
        } else if row == 7 && col == 7 {
            rights.ban_white_king_side();
        }
        rights
    }

    /// Puts the pieces of `last_move` back on the board: the piece moved
    /// returns to the start square and what it captured to the end square;
    /// an en-passant capture gives `victim` its pawn back, and castling
    /// moves the rook back.
    pub fn restore_pieces(&mut self, last_move: Move, victim: Player)
        requires
            last_move.wf(),
        ensures
            final(self)@ == (Position {
                board: crate::position::board_before(old(self)@.board, last_move, victim),
                ..old(self)@
            }),
    {
        self.set_square(last_move.start, last_move.piece_moved);
        self.set_square(last_move.end, last_move.piece_captured);
        match last_move.special_move {
            Some(SpecialMove::PawnPromotion(_)) => {
                assert(self.board@ =~= crate::position::board_before(
                    old(self).board@,
                    last_move,
                    victim,
                ));
            },
            Some(SpecialMove::EnPassant) => {
                let captured_pawn = BoardCoordinates::new(
                    last_move.start.row(),
                    last_move.end.col(),
                );
                self.set_square(captured_pawn, Square::Occupied(victim, Piece::Pawn));
                assert(self.board@ =~= crate::position::board_before(
                    old(self).board@,
                    last_move,
                    victim,
                ));
            },
            Some(SpecialMove::Castle) => {
                let (rook_start, rook_end) = if last_move.start.col() < last_move.end.col() {
                    (
                        BoardCoordinates::new(last_move.end.row(), last_move.end.col() - 1),
                        BoardCoordinates::new(last_move.end.row(), last_move.end.col() + 1),
                    )
                } else {
                    (
                        BoardCoordinates::new(last_move.end.row(), last_move.end.col() + 1),
                        BoardCoordinates::new(last_move.end.row(), last_move.end.col() - 2),
                    )
                };
                let rook = self.get_square(rook_start);
                self.set_square(rook_end, rook);
                self.set_square(rook_start, Square::Empty);
                assert(self.board@ =~= crate::position::board_before(
                    old(self).board@,
                    last_move,
                    victim,
                ));
            },
            None => {
                assert(self.board@ =~= crate::position::board_before(
                    old(self).board@,
                    last_move,
                    victim,
                ));
            },
        }
    }

    /// Takes the move `last_move` back: the move is handed back to the side
    /// that made it and the pieces are put back. `rights` are the castling
    /// rights to restore and `previous` is the move that was made before
    /// `last_move`, from which the en-passant square is worked out anew.
    pub fn unmake_move(
        &mut self,
        last_move: Move,
        rights: CastlingRights,
        previous: Option<Move>,
    )
        requires
            old(self).wf(),
            last_move.wf(),
            match previous {
                Some(m) => m.wf(),
                None => true,
            },
        ensures
            final(self)@ == old(self)@.before(last_move, rights, previous),
            final(self).wf(),
    {
        let victim = self.turn;
        self.change_turn();
        self.restore_pieces(last_move, victim);
        self.en_passant_square = None;
        if let Some(possible_pawn_move) = previous {
            if let Square::Occupied(_, piece) = possible_pawn_move.piece_moved {
                if piece == Piece::Pawn {
                    let start_row: usize = possible_pawn_move.start.row();
                    let end_row: usize = possible_pawn_move.end.row();
                    if start_row == end_row + 2 || end_row == start_row + 2 {
                        self.en_passant_square = Some(
                            BoardCoordinates::new(
                                (start_row + end_row) / 2,
                                possible_pawn_move.start.col(),
                            ),
                        );
                    }
                }
            }
        }
        if last_move.piece_moved == Square::Occupied(Player::White, Piece::King) {
            self.white_king_location = last_move.start;
        } else if last_move.piece_moved == Square::Occupied(Player::Black, Piece::King) {
            self.black_king_location = last_move.start;
        }
        self.castling_rights = rights;
    }
}

} // verus!
