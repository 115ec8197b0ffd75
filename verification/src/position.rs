//! The mathematical model of a position and of what a move does to it.

use vstd::prelude::*;
use crate::board::initial_board;
use crate::castling_rights::CastlingRights;
use crate::coordinates::{square_at, BoardCoordinates};
use crate::moves::{Move, SpecialMove};
use crate::piece::Piece;
use crate::player::Player;
use crate::square::Square;

verus! {

/// The mathematical model of a position: the sixty-four squares row by row,
/// the side to move, the castling rights, the square a pawn may capture onto
/// en passant, and where the two kings are recorded to stand.
pub struct Position {
    pub board: Seq<Square>,
    pub turn: Player,
    pub castling_rights: CastlingRights,
    pub en_passant_square: Option<BoardCoordinates>,
    pub white_king_location: BoardCoordinates,
    pub black_king_location: BoardCoordinates,
}

/// The position at the start of a game.
pub open spec fn initial_position() -> Position {
    Position {
        board: initial_board(),
        turn: Player::White,
        castling_rights: CastlingRights::all(),
        en_passant_square: None,
        white_king_location: square_at(7, 4),
        black_king_location: square_at(0, 4),
    }
}

/// The row on which the pieces of `player` start.
pub open spec fn home_row(player: Player) -> int {
    match player {
        Player::White => 7,
        Player::Black => 0,
    }
}

/// The square a pawn passes over on a two-row step, which is where it can be
/// captured en passant right after `m`; `None` if `m` is no such step.
pub open spec fn en_passant_target(m: Move) -> Option<BoardCoordinates> {
    if m.piece_moved.is_pawn() && (m.start.row - m.end.row == 2 || m.end.row - m.start.row == 2) {
        Some(square_at((m.start.row + m.end.row) / 2, m.start.col as int))
    } else {
        None
    }
}

/// The en-passant square that stands after `last`, the latest move of a
/// game, or after no move at all.
pub open spec fn en_passant_after(last: Option<Move>) -> Option<BoardCoordinates> {
    match last {
        Some(m) => en_passant_target(m),
        None => None,
    }
}

/// `rights` without the right that belongs to the rook's corner `corner`;
/// unchanged if `corner` is no corner of the board.
pub open spec fn without_corner(rights: CastlingRights, corner: BoardCoordinates)
    -> CastlingRights {
    if corner.row == 0 && corner.col == 0 {
        CastlingRights { black_queen_side: false, ..rights }
    } else if corner.row == 0 && corner.col == 7 {
        CastlingRights { black_king_side: false, ..rights }
    } else if corner.row == 7 && corner.col == 0 {
        CastlingRights { white_queen_side: false, ..rights }
    } else if corner.row == 7 && corner.col == 7 {
        CastlingRights { white_king_side: false, ..rights }
    } else {
        rights
    }
}

/// The castling rights that are left of `rights` once `m` is played: a king
/// that moves gives up both rights of its side, and a rook that leaves a
/// corner or is captured on one gives up the right of that corner.
pub open spec fn rights_after(rights: CastlingRights, m: Move) -> CastlingRights {
    let by_king = if m.piece_moved == Square::Occupied(Player::White, Piece::King) {
        CastlingRights { white_king_side: false, white_queen_side: false, ..rights }
    } else if m.piece_moved == Square::Occupied(Player::Black, Piece::King) {
        CastlingRights { black_king_side: false, black_queen_side: false, ..rights }
    } else {
        rights
    };
    let by_rook = if m.piece_moved.kind() == Some(Piece::Rook) {
        without_corner(by_king, m.start)
    } else {
        by_king
    };
    if m.piece_captured.kind() == Some(Piece::Rook) {
        without_corner(by_rook, m.end)
    } else {
        by_rook
    }
}

/// Where the rook of the castling move `m` stands before the move.
pub open spec fn castle_rook_start(m: Move) -> BoardCoordinates {
    if m.start.col < m.end.col {
        square_at(m.end.row as int, m.end.col + 1)
    } else {
        square_at(m.end.row as int, m.end.col - 2)
    }
}

/// Where the rook of the castling move `m` stands after the move.
pub open spec fn castle_rook_end(m: Move) -> BoardCoordinates {
    if m.start.col < m.end.col {
        square_at(m.end.row as int, m.end.col - 1)
    } else {
        square_at(m.end.row as int, m.end.col + 1)
    }
}

/// The square of the pawn that the en-passant capture `m` takes: beside the
/// start of the move, in the column where it ends.
pub open spec fn en_passant_victim(m: Move) -> BoardCoordinates {
    square_at(m.start.row as int, m.end.col as int)
}

/// The board `board` once the pieces of `m` have been moved.
pub open spec fn board_after(board: Seq<Square>, m: Move) -> Seq<Square> {
    let plain = board.update(m.start.index(), Square::Empty).update(m.end.index(), m.piece_moved);
    match m.special_move {
        None => plain,
        Some(SpecialMove::PawnPromotion(square)) => plain.update(m.end.index(), square),
        Some(SpecialMove::EnPassant) => plain.update(en_passant_victim(m).index(), Square::Empty),
        Some(SpecialMove::Castle) => plain.update(
            castle_rook_end(m).index(),
            plain[castle_rook_start(m).index()],
        ).update(castle_rook_start(m).index(), Square::Empty),
    }
}

/// The board `board` once the pieces of `m` have been put back; `victim` is
/// the side whose pawn an en-passant capture took.
pub open spec fn board_before(board: Seq<Square>, m: Move, victim: Player) -> Seq<Square> {
    let plain = board.update(m.start.index(), m.piece_moved).update(
        m.end.index(),
        m.piece_captured,
    );
    match m.special_move {
        None => plain,
        Some(SpecialMove::PawnPromotion(_)) => plain,
        Some(SpecialMove::EnPassant) => plain.update(
            en_passant_victim(m).index(),
            Square::Occupied(victim, Piece::Pawn),
        ),
        Some(SpecialMove::Castle) => plain.update(
            castle_rook_start(m).index(),
            plain[castle_rook_end(m).index()],
        ).update(castle_rook_end(m).index(), Square::Empty),
    }
}

impl Position {
    /// The board has sixty-four squares and every recorded square lies on it.
    pub open spec fn wf(self) -> bool {
        &&& self.board.len() == 64
        &&& self.white_king_location.wf()
        &&& self.black_king_location.wf()
        &&& match self.en_passant_square {
            Some(square) => square.wf(),
            None => true,
        }
    }

    /// What the square `c` holds.
    pub open spec fn at(self, c: BoardCoordinates) -> Square {
        self.board[c.index()]
    }

    /// What the square in row `row` and column `col` holds.
    pub open spec fn square(self, row: int, col: int) -> Square {
        self.board[row * 8 + col]
    }

    /// Where the king of `player` is recorded to stand.
    pub open spec fn king_location(self, player: Player) -> BoardCoordinates {
        match player {
            Player::White => self.white_king_location,
            Player::Black => self.black_king_location,
        }
    }

    /// The move from `start` to `end` with the pieces that stand there now.
    pub open spec fn move_to(
        self,
        start: BoardCoordinates,
        end: BoardCoordinates,
        special_move: Option<SpecialMove>,
    ) -> Move {
        Move {
            start,
            end,
            piece_moved: self.at(start),
            piece_captured: self.at(end),
            special_move,
        }
    }

    /// The same position with the other side to move.
    pub open spec fn flipped(self) -> Position {
        Position { turn: self.turn.other(), ..self }
    }

    /// The position once the pieces of `m` have been moved, with the
    /// en-passant square, the castling rights and the kings' squares brought
    /// up to date; the side to move is still the one that made the move.
    pub open spec fn moved(self, m: Move) -> Position {
        Position {
            board: board_after(self.board, m),
            turn: self.turn,
            castling_rights: rights_after(self.castling_rights, m),
            en_passant_square: en_passant_target(m),
            white_king_location: if m.piece_moved == Square::Occupied(
                Player::White,
                Piece::King,
            ) {
                m.end
            } else {
                self.white_king_location
            },
            black_king_location: if m.piece_moved == Square::Occupied(
                Player::Black,
                Piece::King,
            ) {
                m.end
            } else {
                self.black_king_location
            },
        }
    }

    /// The position after the move `m`, with the other side to move.
    pub open spec fn after(self, m: Move) -> Position {
        self.moved(m).flipped()
    }

    /// The position with the pieces of `m` put back, where the side to move
    /// is the one that made `m`: the castling rights become `rights`, the
    /// en-passant square the one that `previous`, the move made before `m`,
    /// left behind, and a king that `m` moved is recorded on its start.
    pub open spec fn unmoved(
        self,
        m: Move,
        rights: CastlingRights,
        previous: Option<Move>,
    ) -> Position {
        Position {
            board: board_before(self.board, m, self.turn.other()),
            turn: self.turn,
            castling_rights: rights,
            en_passant_square: en_passant_after(previous),
            white_king_location: if m.piece_moved == Square::Occupied(
                Player::White,
                Piece::King,
            ) {
                m.start
            } else {
                self.white_king_location
            },
            black_king_location: if m.piece_moved == Square::Occupied(
                Player::Black,
                Piece::King,
            ) {
                m.start
            } else {
                self.black_king_location
            },
        }
    }

    /// The position before the move `m`, computed from the position after
    /// it: the move is handed back to the side that made `m` and the pieces
    /// are put back.
    pub open spec fn before(
        self,
        m: Move,
        rights: CastlingRights,
        previous: Option<Move>,
    ) -> Position {
        self.flipped().unmoved(m, rights, previous)
    }
}

} // verus!
