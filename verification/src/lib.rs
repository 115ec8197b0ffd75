//! A chess rules engine.
//!
//! The crate keeps an authoritative position, enumerates the legal moves of
//! the side to move, makes moves and takes them back, and recognises the
//! ways a game can end.
//!
//! The executable part is [`GameState`], the game with its history, built on
//! [`State`], a position that can be copied and probed, and on the small
//! types of the board. Every executable function carries a contract stated
//! over a mathematical model: [`position`] says what a position is and what
//! a move does to it, [`generation`] and [`legality`] list the moves, and
//! [`game`] derives everything a game holds from the list of its moves.
//! [`shape`], [`completeness`], [`distinct`], [`consistency`] and
//! [`castling`] prove that the lists hold exactly the moves that the rules
//! of chess allow and that games reach only positions in which kings,
//! castling rights and the en-passant square agree with the board; [`laws`]
//! collects what follows for a user of the engine.

pub mod player;
pub mod piece;
pub mod square;
pub mod coordinates;
pub mod castling_rights;
pub mod result;
pub mod board;
pub mod moves;
pub mod move_counter;
pub mod position;
pub mod generation;
pub mod legality;
pub mod shape;
pub mod completeness;
pub mod distinct;
pub mod consistency;
pub mod castling;
pub mod game;
pub mod laws;
pub mod state;
pub mod movegen;
pub mod probe;
pub mod repetition;
pub mod game_state;
pub mod interaction;

pub use crate::board::Board;
pub use crate::castling_rights::CastlingRights;
pub use crate::coordinates::BoardCoordinates;
pub use crate::game_state::GameState;
pub use crate::interaction::{
    interpret_click, needs_promotion_choice, next_scene, ClickAction, Scene,
};
pub use crate::move_counter::MoveCounter;
pub use crate::moves::{Move, SpecialMove};
pub use crate::piece::Piece;
pub use crate::player::Player;
pub use crate::repetition::{Repetition, RepetitionTally};
pub use crate::result::GameResult;
pub use crate::square::Square;
pub use crate::state::State;
