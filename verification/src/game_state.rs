//! The game: a position with the history that lets moves be taken back.

use vstd::prelude::*;
use crate::castling_rights::CastlingRights;
use crate::consistency::lemma_legal_moves;
use crate::coordinates::BoardCoordinates;
use crate::game::{
    full_moves, last_move, legal_game, lemma_legal_game_is_consistent, lemma_occurrences_bounded,
    lemma_quiet_plies_bounded, lemma_turn_alternates, lemma_undo_restores_position, occurrences,
    position_after, quiet_plies, result_after, seen_three_times,
};
use crate::moves::{Move, SpecialMove};
use crate::piece::Piece;
use crate::player::Player;
use crate::position::Position;
use crate::repetition::RepetitionTally;
use crate::result::GameResult;
use crate::shape::lemma_candidates_wf;
use crate::square::Square;
use crate::state::State;

verus! {

/// A legal move lies on the board, and a castling move ends in column 2 or 6.
pub proof fn lemma_legal_move_wf(p: Position, m: Move)
    requires
        p.wf(),
        p.legal_moves().contains(m),
    ensures
        m.wf(),
{
    lemma_legal_moves(p, m);
    lemma_candidates_wf(p);
    let candidates = p.candidate_moves();
    let j = choose|j: int| 0 <= j < candidates.len() && candidates[j] == m;
    assert(candidates[j].wf());
}

/// The first of `moves` that is the same move as `candidate`.
pub open spec fn first_same_move(moves: Seq<Move>, candidate: Move) -> Option<Move>
    decreases moves.len(),
{
    if moves.len() == 0 {
        None
    } else if moves.first().same_move(candidate) {
        Some(moves.first())
    } else {
        first_same_move(moves.drop_first(), candidate)
    }
}

/// The first of `moves` that is the same move as `candidate` is one of
/// `moves` and is the same move as `candidate`; there is none exactly when
/// no move of `moves` is the same move as `candidate`.
pub proof fn lemma_first_same_move(moves: Seq<Move>, candidate: Move)
    ensures
        match first_same_move(moves, candidate) {
            Some(m) => moves.contains(m) && m.same_move(candidate),
            None => forall|i: int| 0 <= i < moves.len() ==> !(#[trigger] moves[i]).same_move(candidate),
        },
    decreases moves.len(),
{
    if moves.len() > 0 {
        if moves.first().same_move(candidate) {
            assert(moves[0] == moves.first());
        } else {
            let rest = moves.drop_first();
            lemma_first_same_move(rest, candidate);
            match first_same_move(rest, candidate) {
                Some(m) => {
                    let i = choose|i: int| 0 <= i < rest.len() && rest[i] == m;
                    assert(moves[i + 1] == m);
                },
                None => {
                    assert forall|i: int| 0 <= i < moves.len() implies !(#[trigger] moves[i]).same_move(
                        candidate,
                    ) by {
                        if i > 0 {
                            assert(rest[i - 1] == moves[i]);
                        }
                    }
                },
            }
        }
    }
}

/// A game of chess: the position on the board together with the moves that
/// led to it, so that moves can be taken back, and with what follows from
/// both: the legal moves of the side to move, whether its king is in
/// check, and whether and how the game has ended.
pub struct GameState {
    state: State,
    halfmove_clock: usize,
    fullmove_clock: usize,
    move_log: Vec<Move>,
    valid_moves: Vec<Move>,
    castling_rights_log: Vec<CastlingRights>,
    halfmove_log: Vec<usize>,
    is_check: bool,
    game_result: Option<GameResult>,
    position_repetitions: RepetitionTally,
}

impl Default for GameState {
    fn default() -> (r: Self)
        ensures
            r.wf(),
            r.moves() == Seq::<Move>::empty(),
    {
        Self::new()
    }
}

impl GameState {
    /// The moves made so far, oldest first.
    pub closed spec fn moves(&self) -> Seq<Move> {
        self.move_log@
    }

    /// The board, the side to move, the castling rights with their history
    /// and the full-move number are those that the moves made so far lead
    /// to, all of which were legal; and the check flag is up to date.
    spec fn anchored(&self) -> bool {
        let log = self.move_log@;
        &&& legal_game(log)
        &&& self.state@ == position_after(log)
        &&& self.castling_rights_log@.len() == log.len() + 1
        &&& forall|i: int|
            0 <= i <= log.len() ==> #[trigger] self.castling_rights_log@[i] == position_after(
                log.take(i),
            ).castling_rights
        &&& self.fullmove_clock == full_moves(log)
        &&& self.is_check == position_after(log).in_check()
    }

    /// The count of quiet plies with its history and the tally of boards
    /// are those of the moves made so far.
    spec fn clocked(&self) -> bool {
        let log = self.move_log@;
        &&& self.halfmove_clock == quiet_plies(log)
        &&& self.halfmove_log@.len() == log.len()
        &&& forall|i: int|
            0 <= i < log.len() ==> #[trigger] self.halfmove_log@[i] == quiet_plies(log.take(i))
        &&& self.position_repetitions.wf()
        &&& forall|board: Seq<Square>| #[trigger]
            self.position_repetitions.count(board) == occurrences(log, board)
    }

    /// Everything the game holds is what the moves made so far lead to, and
    /// all of these moves were legal when they were made.
    pub closed spec fn wf(&self) -> bool {
        &&& self.anchored()
        &&& self.clocked()
        &&& self.valid_moves@ == position_after(self.move_log@).legal_moves()
        &&& self.game_result == result_after(self.move_log@)
    }

    /// The moves of a well-formed game were all legal when they were made,
    /// so the position that they lead to is consistent.
    pub proof fn law_moves_are_legal(&self)
        requires
            self.wf(),
        ensures
            legal_game(self.moves()),
            position_after(self.moves()).consistent(),
    {
        lemma_legal_game_is_consistent(self.move_log@);
    }

    /// A game at its start: the initial position, White to move, no move
    /// made, the legal moves worked out.
    pub fn new() -> (r: Self)
        ensures
            r.wf(),
            r.moves() == Seq::<Move>::empty(),
    {
        let state = State::new();
        let is_check = state.in_check();
        let mut castling_rights_log: Vec<CastlingRights> = Vec::new();
        castling_rights_log.push(state.castling_rights);
        let mut new_state = Self {
            state,
            halfmove_clock: 0,
            fullmove_clock: 1,
            move_log: Vec::new(),
            valid_moves: Vec::new(),
            castling_rights_log,
            halfmove_log: Vec::new(),
            is_check,
            game_result: None,
            position_repetitions: RepetitionTally::new(),
        };
        proof {
            let log = new_state.move_log@;
            assert(log =~= Seq::<Move>::empty());
            assert forall|i: int| 0 <= i <= log.len() implies #[trigger] new_state.castling_rights_log@[i]
                == position_after(log.take(i)).castling_rights by {
                assert(log.take(i) =~= log);
            }
        }
        new_state.generate_valid_moves();
        new_state.declare_draws();
        new_state
    }

    /// Starts the game afresh, as `new` does.
    pub fn restart(&mut self)
        ensures
            final(self).wf(),
            final(self).moves() == Seq::<Move>::empty(),
    {
        *self = Self::new();
    }

    /// What the square `coordinates` holds.
    pub fn get_square(&self, coordinates: BoardCoordinates) -> (r: Square)
        requires
            self.wf(),
            coordinates.wf(),
        ensures
            r == position_after(self.moves()).at(coordinates),
    {
        self.state.get_square(coordinates)
    }

    /// The side to move.
    pub fn get_turn(&self) -> (r: Player)
        requires
            self.wf(),
        ensures
            r == position_after(self.moves()).turn,
    {
        self.state.turn
    }

    /// The square of White's king.
    pub fn get_white_king_location(&self) -> (r: BoardCoordinates)
        requires
            self.wf(),
        ensures
            r == position_after(self.moves()).white_king_location,
            r.wf(),
    {
        proof {
            lemma_legal_game_is_consistent(self.move_log@);
        }
        self.state.white_king_location
    }

    /// The square of Black's king.
    pub fn get_black_king_location(&self) -> (r: BoardCoordinates)
        requires
            self.wf(),
        ensures
            r == position_after(self.moves()).black_king_location,
            r.wf(),
    {
        proof {
            lemma_legal_game_is_consistent(self.move_log@);
        }
        self.state.black_king_location
    }

    /// Whether the king of the side to move is in check.
    pub fn get_is_check(&self) -> (r: bool)
        requires
            self.wf(),
        ensures
            r == position_after(self.moves()).in_check(),
    {
        self.is_check
    }

    /// Whether the game has ended.
    pub fn is_game_over(&self) -> (r: bool)
        requires
            self.wf(),
        ensures
            r == result_after(self.moves()).is_some(),
    {
        self.game_result.is_some()
    }

    /// How the game has ended; `None` while it goes on.
    pub fn get_game_result(&self) -> (r: Option<GameResult>)
        requires
            self.wf(),
        ensures
            r == result_after(self.moves()),
    {
        self.game_result
    }

    /// The square onto which a pawn may capture en passant with the next
    /// move: the square that the latest move, a two-row pawn step, passed
    /// over.
    pub fn get_en_passant_square(&self) -> (r: Option<BoardCoordinates>)
        requires
            self.wf(),
        ensures
            r == position_after(self.moves()).en_passant_square,
            r == crate::position::en_passant_after(last_move(self.moves())),
    {
        self.state.en_passant_square
    }

    /// The castling rights that are left.
    pub fn get_castling_rights(&self) -> (r: CastlingRights)
        requires
            self.wf(),
        ensures
            r == position_after(self.moves()).castling_rights,
    {
        self.state.castling_rights
    }

    /// The latest move, if any has been made.
    pub fn get_last_move(&self) -> (r: Option<Move>)
        requires
            self.wf(),
        ensures
            r == last_move(self.moves()),
    {
        let n: usize = self.move_log.len();
        if n > 0 {
            Some(self.move_log[n - 1])
        } else {
            None
        }
    }

    /// The legal moves of the side to move: each move that fits the rule
    /// of its piece or is the castling move of an open side, and does not
    /// expose the mover's king, once.
    pub fn get_valid_moves(&self) -> (r: &Vec<Move>)
        requires
            self.wf(),
        ensures
            r@ == position_after(self.moves()).legal_moves(),
            r@.no_duplicates(),
            forall|m: Move| #[trigger]
                r@.contains(m) <==> position_after(self.moves()).sound(m) && !position_after(
                    self.moves(),
                ).exposes_king(m),
    {
        proof {
            let p = position_after(self.move_log@);
            lemma_legal_game_is_consistent(self.move_log@);
            crate::distinct::lemma_moves_are_distinct(p);
            assert forall|m: Move| #[trigger]
                self.valid_moves@.contains(m) <==> p.sound(m) && !p.exposes_king(m) by {
                crate::laws::law_legal_moves_follow_the_rules(p, m);
            }
        }
        &self.valid_moves
    }

    /// The plies made since the last pawn move or capture.
    pub fn get_halfmove_clock(&self) -> (r: usize)
        requires
            self.wf(),
        ensures
            r == quiet_plies(self.moves()),
    {
        self.halfmove_clock
    }

    /// The number of the full move being played.
    pub fn get_fullmove_clock(&self) -> (r: usize)
        requires
            self.wf(),
        ensures
            r == full_moves(self.moves()),
    {
        self.fullmove_clock
    }

    /// The position on the board.
    pub fn get_state(&self) -> (r: &State)
        requires
            self.wf(),
        ensures
            r@ == position_after(self.moves()),
            r.wf(),
    {
        proof {
            lemma_legal_game_is_consistent(self.move_log@);
        }
        &self.state
    }

    /// The legal move that is the same move as `candidate`: the first one
    /// in the list that agrees with it on both squares, on the pieces moved
    /// and captured and on the promotion choice. It carries the special
    /// move that the candidate may lack.
    pub fn find_valid_move(&self, candidate: &Move) -> (r: Option<Move>)
        requires
            self.wf(),
        ensures
            r == first_same_move(position_after(self.moves()).legal_moves(), *candidate),
    {
        let ghost legal = self.valid_moves@;
        let mut i: usize = 0;
        assert(legal.skip(0) =~= legal);
        while i < self.valid_moves.len()
            invariant
                i <= self.valid_moves@.len(),
                legal == self.valid_moves@,
                legal == position_after(self.moves()).legal_moves(),
                first_same_move(legal, *candidate) == first_same_move(
                    legal.skip(i as int),
                    *candidate,
                ),
            decreases self.valid_moves@.len() - i,
        {
            let real_move = self.valid_moves[i];
            proof {
                assert(legal.skip(i as int).first() == real_move);
                assert(legal.skip(i as int).drop_first() =~= legal.skip(i + 1));
            }
            if real_move == *candidate {
                return Some(real_move);
            }
            i = i + 1;
        }
        assert(legal.skip(i as int).len() == 0);
        None
    }

    /// Makes the legal move that is the same move as `candidate`, if there
    /// is one, and says whether it did. Otherwise nothing changes.
    pub fn try_move(&mut self, candidate: Move) -> (made: bool)
        requires
            old(self).wf(),
        ensures
            final(self).wf(),
            made == first_same_move(
                position_after(old(self).moves()).legal_moves(),
                candidate,
            ).is_some(),
            final(self).moves() == match first_same_move(
                position_after(old(self).moves()).legal_moves(),
                candidate,
            ) {
                Some(m) => old(self).moves().push(m),
                None => old(self).moves(),
            },
    {
        match self.find_valid_move(&candidate) {
            Some(real_move) => {
                proof {
                    lemma_first_same_move(
                        position_after(self.move_log@).legal_moves(),
                        candidate,
                    );
                }
                self.make_new_move(real_move);
                true
            },
            None => false,
        }
    }

    /// Makes the move `new_move`, which must be one of the legal moves of
    /// the side to move, and works out the legal moves of the other side
    /// and whether and how the game has ended.
    pub fn make_new_move(&mut self, new_move: Move)
        requires
            old(self).wf(),
            position_after(old(self).moves()).legal_moves().contains(new_move),
        ensures
            final(self).wf(),
            final(self).moves() == old(self).moves().push(new_move),
    {
        let ghost log = self.move_log@;
        self.make_move(new_move);
        self.generate_valid_moves();
        let plies: usize = self.move_log.len();
        assert(log.len() + 1 == plies);

        proof {
            lemma_occurrences_bounded(log, self.state.board@);
            assert(self.move_log@.drop_last() =~= log);
        }
        self.position_repetitions.record(&self.state.board);

        proof {
            lemma_quiet_plies_bounded(log);
        }
        self.halfmove_log.push(self.halfmove_clock);
        let resets = match new_move.special_move {
            Some(SpecialMove::PawnPromotion(_)) => true,
            Some(SpecialMove::EnPassant) => true,
            _ => false,
        };
        let moves_pawn = match new_move.piece_moved {
            Square::Occupied(_, piece) => piece == Piece::Pawn,
            Square::Empty => false,
        };
        if resets || moves_pawn || new_move.piece_captured != Square::Empty {
            self.halfmove_clock = 0;
        } else {
            self.halfmove_clock = self.halfmove_clock + 1;
        }
        proof {
            let after = self.move_log@;
            assert forall|i: int| 0 <= i < after.len() implies #[trigger] self.halfmove_log@[i]
                == quiet_plies(after.take(i)) by {
                if i < log.len() {
                    assert(after.take(i) =~= log.take(i));
                } else {
                    assert(after.take(i) =~= log);
                }
            }
        }
        self.declare_draws();
    }

    /// Appends `to_move` to the log, makes it on the board and brings the
    /// history of castling rights, the full-move number, which goes up
    /// after a move of Black, and the check flag up to date.
    fn make_move(&mut self, to_move: Move)
        requires
            old(self).anchored(),
            position_after(old(self).move_log@).legal_moves().contains(to_move),
        ensures
            final(self).anchored(),
            final(self).move_log@ == old(self).move_log@.push(to_move),
            final(self).halfmove_clock == old(self).halfmove_clock,
            final(self).halfmove_log == old(self).halfmove_log,
            final(self).position_repetitions == old(self).position_repetitions,
    {
        let ghost log = self.move_log@;
        proof {
            lemma_legal_game_is_consistent(log);
            lemma_legal_move_wf(position_after(log), to_move);
            lemma_turn_alternates(log);
        }
        self.move_log.push(to_move);
        let plies: usize = self.move_log.len();
        assert(log.len() + 1 == plies);
        let mover = self.state.turn;
        self.state.make_move(to_move);
        if mover == Player::Black {
            self.fullmove_clock = self.fullmove_clock + 1;
        }
        self.castling_rights_log.push(self.state.castling_rights);
        self.is_check = self.state.in_check();
        proof {
            let after = self.move_log@;
            assert(after.drop_last() =~= log);
            assert(after.last() == to_move);
            assert forall|i: int| 0 <= i <= after.len() implies #[trigger] self.castling_rights_log@[i]
                == position_after(after.take(i)).castling_rights by {
                if i <= log.len() {
                    assert(after.take(i) =~= log.take(i));
                } else {
                    assert(after.take(i) =~= after);
                }
            }
        }
    }

    /// Takes the latest move back, if any has been made, and works out the
    /// legal moves and whether and how the game has ended for the position
    /// before it. With no move made, nothing changes.
    pub fn undo_last_move(&mut self)
        requires
            old(self).wf(),
        ensures
            final(self).wf(),
            final(self).moves() == if old(self).moves().len() > 0 {
                old(self).moves().drop_last()
            } else {
                old(self).moves()
            },
    {
        if self.move_log.len() == 0 {
            return ;
        }
        let ghost log = self.move_log@;
        proof {
            lemma_occurrences_bounded(log, self.state.board@);
        }
        self.position_repetitions.forget(&self.state.board);
        self.undo_move();
        self.generate_valid_moves();
        let earlier = self.halfmove_log.pop();
        self.halfmove_clock = earlier.unwrap();
        proof {
            let after = self.move_log@;
            assert(log.take(after.len() as int) =~= after);
            assert forall|i: int| 0 <= i < after.len() implies #[trigger] self.halfmove_log@[i]
                == quiet_plies(after.take(i)) by {
                assert(after.take(i) =~= log.take(i));
            }
        }
        self.declare_draws();
    }

    /// Takes the latest move off the log and back on the board, and
    /// restores the castling rights, the full-move number, which goes down
    /// when a move of Black is taken back, and the check flag.
    fn undo_move(&mut self)
        requires
            old(self).anchored(),
            old(self).move_log@.len() > 0,
        ensures
            final(self).anchored(),
            final(self).move_log@ == old(self).move_log@.drop_last(),
            final(self).halfmove_clock == old(self).halfmove_clock,
            final(self).halfmove_log == old(self).halfmove_log,
            final(self).position_repetitions == old(self).position_repetitions,
    {
        let ghost log = self.move_log@;
        let ghost earlier = log.drop_last();
        proof {
            reveal_with_fuel(legal_game, 3);
            lemma_legal_game_is_consistent(log);
            lemma_legal_game_is_consistent(earlier);
            lemma_legal_move_wf(position_after(earlier), log.last());
            lemma_turn_alternates(log);
            lemma_undo_restores_position(log);
            if earlier.len() > 0 {
                lemma_legal_game_is_consistent(earlier.drop_last());
                lemma_legal_move_wf(position_after(earlier.drop_last()), earlier.last());
            }
            assert(log.take(log.len() - 1) =~= earlier);
        }
        let popped = self.move_log.pop();
        let last = popped.unwrap();
        let n: usize = self.move_log.len();
        let previous = if n > 0 {
            Some(self.move_log[n - 1])
        } else {
            None
        };
        self.castling_rights_log.pop();
        let rights = self.castling_rights_log[self.castling_rights_log.len() - 1];
        self.state.unmake_move(last, rights, previous);
        if self.state.turn == Player::Black {
            self.fullmove_clock = self.fullmove_clock - 1;
        }
        self.is_check = self.state.in_check();
        proof {
            let after = self.move_log@;
            assert(after =~= earlier);
            assert forall|i: int| 0 <= i <= after.len() implies #[trigger] self.castling_rights_log@[i]
                == position_after(after.take(i)).castling_rights by {
                assert(after.take(i) =~= log.take(i));
            }
        }
    }

    /// Works out the legal moves of the side to move, and from them whether
    /// the game has ended in mate or stalemate.
    fn generate_valid_moves(&mut self)
        requires
            old(self).anchored(),
        ensures
            final(self).anchored(),
            final(self).valid_moves@ == position_after(final(self).move_log@).legal_moves(),
            final(self).game_result == if final(self).valid_moves@.len() > 0 {
                None
            } else if final(self).is_check {
                Some(GameResult::Checkmate)
            } else {
                Some(GameResult::Stalemate)
            },
            final(self).move_log == old(self).move_log,
            final(self).halfmove_log == old(self).halfmove_log,
            final(self).halfmove_clock == old(self).halfmove_clock,
            final(self).position_repetitions == old(self).position_repetitions,
    {
        proof {
            lemma_legal_game_is_consistent(self.move_log@);
        }
        self.valid_moves = self.state.generate_legal_moves();
        if self.valid_moves.len() == 0 {
            if self.is_check {
                self.game_result = Some(GameResult::Checkmate);
            } else {
                self.game_result = Some(GameResult::Stalemate);
            }
        } else {
            self.game_result = None;
        }
    }

    /// Declares the draws: a dead position whatever else holds; a board
    /// seen three times or, failing that, fifty moves by each side without
    /// a pawn move or a capture, where the game has not ended otherwise.
    fn declare_draws(&mut self)
        requires
            old(self).anchored(),
            old(self).clocked(),
            old(self).valid_moves@ == position_after(old(self).move_log@).legal_moves(),
            old(self).game_result == if old(self).valid_moves@.len() > 0 {
                None
            } else if old(self).is_check {
                Some(GameResult::Checkmate)
            } else {
                Some(GameResult::Stalemate)
            },
        ensures
            final(self).wf(),
            final(self).move_log == old(self).move_log,
    {
        let ghost log = self.move_log@;
        let threefold = self.position_repetitions.has_threefold();
        proof {
            if threefold {
                let board = choose|board: Seq<Square>| #[trigger]
                    self.position_repetitions.count(board) >= 3;
                assert(occurrences(log, board) >= 3);
            }
            if seen_three_times(log) {
                let board = choose|board: Seq<Square>| #[trigger] occurrences(log, board) >= 3;
                assert(self.position_repetitions.count(board) >= 3);
            }
        }
        if threefold && self.game_result.is_none() {
            self.game_result = Some(GameResult::ThreefoldRepetition);
        }
        if self.state.only_kings_left() {
            self.game_result = Some(GameResult::DeadPosition);
        }
        if self.halfmove_clock >= 100 && self.game_result.is_none() {
            self.game_result = Some(GameResult::FiftyMoveRule);
        }
    }
}

} // verus!
