use state::{
    Board, BoardCoordinates, CastlingRights, Move, Piece, Player, RepetitionTally, SpecialMove,
    Square, State,
};

fn at(row: usize, col: usize) -> BoardCoordinates {
    BoardCoordinates::new(row, col)
}

fn empty_state(turn: Player, white_king: (usize, usize), black_king: (usize, usize)) -> State {
    let mut state = State::new();
    for row in 0..8 {
        for col in 0..8 {
            state.set_square(at(row, col), Square::Empty);
        }
    }
    state.turn = turn;
    state.castling_rights = CastlingRights::new(false, false, false, false);
    state.white_king_location = at(white_king.0, white_king.1);
    state.black_king_location = at(black_king.0, black_king.1);
    state.set_square(state.white_king_location, Square::Occupied(Player::White, Piece::King));
    state.set_square(state.black_king_location, Square::Occupied(Player::Black, Piece::King));
    state
}

fn ends(moves: &Vec<Move>) -> Vec<(usize, usize)> {
    moves.iter().map(|m| (m.end.row(), m.end.col())).collect()
}

#[test]
fn new_state_is_the_initial_position() {
    let state = State::new();
    assert!(state.board.same_position(&Board::initial_position()));
    assert_eq!(state.turn, Player::White);
    assert_eq!(state.castling_rights, CastlingRights::default());
    assert_eq!(state.en_passant_square, None);
    assert_eq!(state.white_king_location, at(7, 4));
    assert_eq!(state.black_king_location, at(0, 4));
    assert_eq!(state.get_king_location(Player::White), at(7, 4));
    assert_eq!(state.get_king_location(Player::Black), at(0, 4));
    let same = State::default();
    assert!(same.board.same_position(&state.board));
}

#[test]
fn move_records_the_pieces_on_both_squares() {
    let state = State::new();
    let m = Move::new(at(6, 4), at(1, 4), None, &state);
    assert_eq!(m.start, at(6, 4));
    assert_eq!(m.end, at(1, 4));
    assert_eq!(m.piece_moved, Square::Occupied(Player::White, Piece::Pawn));
    assert_eq!(m.piece_captured, Square::Occupied(Player::Black, Piece::Pawn));
    assert_eq!(m.special_move, None);
    assert_eq!(m.get_promotion(), None);
}

#[test]
fn moves_are_equal_up_to_the_castling_and_en_passant_tags() {
    let state = State::new();
    let plain = Move::new(at(6, 4), at(4, 4), None, &state);
    let tagged = Move::new(at(6, 4), at(4, 4), Some(SpecialMove::Castle), &state);
    let other = Move::new(at(6, 4), at(5, 4), None, &state);
    let queen = Move::new(
        at(6, 4),
        at(4, 4),
        Some(SpecialMove::PawnPromotion(Square::Occupied(Player::White, Piece::Queen))),
        &state,
    );
    let rook = Move::new(
        at(6, 4),
        at(4, 4),
        Some(SpecialMove::PawnPromotion(Square::Occupied(Player::White, Piece::Rook))),
        &state,
    );
    assert!(plain == tagged);
    assert!(tagged == plain);
    assert!(plain != other);
    assert!(queen != rook);
    assert!(queen != plain);
    assert!(plain != queen);
    assert!(queen == queen);
    assert_eq!(queen.get_promotion(), Some(Square::Occupied(Player::White, Piece::Queen)));
}

#[test]
fn rook_slides_until_blocked() {
    let mut state = empty_state(Player::White, (7, 4), (0, 4));
    state.set_square(at(4, 3), Square::Occupied(Player::White, Piece::Rook));
    state.set_square(at(4, 6), Square::Occupied(Player::Black, Piece::Pawn));
    state.set_square(at(6, 3), Square::Occupied(Player::White, Piece::Pawn));
    let mut moves = Vec::new();
    state.generate_rook_moves(at(4, 3), &mut moves);
    assert_eq!(
        ends(&moves),
        vec![
            (4, 4),
            (4, 5),
            (4, 6),
            (4, 2),
            (4, 1),
            (4, 0),
            (5, 3),
            (3, 3),
            (2, 3),
            (1, 3),
            (0, 3)
        ]
    );
    assert_eq!(moves[2].piece_captured, Square::Occupied(Player::Black, Piece::Pawn));
    assert!(moves.iter().all(|m| m.start == at(4, 3) && m.special_move.is_none()));
}

#[test]
fn bishop_slides_along_diagonals() {
    let mut state = empty_state(Player::White, (7, 4), (0, 4));
    state.set_square(at(5, 1), Square::Occupied(Player::White, Piece::Bishop));
    let mut moves = Vec::new();
    state.generate_bishop_moves(at(5, 1), &mut moves);
    assert_eq!(
        ends(&moves),
        vec![(6, 2), (7, 3), (4, 2), (3, 3), (2, 4), (1, 5), (0, 6), (6, 0), (4, 0)]
    );
}

#[test]
fn queen_moves_as_bishop_then_rook() {
    let mut state = empty_state(Player::White, (7, 4), (0, 4));
    state.set_square(at(7, 0), Square::Occupied(Player::White, Piece::Queen));
    let mut moves = Vec::new();
    state.generate_queen_moves(at(7, 0), &mut moves);
    assert_eq!(
        ends(&moves),
        vec![
            (6, 1),
            (5, 2),
            (4, 3),
            (3, 4),
            (2, 5),
            (1, 6),
            (0, 7),
            (7, 1),
            (7, 2),
            (7, 3),
            (6, 0),
            (5, 0),
            (4, 0),
            (3, 0),
            (2, 0),
            (1, 0),
            (0, 0)
        ]
    );
}

#[test]
fn knight_jumps_stay_on_the_board() {
    let mut state = empty_state(Player::White, (7, 4), (0, 4));
    state.set_square(at(7, 7), Square::Occupied(Player::White, Piece::Knight));
    state.set_square(at(5, 6), Square::Occupied(Player::White, Piece::Pawn));
    let mut moves = Vec::new();
    state.generate_knight_moves(at(7, 7), &mut moves);
    assert_eq!(ends(&moves), vec![(6, 5)]);
    let mut moves = Vec::new();
    state.set_square(at(3, 3), Square::Occupied(Player::White, Piece::Knight));
    state.generate_knight_moves(at(3, 3), &mut moves);
    assert_eq!(
        ends(&moves),
        vec![(4, 5), (2, 5), (4, 1), (2, 1), (5, 4), (1, 4), (5, 2), (1, 2)]
    );
}

#[test]
fn king_steps_to_neighbouring_squares() {
    let state = empty_state(Player::White, (7, 0), (0, 7));
    let mut moves = Vec::new();
    state.generate_king_moves(at(7, 0), &mut moves);
    assert_eq!(ends(&moves), vec![(7, 1), (6, 0), (6, 1)]);
}

#[test]
fn generators_append_to_the_list() {
    let state = empty_state(Player::White, (7, 0), (0, 7));
    let mut moves = Vec::new();
    state.generate_king_moves(at(7, 0), &mut moves);
    let first = moves.clone();
    state.generate_king_moves(at(7, 0), &mut moves);
    assert_eq!(moves.len(), 6);
    assert!(moves[0] == first[0] && moves[3] == first[0] && moves[5] == first[2]);
}

#[test]
fn pawn_steps_and_captures() {
    let mut state = empty_state(Player::White, (7, 4), (0, 4));
    state.set_square(at(6, 2), Square::Occupied(Player::White, Piece::Pawn));
    state.set_square(at(5, 1), Square::Occupied(Player::Black, Piece::Knight));
    state.set_square(at(5, 3), Square::Occupied(Player::White, Piece::Knight));
    let mut moves = Vec::new();
    state.generate_pawn_moves(at(6, 2), &mut moves);
    assert_eq!(ends(&moves), vec![(5, 2), (4, 2), (5, 1)]);

    // Something on the square two rows ahead: only the single step is left.
    state.set_square(at(4, 2), Square::Occupied(Player::Black, Piece::Pawn));
    let mut moves = Vec::new();
    state.generate_pawn_moves(at(6, 2), &mut moves);
    assert_eq!(ends(&moves), vec![(5, 2), (5, 1)]);

    // Something right ahead: neither step is left.
    state.set_square(at(5, 2), Square::Occupied(Player::Black, Piece::Pawn));
    let mut moves = Vec::new();
    state.generate_pawn_moves(at(6, 2), &mut moves);
    assert_eq!(ends(&moves), vec![(5, 1)]);
}

#[test]
fn black_pawn_moves_down_the_board() {
    let mut state = empty_state(Player::Black, (7, 4), (0, 4));
    state.set_square(at(1, 7), Square::Occupied(Player::Black, Piece::Pawn));
    state.set_square(at(2, 6), Square::Occupied(Player::White, Piece::Bishop));
    let mut moves = Vec::new();
    state.generate_pawn_moves(at(1, 7), &mut moves);
    assert_eq!(ends(&moves), vec![(2, 7), (3, 7), (2, 6)]);
    state.set_square(at(4, 0), Square::Occupied(Player::Black, Piece::Pawn));
    let mut moves = Vec::new();
    state.generate_pawn_moves(at(4, 0), &mut moves);
    assert_eq!(ends(&moves), vec![(5, 0)]);
}

#[test]
fn pawn_on_the_farthest_row_has_no_move() {
    let mut state = empty_state(Player::White, (7, 4), (0, 4));
    state.set_square(at(0, 0), Square::Occupied(Player::White, Piece::Pawn));
    let mut moves = Vec::new();
    state.generate_pawn_moves(at(0, 0), &mut moves);
    assert!(moves.is_empty());
}

#[test]
fn black_pawn_promotes_on_row_seven() {
    let mut state = empty_state(Player::Black, (7, 4), (0, 4));
    state.set_square(at(6, 0), Square::Occupied(Player::Black, Piece::Pawn));
    state.set_square(at(7, 1), Square::Occupied(Player::White, Piece::Rook));
    let mut moves = Vec::new();
    state.generate_pawn_moves(at(6, 0), &mut moves);
    assert_eq!(moves.len(), 8);
    let pieces = [Piece::Queen, Piece::Rook, Piece::Bishop, Piece::Knight];
    for i in 0..4 {
        assert_eq!(moves[i].end, at(7, 0));
        assert_eq!(
            moves[i].special_move,
            Some(SpecialMove::PawnPromotion(Square::Occupied(Player::Black, pieces[i])))
        );
        assert_eq!(moves[i + 4].end, at(7, 1));
        assert_eq!(
            moves[i + 4].special_move,
            Some(SpecialMove::PawnPromotion(Square::Occupied(Player::Black, pieces[i])))
        );
    }
}

#[test]
fn en_passant_needs_the_target_on_the_right_row() {
    let mut state = empty_state(Player::White, (7, 4), (0, 4));
    state.set_square(at(3, 4), Square::Occupied(Player::White, Piece::Pawn));
    state.set_square(at(3, 5), Square::Occupied(Player::Black, Piece::Pawn));
    state.en_passant_square = Some(at(2, 5));
    let mut moves = Vec::new();
    state.generate_pawn_moves(at(3, 4), &mut moves);
    assert_eq!(ends(&moves), vec![(2, 4), (2, 5)]);
    assert_eq!(moves[1].special_move, Some(SpecialMove::EnPassant));

    state.en_passant_square = Some(at(2, 3));
    let mut moves = Vec::new();
    state.generate_pawn_moves(at(3, 4), &mut moves);
    assert_eq!(ends(&moves), vec![(2, 4), (2, 3)]);

    state.en_passant_square = None;
    let mut moves = Vec::new();
    state.generate_pawn_moves(at(3, 4), &mut moves);
    assert_eq!(ends(&moves), vec![(2, 4)]);

    // A target on another row is no target for White.
    state.set_square(at(5, 0), Square::Occupied(Player::White, Piece::Pawn));
    state.en_passant_square = Some(at(4, 1));
    let mut moves = Vec::new();
    state.generate_pawn_moves(at(5, 0), &mut moves);
    assert_eq!(ends(&moves), vec![(4, 0)]);
}

#[test]
fn all_moves_go_square_by_square() {
    let mut state = empty_state(Player::White, (7, 4), (0, 4));
    state.set_square(at(6, 0), Square::Occupied(Player::White, Piece::Pawn));
    state.set_square(at(2, 7), Square::Occupied(Player::White, Piece::Knight));
    state.set_square(at(1, 0), Square::Occupied(Player::Black, Piece::Rook));
    let moves = state.generate_all_moves();
    let starts: Vec<(usize, usize)> = moves.iter().map(|m| (m.start.row(), m.start.col())).collect();
    assert_eq!(
        starts,
        vec![
            (2, 7),
            (2, 7),
            (2, 7),
            (2, 7),
            (6, 0),
            (6, 0),
            (7, 4),
            (7, 4),
            (7, 4),
            (7, 4),
            (7, 4)
        ]
    );
    let mut flipped = state;
    flipped.change_turn();
    assert_eq!(flipped.turn, Player::Black);
    let replies = flipped.generate_all_moves();
    assert!(replies.iter().all(|m| m.start == at(0, 4) || m.start == at(1, 0)));
    assert_eq!(replies.len(), 5 + 13);
}

#[test]
fn attack_is_a_move_of_the_other_side_onto_the_square() {
    let mut state = empty_state(Player::White, (7, 4), (0, 4));
    state.set_square(at(0, 0), Square::Occupied(Player::Black, Piece::Rook));
    assert!(state.under_attack(at(7, 0)));
    assert!(state.under_attack(at(0, 3)));
    assert!(!state.under_attack(at(7, 1)));
    assert!(!state.in_check());
    state.set_square(at(0, 0), Square::Empty);
    state.set_square(at(3, 4), Square::Occupied(Player::Black, Piece::Rook));
    assert!(state.in_check());
    state.set_square(at(5, 4), Square::Occupied(Player::White, Piece::Bishop));
    assert!(!state.in_check());
    // The side to move is not looked at: its own pieces attack nothing here.
    assert!(!state.under_attack(at(4, 5)));
}

#[test]
fn exposed_king_is_found_by_probing_a_copy() {
    let mut state = empty_state(Player::White, (7, 4), (0, 4));
    state.set_square(at(3, 4), Square::Occupied(Player::Black, Piece::Rook));
    state.set_square(at(5, 4), Square::Occupied(Player::White, Piece::Bishop));
    let before = state;
    let leaving = Move::new(at(5, 4), at(4, 3), None, &state);
    let staying = Move::new(at(7, 4), at(7, 3), None, &state);
    assert!(state.leaves_king_exposed(leaving));
    assert!(!state.leaves_king_exposed(staying));
    assert!(state.board.same_position(&before.board));
    let legal = state.generate_legal_moves();
    // The bishop is pinned on the column and cannot move along it.
    assert!(legal.iter().all(|m| m.start == at(7, 4)));
    assert_eq!(legal.len(), 5);
}

#[test]
fn legal_moves_of_the_initial_position() {
    let state = State::new();
    assert_eq!(state.generate_all_moves().len(), 20);
    assert_eq!(state.generate_legal_moves().len(), 20);
    let mut castles = Vec::new();
    state.generate_castling_moves(&mut castles);
    assert!(castles.is_empty());
}

#[test]
fn castling_moves_come_king_side_first() {
    let mut state = empty_state(Player::White, (7, 4), (0, 4));
    state.set_square(at(7, 0), Square::Occupied(Player::White, Piece::Rook));
    state.set_square(at(7, 7), Square::Occupied(Player::White, Piece::Rook));
    state.castling_rights = CastlingRights::new(true, true, false, false);
    let mut castles = Vec::new();
    state.generate_castling_moves(&mut castles);
    assert_eq!(ends(&castles), vec![(7, 6), (7, 2)]);
    assert!(castles.iter().all(|m| m.special_move == Some(SpecialMove::Castle)));
    assert!(castles.iter().all(|m| m.start == at(7, 4)));

    // A knight on b1 stands between king and rook on the queen's side.
    state.set_square(at(7, 1), Square::Occupied(Player::White, Piece::Knight));
    let mut castles = Vec::new();
    state.generate_castling_moves(&mut castles);
    assert_eq!(ends(&castles), vec![(7, 6)]);
    state.set_square(at(7, 1), Square::Empty);

    // A rook on the g-file looks at g1.
    state.set_square(at(2, 6), Square::Occupied(Player::Black, Piece::Rook));
    let mut castles = Vec::new();
    state.generate_castling_moves(&mut castles);
    assert_eq!(ends(&castles), vec![(7, 2)]);

    // A rook on the b-file looks at b1 only, which the king does not cross.
    state.set_square(at(2, 6), Square::Empty);
    state.set_square(at(2, 1), Square::Occupied(Player::Black, Piece::Rook));
    let mut castles = Vec::new();
    state.generate_castling_moves(&mut castles);
    assert_eq!(ends(&castles), vec![(7, 6), (7, 2)]);

    // In check there is no castling at all.
    state.set_square(at(2, 4), Square::Occupied(Player::Black, Piece::Rook));
    let mut castles = Vec::new();
    state.generate_castling_moves(&mut castles);
    assert!(castles.is_empty());

    // Without the rights there is none either.
    state.set_square(at(2, 4), Square::Empty);
    state.castling_rights = CastlingRights::new(false, true, true, true);
    let mut castles = Vec::new();
    state.generate_castling_moves(&mut castles);
    assert_eq!(ends(&castles), vec![(7, 2)]);
}

#[test]
fn make_and_unmake_restore_the_state() {
    let mut state = State::new();
    let before = state;
    let m = Move::new(at(6, 4), at(4, 4), None, &state);
    state.make_move(m);
    assert_eq!(state.turn, Player::Black);
    assert_eq!(state.en_passant_square, Some(at(5, 4)));
    assert_eq!(state.get_square(at(4, 4)), Square::Occupied(Player::White, Piece::Pawn));
    assert_eq!(state.get_square(at(6, 4)), Square::Empty);
    let reply = Move::new(at(0, 6), at(2, 5), None, &state);
    let between = state;
    state.make_move(reply);
    assert_eq!(state.turn, Player::White);
    assert_eq!(state.en_passant_square, None);
    state.unmake_move(reply, between.castling_rights, Some(m));
    assert!(state.board.same_position(&between.board));
    assert_eq!(state.en_passant_square, Some(at(5, 4)));
    assert_eq!(state.turn, Player::Black);
    state.unmake_move(m, before.castling_rights, None);
    assert!(state.board.same_position(&before.board));
    assert_eq!(state.en_passant_square, None);
    assert_eq!(state.turn, Player::White);
    assert_eq!(state.castling_rights, before.castling_rights);
}

#[test]
fn change_turn_flips_the_side_to_move() {
    let mut state = State::new();
    state.change_turn();
    assert_eq!(state.turn, Player::Black);
    state.change_turn();
    assert_eq!(state.turn, Player::White);
}

#[test]
fn move_pieces_handles_the_special_moves() {
    let mut state = empty_state(Player::White, (7, 4), (0, 4));
    state.set_square(at(7, 7), Square::Occupied(Player::White, Piece::Rook));
    let before = state;
    let castle = Move::new(at(7, 4), at(7, 6), Some(SpecialMove::Castle), &state);
    state.move_pieces(castle);
    assert_eq!(state.get_square(at(7, 6)), Square::Occupied(Player::White, Piece::King));
    assert_eq!(state.get_square(at(7, 5)), Square::Occupied(Player::White, Piece::Rook));
    assert_eq!(state.get_square(at(7, 7)), Square::Empty);
    assert_eq!(state.white_king_location, at(7, 4));
    state.restore_pieces(castle, Player::Black);
    assert!(state.board.same_position(&before.board));

    state.set_square(at(3, 2), Square::Occupied(Player::White, Piece::Pawn));
    state.set_square(at(3, 1), Square::Occupied(Player::Black, Piece::Pawn));
    let before = state;
    let capture = Move::new(at(3, 2), at(2, 1), Some(SpecialMove::EnPassant), &state);
    state.move_pieces(capture);
    assert_eq!(state.get_square(at(3, 1)), Square::Empty);
    assert_eq!(state.get_square(at(2, 1)), Square::Occupied(Player::White, Piece::Pawn));
    state.restore_pieces(capture, Player::Black);
    assert!(state.board.same_position(&before.board));
}

#[test]
fn update_castle_rights_follows_kings_and_rooks() {
    let mut state = State::new();
    let rook_leaves = Move::new(at(7, 0), at(5, 0), None, &state);
    state.update_castle_rights(rook_leaves);
    assert_eq!(state.castling_rights, CastlingRights::new(true, false, true, true));
    let king_moves = Move::new(at(0, 4), at(1, 4), None, &state);
    state.update_castle_rights(king_moves);
    assert_eq!(state.castling_rights, CastlingRights::new(true, false, false, false));
    assert_eq!(state.black_king_location, at(1, 4));
    let rook_taken = Move::new(at(6, 6), at(7, 7), None, &state);
    state.update_castle_rights(rook_taken);
    assert_eq!(state.castling_rights, CastlingRights::new(false, false, false, false));
}

#[test]
fn only_kings_left_is_seen() {
    let mut state = empty_state(Player::White, (7, 4), (0, 4));
    assert!(state.only_kings_left());
    state.set_square(at(3, 3), Square::Occupied(Player::Black, Piece::Pawn));
    assert!(!state.only_kings_left());
    assert!(!State::new().only_kings_left());
}

#[test]
fn tally_counts_boards() {
    let mut tally = RepetitionTally::new();
    let start = Board::initial_position();
    let mut other = start;
    other.set_square(4, 4, Square::Occupied(Player::White, Piece::Pawn));
    assert_eq!(tally.get_count(&start), 0);
    assert!(!tally.has_threefold());
    tally.record(&start);
    tally.record(&other);
    tally.record(&start);
    assert_eq!(tally.get_count(&start), 2);
    assert_eq!(tally.get_count(&other), 1);
    assert!(!tally.has_threefold());
    tally.record(&start);
    assert_eq!(tally.get_count(&start), 3);
    assert!(tally.has_threefold());
    tally.forget(&start);
    assert_eq!(tally.get_count(&start), 2);
    assert_eq!(tally.get_count(&other), 1);
    assert!(!tally.has_threefold());
    tally.forget(&other);
    tally.forget(&other);
    assert_eq!(tally.get_count(&other), 0);
    assert_eq!(tally.get_count(&start), 2);
}

#[test]
fn pawn_attacks_the_squares_diagonally_ahead() {
    let mut state = empty_state(Player::White, (7, 4), (0, 4));
    state.set_square(at(4, 3), Square::Occupied(Player::Black, Piece::Pawn));
    // Black's pawn travels down the board: it attacks the two squares
    // diagonally below it, empty as they are, and not the square it steps to.
    assert!(state.under_attack(at(5, 2)));
    assert!(state.under_attack(at(5, 4)));
    assert!(!state.under_attack(at(5, 3)));
    assert!(!state.under_attack(at(6, 3)));
    assert!(!state.under_attack(at(3, 2)));
    assert!(!state.under_attack(at(3, 4)));
    assert!(state.attacked_by_pawn_from(at(5, 2), 1));
    assert!(!state.attacked_by_pawn_from(at(5, 2), -1));
    assert!(state.attacked_by_pawn_from(at(5, 4), -1));
    // A piece on the square changes nothing.
    state.set_square(at(5, 2), Square::Occupied(Player::White, Piece::Knight));
    assert!(state.under_attack(at(5, 2)));
    state.set_square(at(5, 4), Square::Occupied(Player::Black, Piece::Knight));
    assert!(state.under_attack(at(5, 4)));
    // White's own pawn attacks nothing for Black.
    state.set_square(at(4, 7), Square::Occupied(Player::White, Piece::Pawn));
    assert!(!state.under_attack(at(3, 6)));
    assert!(!state.under_attack(at(5, 6)));
    // With Black to move, White's pawn attacks upwards.
    state.change_turn();
    assert!(state.under_attack(at(3, 6)));
    assert!(!state.under_attack(at(3, 7)));
    assert!(!state.under_attack(at(5, 6)));
}

#[test]
fn pawn_attacks_at_the_edge_of_the_board() {
    let mut state = empty_state(Player::White, (7, 4), (0, 4));
    state.set_square(at(6, 0), Square::Occupied(Player::Black, Piece::Pawn));
    assert!(state.under_attack(at(7, 1)));
    assert!(!state.under_attack(at(7, 0)));
    state.set_square(at(6, 0), Square::Empty);
    state.set_square(at(6, 7), Square::Occupied(Player::Black, Piece::Pawn));
    assert!(state.under_attack(at(7, 6)));
    assert!(!state.under_attack(at(7, 7)));
    assert!(!state.under_attack(at(0, 0)));
}

#[test]
fn pawn_on_the_second_row_closes_the_castling_path() {
    let mut state = empty_state(Player::White, (7, 4), (0, 4));
    state.set_square(at(7, 0), Square::Occupied(Player::White, Piece::Rook));
    state.set_square(at(7, 7), Square::Occupied(Player::White, Piece::Rook));
    state.castling_rights = CastlingRights::new(true, true, false, false);
    // A pawn on e2 attacks d1 and f1: the king may cross neither.
    state.set_square(at(6, 4), Square::Occupied(Player::Black, Piece::Pawn));
    assert!(!state.in_check());
    let mut castles = Vec::new();
    state.generate_castling_moves(&mut castles);
    assert!(castles.is_empty());
    // A pawn on h2 attacks g1, where the king would land.
    state.set_square(at(6, 4), Square::Empty);
    state.set_square(at(6, 7), Square::Occupied(Player::Black, Piece::Pawn));
    let mut castles = Vec::new();
    state.generate_castling_moves(&mut castles);
    assert_eq!(ends(&castles), vec![(7, 2)]);
    // A pawn on a2 attacks b1 only, which the king does not cross.
    state.set_square(at(6, 7), Square::Empty);
    state.set_square(at(6, 0), Square::Occupied(Player::Black, Piece::Pawn));
    let mut castles = Vec::new();
    state.generate_castling_moves(&mut castles);
    assert_eq!(ends(&castles), vec![(7, 6), (7, 2)]);
    // A pawn on d2 gives check.
    state.set_square(at(6, 0), Square::Empty);
    state.set_square(at(6, 3), Square::Occupied(Player::Black, Piece::Pawn));
    assert!(state.in_check());
    let mut castles = Vec::new();
    state.generate_castling_moves(&mut castles);
    assert!(castles.is_empty());
}

#[test]
fn pawn_step_onto_the_castling_path_is_no_attack() {
    let mut state = empty_state(Player::Black, (7, 4), (0, 4));
    state.set_square(at(0, 0), Square::Occupied(Player::Black, Piece::Rook));
    state.castling_rights = CastlingRights::new(false, false, false, true);
    // White's pawn on b7 could step to b8 or capture on a8, and attacks a8
    // and c8; c8 is where the king lands.
    state.set_square(at(1, 1), Square::Occupied(Player::White, Piece::Pawn));
    let mut castles = Vec::new();
    state.generate_castling_moves(&mut castles);
    assert!(castles.is_empty());
    // On a7 it attacks b8 only and could step to nothing the king needs.
    state.set_square(at(1, 1), Square::Empty);
    state.set_square(at(1, 0), Square::Occupied(Player::White, Piece::Pawn));
    assert!(!state.under_attack(at(0, 0)));
    assert!(state.under_attack(at(0, 1)));
    let mut castles = Vec::new();
    state.generate_castling_moves(&mut castles);
    assert_eq!(ends(&castles), vec![(0, 2)]);
}
