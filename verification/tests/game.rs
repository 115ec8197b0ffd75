use state::{
    Board, BoardCoordinates, CastlingRights, GameResult, GameState, Move, Piece, Player,
    SpecialMove, Square, State,
};

fn at(row: usize, col: usize) -> BoardCoordinates {
    BoardCoordinates::new(row, col)
}

fn find(game: &GameState, from: (usize, usize), to: (usize, usize)) -> Option<Move> {
    for m in game.get_valid_moves() {
        if m.start == at(from.0, from.1) && m.end == at(to.0, to.1) {
            return Some(*m);
        }
    }
    None
}

fn play(game: &mut GameState, from: (usize, usize), to: (usize, usize)) {
    match find(game, from, to) {
        Some(m) => game.make_new_move(m),
        None => panic!("no legal move from {:?} to {:?}", from, to),
    }
}

fn board_of(game: &GameState) -> Board {
    game.get_state().board
}

struct Snapshot {
    board: Board,
    turn: Player,
    en_passant: Option<BoardCoordinates>,
    white_king: BoardCoordinates,
    black_king: BoardCoordinates,
    rights: CastlingRights,
    check: bool,
    result: Option<GameResult>,
    last_move: Option<Move>,
    valid_moves: Vec<Move>,
    halfmove: usize,
    fullmove: usize,
}

fn snapshot(game: &GameState) -> Snapshot {
    Snapshot {
        board: board_of(game),
        turn: game.get_turn(),
        en_passant: game.get_en_passant_square(),
        white_king: game.get_white_king_location(),
        black_king: game.get_black_king_location(),
        rights: game.get_castling_rights(),
        check: game.get_is_check(),
        result: game.get_game_result(),
        last_move: game.get_last_move(),
        valid_moves: game.get_valid_moves().clone(),
        halfmove: game.get_halfmove_clock(),
        fullmove: game.get_fullmove_clock(),
    }
}

fn same_moves(a: &Vec<Move>, b: &Vec<Move>) -> bool {
    a.len() == b.len()
        && a.iter().zip(b.iter()).all(|(x, y)| x == y && x.special_move == y.special_move)
}

fn assert_same(a: &Snapshot, b: &Snapshot) {
    assert!(a.board.same_position(&b.board));
    assert_eq!(a.turn, b.turn);
    assert_eq!(a.en_passant, b.en_passant);
    assert_eq!(a.white_king, b.white_king);
    assert_eq!(a.black_king, b.black_king);
    assert_eq!(a.rights, b.rights);
    assert_eq!(a.check, b.check);
    assert_eq!(a.result, b.result);
    assert_eq!(a.last_move.is_some(), b.last_move.is_some());
    if let (Some(x), Some(y)) = (a.last_move, b.last_move) {
        assert!(x == y && x.special_move == y.special_move);
    }
    assert!(same_moves(&a.valid_moves, &b.valid_moves));
    assert_eq!(a.halfmove, b.halfmove);
    assert_eq!(a.fullmove, b.fullmove);
}

fn assert_round_trips(game: &mut GameState) {
    let before = snapshot(game);
    let moves = game.get_valid_moves().clone();
    for m in moves {
        game.make_new_move(m);
        let last = game.get_last_move().unwrap();
        assert!(last == m && last.special_move == m.special_move);
        game.undo_last_move();
        assert_same(&before, &snapshot(game));
    }
}

fn assert_mover_is_safe(game: &mut GameState) {
    let moves = game.get_valid_moves().clone();
    let mover = game.get_turn();
    for m in moves {
        game.make_new_move(m);
        let mut probe: State = *game.get_state();
        let king = probe.get_king_location(mover);
        assert_eq!(probe.get_square(king), Square::Occupied(mover, Piece::King));
        probe.change_turn();
        assert!(!probe.under_attack(king));
        game.undo_last_move();
    }
}

#[test]
fn new_game_has_twenty_legal_moves() {
    let game = GameState::new();
    let moves = game.get_valid_moves();
    assert_eq!(moves.len(), 20);
    let pawn_moves = moves
        .iter()
        .filter(|m| m.piece_moved == Square::Occupied(Player::White, Piece::Pawn))
        .count();
    let knight_moves = moves
        .iter()
        .filter(|m| m.piece_moved == Square::Occupied(Player::White, Piece::Knight))
        .count();
    assert_eq!(pawn_moves, 16);
    assert_eq!(knight_moves, 4);
    assert!(moves.iter().all(|m| m.special_move.is_none()));
    assert!(moves.iter().all(|m| m.piece_captured == Square::Empty));
}

#[test]
fn new_game_starts_with_white_and_nothing_decided() {
    let game = GameState::new();
    assert_eq!(game.get_turn(), Player::White);
    assert!(!game.get_is_check());
    assert!(!game.is_game_over());
    assert_eq!(game.get_game_result(), None);
    assert!(game.get_last_move().is_none());
    assert_eq!(game.get_en_passant_square(), None);
    assert_eq!(game.get_white_king_location(), at(7, 4));
    assert_eq!(game.get_black_king_location(), at(0, 4));
    assert_eq!(game.get_castling_rights(), CastlingRights::new(true, true, true, true));
    assert_eq!(game.get_halfmove_clock(), 0);
    assert_eq!(game.get_fullmove_clock(), 1);
    assert!(board_of(&game).same_position(&Board::initial_position()));
    assert_eq!(game.get_square(at(7, 3)), Square::Occupied(Player::White, Piece::Queen));
    assert_eq!(game.get_square(at(0, 4)), Square::Occupied(Player::Black, Piece::King));
    assert_eq!(game.get_square(at(4, 4)), Square::Empty);
}

#[test]
fn default_game_is_a_new_game() {
    let game = GameState::default();
    assert_eq!(game.get_valid_moves().len(), 20);
    assert_eq!(game.get_turn(), Player::White);
}

#[test]
fn moves_listed_square_by_square() {
    let game = GameState::new();
    let moves = game.get_valid_moves();
    // The pawns on row 6 come first, column by column, each with its
    // single step before its double step; then the knights on row 7.
    assert_eq!(moves[0].start, at(6, 0));
    assert_eq!(moves[0].end, at(5, 0));
    assert_eq!(moves[1].start, at(6, 0));
    assert_eq!(moves[1].end, at(4, 0));
    assert_eq!(moves[15].start, at(6, 7));
    assert_eq!(moves[15].end, at(4, 7));
    assert_eq!(moves[16].start, at(7, 1));
    assert_eq!(moves[16].end, at(5, 2));
    assert_eq!(moves[17].start, at(7, 1));
    assert_eq!(moves[17].end, at(5, 0));
    assert_eq!(moves[18].start, at(7, 6));
    assert_eq!(moves[18].end, at(5, 7));
    assert_eq!(moves[19].start, at(7, 6));
    assert_eq!(moves[19].end, at(5, 5));
}

#[test]
fn a_move_changes_the_board_and_the_turn() {
    let mut game = GameState::new();
    play(&mut game, (6, 4), (4, 4));
    assert_eq!(game.get_turn(), Player::Black);
    assert_eq!(game.get_square(at(6, 4)), Square::Empty);
    assert_eq!(game.get_square(at(4, 4)), Square::Occupied(Player::White, Piece::Pawn));
    assert_eq!(game.get_valid_moves().len(), 20);
    assert_eq!(game.get_fullmove_clock(), 1);
    let last = game.get_last_move().unwrap();
    assert_eq!(last.start, at(6, 4));
    assert_eq!(last.end, at(4, 4));
    assert_eq!(last.piece_moved, Square::Occupied(Player::White, Piece::Pawn));
    assert_eq!(last.piece_captured, Square::Empty);
    play(&mut game, (1, 4), (3, 4));
    assert_eq!(game.get_turn(), Player::White);
    assert_eq!(game.get_fullmove_clock(), 2);
    // The king's pawn is blocked; bishop, queen, king and knight gained moves.
    assert_eq!(game.get_valid_moves().len(), 29);
}

#[test]
fn fools_mate_is_checkmate() {
    let mut game = GameState::new();
    play(&mut game, (6, 5), (5, 5));
    play(&mut game, (1, 4), (3, 4));
    play(&mut game, (6, 6), (4, 6));
    assert_eq!(game.get_game_result(), None);
    play(&mut game, (0, 3), (4, 7));
    assert!(game.get_valid_moves().is_empty());
    assert!(game.get_is_check());
    assert_eq!(game.get_game_result(), Some(GameResult::Checkmate));
    assert!(game.is_game_over());
    assert_eq!(game.get_turn(), Player::White);
}

#[test]
fn undo_after_checkmate_reopens_the_game() {
    let mut game = GameState::new();
    play(&mut game, (6, 5), (5, 5));
    play(&mut game, (1, 4), (3, 4));
    play(&mut game, (6, 6), (4, 6));
    let before = snapshot(&game);
    play(&mut game, (0, 3), (4, 7));
    game.undo_last_move();
    assert_same(&before, &snapshot(&game));
    assert_eq!(game.get_game_result(), None);
    assert!(!game.get_is_check());
}

#[test]
fn shortest_stalemate() {
    let mut game = GameState::new();
    play(&mut game, (6, 4), (5, 4)); // e3
    play(&mut game, (1, 0), (3, 0)); // a5
    play(&mut game, (7, 3), (3, 7)); // Qh5
    play(&mut game, (0, 0), (2, 0)); // Ra6
    play(&mut game, (3, 7), (3, 0)); // Qxa5
    play(&mut game, (1, 7), (3, 7)); // h5
    play(&mut game, (6, 7), (4, 7)); // h4
    play(&mut game, (2, 0), (2, 7)); // Rah6
    play(&mut game, (3, 0), (1, 2)); // Qxc7
    play(&mut game, (1, 5), (2, 5)); // f6
    play(&mut game, (1, 2), (1, 3)); // Qxd7+
    assert!(game.get_is_check());
    play(&mut game, (0, 4), (1, 5)); // Kf7
    play(&mut game, (1, 3), (1, 1)); // Qxb7
    play(&mut game, (0, 3), (5, 3)); // Qd3
    play(&mut game, (1, 1), (0, 1)); // Qxb8
    play(&mut game, (5, 3), (1, 7)); // Qh7
    play(&mut game, (0, 1), (0, 2)); // Qxc8
    play(&mut game, (1, 5), (2, 6)); // Kg6
    assert_eq!(game.get_game_result(), None);
    play(&mut game, (0, 2), (2, 4)); // Qe6
    assert!(game.get_valid_moves().is_empty());
    assert!(!game.get_is_check());
    assert_eq!(game.get_game_result(), Some(GameResult::Stalemate));
    assert!(game.is_game_over());
    assert_eq!(game.get_turn(), Player::Black);
}

#[test]
fn en_passant_square_lasts_one_move() {
    let mut game = GameState::new();
    assert_eq!(game.get_en_passant_square(), None);
    play(&mut game, (6, 4), (4, 4));
    assert_eq!(game.get_en_passant_square(), Some(at(5, 4)));
    play(&mut game, (0, 6), (2, 5));
    assert_eq!(game.get_en_passant_square(), None);
    play(&mut game, (7, 6), (5, 5));
    assert_eq!(game.get_en_passant_square(), None);
    play(&mut game, (1, 3), (3, 3));
    assert_eq!(game.get_en_passant_square(), Some(at(2, 3)));
    play(&mut game, (6, 0), (5, 0));
    assert_eq!(game.get_en_passant_square(), None);
    play(&mut game, (1, 0), (2, 0));
    assert_eq!(game.get_en_passant_square(), None);
}

#[test]
fn en_passant_square_comes_back_with_undo() {
    let mut game = GameState::new();
    play(&mut game, (6, 4), (4, 4));
    play(&mut game, (0, 6), (2, 5));
    assert_eq!(game.get_en_passant_square(), None);
    game.undo_last_move();
    assert_eq!(game.get_en_passant_square(), Some(at(5, 4)));
    game.undo_last_move();
    assert_eq!(game.get_en_passant_square(), None);
}

#[test]
fn en_passant_capture_takes_the_pawn_beside() {
    let mut game = GameState::new();
    play(&mut game, (6, 4), (4, 4)); // e4
    play(&mut game, (1, 0), (2, 0)); // a6
    play(&mut game, (4, 4), (3, 4)); // e5
    play(&mut game, (1, 3), (3, 3)); // d5
    assert_eq!(game.get_en_passant_square(), Some(at(2, 3)));
    let capture = find(&game, (3, 4), (2, 3)).unwrap();
    assert_eq!(capture.special_move, Some(SpecialMove::EnPassant));
    assert_eq!(capture.piece_captured, Square::Empty);
    let before = snapshot(&game);
    game.make_new_move(capture);
    assert_eq!(game.get_square(at(2, 3)), Square::Occupied(Player::White, Piece::Pawn));
    assert_eq!(game.get_square(at(3, 3)), Square::Empty);
    assert_eq!(game.get_square(at(3, 4)), Square::Empty);
    assert_eq!(game.get_halfmove_clock(), 0);
    game.undo_last_move();
    assert_eq!(game.get_square(at(3, 3)), Square::Occupied(Player::Black, Piece::Pawn));
    assert_eq!(game.get_square(at(3, 4)), Square::Occupied(Player::White, Piece::Pawn));
    assert_eq!(game.get_square(at(2, 3)), Square::Empty);
    assert_same(&before, &snapshot(&game));
}

#[test]
fn en_passant_is_gone_after_another_move() {
    let mut game = GameState::new();
    play(&mut game, (6, 4), (4, 4)); // e4
    play(&mut game, (1, 0), (2, 0)); // a6
    play(&mut game, (4, 4), (3, 4)); // e5
    play(&mut game, (1, 3), (3, 3)); // d5
    play(&mut game, (6, 0), (5, 0)); // a3
    play(&mut game, (2, 0), (3, 0)); // a5
    assert!(find(&game, (3, 4), (2, 3)).is_none());
}

#[test]
fn promotion_offers_four_pieces() {
    let mut game = GameState::new();
    play(&mut game, (6, 7), (4, 7)); // h4
    play(&mut game, (1, 6), (3, 6)); // g5
    play(&mut game, (4, 7), (3, 6)); // hxg5
    play(&mut game, (1, 7), (2, 7)); // h6
    play(&mut game, (3, 6), (2, 7)); // gxh6
    play(&mut game, (1, 0), (2, 0)); // a6
    play(&mut game, (2, 7), (1, 7)); // h7
    play(&mut game, (2, 0), (3, 0)); // a5
    let promotions: Vec<Move> = game
        .get_valid_moves()
        .iter()
        .filter(|m| m.start == at(1, 7) && m.end == at(0, 6))
        .copied()
        .collect();
    assert_eq!(promotions.len(), 4);
    let pieces = [Piece::Queen, Piece::Rook, Piece::Bishop, Piece::Knight];
    for (m, piece) in promotions.iter().zip(pieces.iter()) {
        assert_eq!(
            m.special_move,
            Some(SpecialMove::PawnPromotion(Square::Occupied(Player::White, *piece)))
        );
        assert_eq!(m.piece_captured, Square::Occupied(Player::Black, Piece::Knight));
    }
    assert!(promotions[0] != promotions[1]);
    assert!(promotions[3] == promotions[3]);
    // The rook on h8 stands in the pawn's way: it cannot step forward.
    assert!(find(&game, (1, 7), (0, 7)).is_none());

    let before = snapshot(&game);
    game.make_new_move(promotions[3]);
    assert_eq!(game.get_square(at(0, 6)), Square::Occupied(Player::White, Piece::Knight));
    assert_eq!(game.get_square(at(1, 7)), Square::Empty);
    assert_eq!(game.get_halfmove_clock(), 0);
    game.undo_last_move();
    assert_eq!(game.get_square(at(0, 6)), Square::Occupied(Player::Black, Piece::Knight));
    assert_eq!(game.get_square(at(1, 7)), Square::Occupied(Player::White, Piece::Pawn));
    assert_same(&before, &snapshot(&game));

    game.make_new_move(promotions[0]);
    assert_eq!(game.get_square(at(0, 6)), Square::Occupied(Player::White, Piece::Queen));
}

fn open_white_king_side(game: &mut GameState) {
    play(game, (6, 4), (4, 4)); // e4
    play(game, (1, 4), (3, 4)); // e5
    play(game, (7, 6), (5, 5)); // Nf3
    play(game, (0, 1), (2, 2)); // Nc6
    play(game, (7, 5), (4, 2)); // Bc4
    play(game, (0, 5), (3, 2)); // Bc5
}

#[test]
fn castling_king_side_moves_king_and_rook() {
    let mut game = GameState::new();
    assert!(find(&game, (7, 4), (7, 6)).is_none());
    open_white_king_side(&mut game);
    let castle = find(&game, (7, 4), (7, 6)).unwrap();
    assert_eq!(castle.special_move, Some(SpecialMove::Castle));
    assert_eq!(castle.piece_moved, Square::Occupied(Player::White, Piece::King));
    assert!(find(&game, (7, 4), (7, 2)).is_none());
    let before = snapshot(&game);
    game.make_new_move(castle);
    assert_eq!(game.get_square(at(7, 6)), Square::Occupied(Player::White, Piece::King));
    assert_eq!(game.get_square(at(7, 5)), Square::Occupied(Player::White, Piece::Rook));
    assert_eq!(game.get_square(at(7, 4)), Square::Empty);
    assert_eq!(game.get_square(at(7, 7)), Square::Empty);
    assert_eq!(game.get_white_king_location(), at(7, 6));
    assert_eq!(game.get_castling_rights(), CastlingRights::new(false, false, true, true));
    assert_eq!(game.get_halfmove_clock(), before.halfmove + 1);
    game.undo_last_move();
    assert_eq!(game.get_white_king_location(), at(7, 4));
    assert_same(&before, &snapshot(&game));
}

#[test]
fn castling_is_lost_once_the_king_has_moved() {
    let mut game = GameState::new();
    open_white_king_side(&mut game);
    play(&mut game, (7, 4), (6, 4)); // Ke2
    assert_eq!(game.get_castling_rights(), CastlingRights::new(false, false, true, true));
    play(&mut game, (1, 0), (2, 0)); // a6
    play(&mut game, (6, 4), (7, 4)); // Ke1
    play(&mut game, (2, 0), (3, 0)); // a5
    assert_eq!(game.get_white_king_location(), at(7, 4));
    assert!(find(&game, (7, 4), (7, 6)).is_none());
}

#[test]
fn castling_is_lost_once_the_rook_has_moved() {
    let mut game = GameState::new();
    open_white_king_side(&mut game);
    play(&mut game, (7, 7), (7, 6)); // Rg1
    assert_eq!(game.get_castling_rights(), CastlingRights::new(false, true, true, true));
    play(&mut game, (1, 0), (2, 0)); // a6
    play(&mut game, (7, 6), (7, 7)); // Rh1
    play(&mut game, (2, 0), (3, 0)); // a5
    assert!(find(&game, (7, 4), (7, 6)).is_none());
}

#[test]
fn castling_needs_a_safe_path() {
    let mut game = GameState::new();
    play(&mut game, (6, 4), (4, 4)); // e4
    play(&mut game, (1, 1), (2, 1)); // b6
    play(&mut game, (7, 6), (5, 5)); // Nf3
    play(&mut game, (0, 2), (2, 0)); // Ba6: the bishop looks at f1 along the diagonal
    play(&mut game, (6, 6), (5, 6)); // g3
    play(&mut game, (1, 7), (2, 7)); // h6
    play(&mut game, (7, 5), (6, 6)); // Bg2
    play(&mut game, (2, 7), (3, 7)); // h5
    // f1 and g1 are empty, the right is there, but f1 is attacked.
    assert_eq!(game.get_square(at(7, 5)), Square::Empty);
    assert_eq!(game.get_square(at(7, 6)), Square::Empty);
    assert!(game.get_castling_rights().get_white_king_side());
    assert!(!game.get_is_check());
    let state = *game.get_state();
    assert!(state.under_attack(at(7, 5)));
    assert!(!state.under_attack(at(7, 6)));
    assert!(find(&game, (7, 4), (7, 6)).is_none());
    play(&mut game, (6, 3), (5, 3)); // d3: the pawn closes the diagonal
    play(&mut game, (3, 7), (4, 7)); // h4
    let state = *game.get_state();
    assert!(!state.under_attack(at(7, 5)));
    let castle = find(&game, (7, 4), (7, 6)).unwrap();
    assert_eq!(castle.special_move, Some(SpecialMove::Castle));
}

#[test]
fn no_castling_out_of_check() {
    let mut game = GameState::new();
    open_white_king_side(&mut game);
    assert!(find(&game, (7, 4), (7, 6)).is_some());
    play(&mut game, (6, 0), (5, 0)); // a3
    play(&mut game, (3, 2), (6, 5)); // Bxf2+
    assert!(game.get_is_check());
    assert!(game.get_castling_rights().get_white_king_side());
    assert!(find(&game, (7, 4), (7, 6)).is_none());
    // The king takes the bishop or steps aside.
    assert_eq!(game.get_valid_moves().len(), 3);
    assert!(find(&game, (7, 4), (6, 5)).is_some());
    assert!(find(&game, (7, 4), (6, 4)).is_some());
    assert!(find(&game, (7, 4), (7, 5)).is_some());
}

#[test]
fn black_castles_queen_side() {
    let mut game = GameState::new();
    play(&mut game, (6, 4), (4, 4)); // e4
    play(&mut game, (1, 3), (2, 3)); // d6
    play(&mut game, (6, 3), (4, 3)); // d4
    play(&mut game, (0, 2), (2, 4)); // Be6
    play(&mut game, (6, 0), (5, 0)); // a3
    play(&mut game, (0, 3), (1, 3)); // Qd7
    play(&mut game, (6, 1), (5, 1)); // b3
    play(&mut game, (0, 1), (2, 2)); // Nc6
    play(&mut game, (6, 2), (5, 2)); // c3
    let castle = find(&game, (0, 4), (0, 2)).unwrap();
    assert_eq!(castle.special_move, Some(SpecialMove::Castle));
    let before = snapshot(&game);
    game.make_new_move(castle);
    assert_eq!(game.get_square(at(0, 2)), Square::Occupied(Player::Black, Piece::King));
    assert_eq!(game.get_square(at(0, 3)), Square::Occupied(Player::Black, Piece::Rook));
    assert_eq!(game.get_square(at(0, 0)), Square::Empty);
    assert_eq!(game.get_square(at(0, 4)), Square::Empty);
    assert_eq!(game.get_black_king_location(), at(0, 2));
    assert_eq!(game.get_castling_rights(), CastlingRights::new(true, true, false, false));
    assert_eq!(game.get_fullmove_clock(), 6);
    game.undo_last_move();
    assert_same(&before, &snapshot(&game));
}

#[test]
fn capturing_a_rook_in_its_corner_ends_that_right() {
    let mut game = GameState::new();
    play(&mut game, (6, 6), (5, 6)); // g3
    play(&mut game, (1, 1), (2, 1)); // b6
    play(&mut game, (7, 5), (6, 6)); // Bg2
    play(&mut game, (0, 1), (2, 2)); // Nc6
    play(&mut game, (6, 6), (2, 2)); // Bxc6
    play(&mut game, (1, 0), (2, 0)); // a6
    play(&mut game, (2, 2), (0, 0)); // Bxa8
    assert_eq!(game.get_castling_rights(), CastlingRights::new(true, true, true, false));
    game.undo_last_move();
    assert_eq!(game.get_castling_rights(), CastlingRights::new(true, true, true, true));
}

#[test]
fn every_move_can_be_taken_back() {
    let mut game = GameState::new();
    assert_round_trips(&mut game);
    open_white_king_side(&mut game);
    assert_round_trips(&mut game);
    play(&mut game, (7, 4), (7, 6));
    assert_round_trips(&mut game);
    play(&mut game, (0, 6), (2, 5));
    assert_round_trips(&mut game);
}

#[test]
fn no_legal_move_leaves_the_own_king_attacked() {
    let mut game = GameState::new();
    assert_mover_is_safe(&mut game);
    play(&mut game, (6, 4), (4, 4)); // e4
    play(&mut game, (1, 5), (2, 5)); // f6
    play(&mut game, (7, 3), (3, 7)); // Qh5+
    assert!(game.get_is_check());
    // Only the pawn can step between queen and king.
    assert_eq!(game.get_valid_moves().len(), 1);
    assert!(find(&game, (1, 6), (2, 6)).is_some());
    assert_mover_is_safe(&mut game);
    play(&mut game, (1, 6), (2, 6));
    assert_mover_is_safe(&mut game);
}

#[test]
fn a_pinned_piece_may_not_leave_the_line() {
    let mut game = GameState::new();
    play(&mut game, (6, 4), (4, 4)); // e4
    play(&mut game, (1, 4), (3, 4)); // e5
    play(&mut game, (7, 3), (3, 7)); // Qh5
    play(&mut game, (0, 1), (2, 2)); // Nc6
    play(&mut game, (3, 7), (3, 4)); // Qxe5+
    assert!(game.get_is_check());
    play(&mut game, (0, 3), (1, 4)); // Qe7
    play(&mut game, (6, 0), (5, 0)); // a3
    // The queen on e7 shields the king from the queen on e5.
    assert!(find(&game, (1, 4), (3, 4)).is_some());
    assert!(find(&game, (1, 4), (2, 3)).is_none());
    assert!(find(&game, (1, 4), (4, 1)).is_none());
}

#[test]
fn undo_with_no_move_made_changes_nothing() {
    let mut game = GameState::new();
    let before = snapshot(&game);
    game.undo_last_move();
    assert_same(&before, &snapshot(&game));
    assert!(game.get_last_move().is_none());
}

#[test]
fn restart_returns_to_the_start() {
    let mut game = GameState::new();
    let start = snapshot(&game);
    play(&mut game, (6, 5), (5, 5));
    play(&mut game, (1, 4), (3, 4));
    play(&mut game, (6, 6), (4, 6));
    play(&mut game, (0, 3), (4, 7));
    assert!(game.is_game_over());
    game.restart();
    assert_same(&start, &snapshot(&game));
    game.undo_last_move();
    assert_same(&start, &snapshot(&game));
}

#[test]
fn third_occurrence_of_a_board_is_a_draw() {
    let mut game = GameState::new();
    for round in 0..2 {
        play(&mut game, (7, 6), (5, 5)); // Nf3
        assert_eq!(game.get_game_result(), None);
        play(&mut game, (0, 6), (2, 5)); // Nf6
        assert_eq!(game.get_game_result(), None);
        play(&mut game, (5, 5), (7, 6)); // Ng1
        assert_eq!(game.get_game_result(), None);
        play(&mut game, (2, 5), (0, 6)); // Ng8
        assert_eq!(game.get_game_result(), None);
        assert_eq!(game.get_halfmove_clock(), 4 * (round + 1));
    }
    play(&mut game, (7, 6), (5, 5)); // the board after Nf3, for the third time
    assert_eq!(game.get_game_result(), Some(GameResult::ThreefoldRepetition));
    assert!(game.is_game_over());
    assert_eq!(game.get_valid_moves().len(), 20);

    game.undo_last_move();
    assert_eq!(game.get_game_result(), None);
    play(&mut game, (7, 1), (5, 2)); // Nc3 instead: a new board
    assert_eq!(game.get_game_result(), None);
    game.undo_last_move();
    play(&mut game, (7, 6), (5, 5));
    assert_eq!(game.get_game_result(), Some(GameResult::ThreefoldRepetition));
}

#[test]
fn restart_forgets_the_boards_seen() {
    let mut game = GameState::new();
    for _ in 0..2 {
        play(&mut game, (7, 6), (5, 5));
        play(&mut game, (0, 6), (2, 5));
        play(&mut game, (5, 5), (7, 6));
        play(&mut game, (2, 5), (0, 6));
    }
    game.restart();
    play(&mut game, (7, 6), (5, 5));
    assert_eq!(game.get_game_result(), None);
}

fn is_quiet(m: &Move) -> bool {
    m.special_move.is_none()
        && m.piece_captured == Square::Empty
        && m.piece_moved != Square::Occupied(Player::White, Piece::Pawn)
        && m.piece_moved != Square::Occupied(Player::Black, Piece::Pawn)
}

// Plays `plies` quiet moves, each leading to a board not seen before.
fn play_quiet_plies(game: &mut GameState, seen: &mut Vec<Board>, plies: usize) {
    for _ in 0..plies {
        let clock = game.get_halfmove_clock();
        let moves = game.get_valid_moves().clone();
        let mut played = false;
        for m in moves.iter().filter(|m| is_quiet(m)) {
            game.make_new_move(*m);
            let board = board_of(game);
            if seen.iter().all(|b| !b.same_position(&board)) {
                seen.push(board);
                played = true;
                break;
            }
            game.undo_last_move();
        }
        assert!(played);
        assert_eq!(game.get_halfmove_clock(), clock + 1);
    }
}

#[test]
fn fifty_quiet_moves_by_each_side_are_a_draw() {
    let mut game = GameState::new();
    let mut seen = vec![board_of(&game)];
    play_quiet_plies(&mut game, &mut seen, 99);
    assert_eq!(game.get_halfmove_clock(), 99);
    assert_eq!(game.get_fullmove_clock(), 50);
    assert_eq!(game.get_game_result(), None);
    play_quiet_plies(&mut game, &mut seen, 1);
    assert_eq!(game.get_halfmove_clock(), 100);
    assert_eq!(game.get_fullmove_clock(), 51);
    assert_eq!(game.get_game_result(), Some(GameResult::FiftyMoveRule));
    assert!(game.is_game_over());

    game.undo_last_move();
    assert_eq!(game.get_halfmove_clock(), 99);
    assert_eq!(game.get_game_result(), None);
}

#[test]
fn a_pawn_move_or_a_capture_resets_the_clock() {
    let mut game = GameState::new();
    play(&mut game, (7, 6), (5, 5)); // Nf3
    assert_eq!(game.get_halfmove_clock(), 1);
    play(&mut game, (0, 6), (2, 5)); // Nf6
    assert_eq!(game.get_halfmove_clock(), 2);
    play(&mut game, (5, 5), (3, 4)); // Ne5
    assert_eq!(game.get_halfmove_clock(), 3);
    play(&mut game, (1, 3), (2, 3)); // d6: a pawn move
    assert_eq!(game.get_halfmove_clock(), 0);
    play(&mut game, (7, 1), (5, 2)); // Nc3
    assert_eq!(game.get_halfmove_clock(), 1);
    play(&mut game, (2, 3), (3, 4)); // dxe5: a capture
    assert_eq!(game.get_halfmove_clock(), 0);
    play(&mut game, (5, 2), (3, 3)); // Nd5
    assert_eq!(game.get_halfmove_clock(), 1);
    play(&mut game, (2, 5), (3, 3)); // Nxd5: a capture by a piece
    assert_eq!(game.get_halfmove_clock(), 0);
    game.undo_last_move();
    assert_eq!(game.get_halfmove_clock(), 1);
    game.undo_last_move();
    assert_eq!(game.get_halfmove_clock(), 0);
    game.undo_last_move();
    assert_eq!(game.get_halfmove_clock(), 1);
    game.undo_last_move();
    assert_eq!(game.get_halfmove_clock(), 0);
    game.undo_last_move();
    assert_eq!(game.get_halfmove_clock(), 3);
}

#[test]
fn quiet_moves_past_the_limit_keep_the_draw() {
    let mut game = GameState::new();
    let mut seen = vec![board_of(&game)];
    play_quiet_plies(&mut game, &mut seen, 101);
    assert_eq!(game.get_halfmove_clock(), 101);
    assert_eq!(game.get_game_result(), Some(GameResult::FiftyMoveRule));
}

#[test]
fn find_valid_move_gives_the_move_on_the_list() {
    let mut game = GameState::new();
    open_white_king_side(&mut game);
    let state = *game.get_state();
    // A move made up from two squares finds the castling move on the list.
    let candidate = Move::new(at(7, 4), at(7, 6), None, &state);
    assert_eq!(candidate.special_move, None);
    let found = game.find_valid_move(&candidate).unwrap();
    assert_eq!(found.special_move, Some(SpecialMove::Castle));
    assert!(found == candidate);
    // No legal move goes from e1 to e3.
    let candidate = Move::new(at(7, 4), at(5, 4), None, &state);
    assert!(game.find_valid_move(&candidate).is_none());
    // A move with a wrong record of the pieces is not on the list.
    let mut candidate = Move::new(at(6, 0), at(5, 0), None, &state);
    assert!(game.find_valid_move(&candidate).is_some());
    candidate.piece_captured = Square::Occupied(Player::Black, Piece::Pawn);
    assert!(game.find_valid_move(&candidate).is_none());
}

#[test]
fn try_move_makes_legal_moves_only() {
    let mut game = GameState::new();
    let state = *game.get_state();
    let before = snapshot(&game);
    assert!(!game.try_move(Move::new(at(6, 4), at(3, 4), None, &state)));
    assert!(!game.try_move(Move::new(at(1, 4), at(2, 4), None, &state)));
    assert!(!game.try_move(Move::new(at(7, 0), at(5, 0), None, &state)));
    assert_same(&before, &snapshot(&game));
    assert!(game.try_move(Move::new(at(6, 4), at(4, 4), None, &state)));
    assert_eq!(game.get_turn(), Player::Black);
    assert_eq!(game.get_square(at(4, 4)), Square::Occupied(Player::White, Piece::Pawn));
    assert_eq!(game.get_en_passant_square(), Some(at(5, 4)));
    let last = game.get_last_move().unwrap();
    assert_eq!((last.start, last.end), (at(6, 4), at(4, 4)));
}

#[test]
fn try_move_needs_the_promotion_choice() {
    let mut game = GameState::new();
    play(&mut game, (6, 7), (4, 7)); // h4
    play(&mut game, (1, 6), (3, 6)); // g5
    play(&mut game, (4, 7), (3, 6)); // hxg5
    play(&mut game, (1, 7), (2, 7)); // h6
    play(&mut game, (3, 6), (2, 7)); // gxh6
    play(&mut game, (1, 0), (2, 0)); // a6
    play(&mut game, (2, 7), (1, 7)); // h7
    play(&mut game, (2, 0), (3, 0)); // a5
    let state = *game.get_state();
    let plain = Move::new(at(1, 7), at(0, 6), None, &state);
    assert!(!game.try_move(plain));
    let as_king = Move::new(
        at(1, 7),
        at(0, 6),
        Some(SpecialMove::PawnPromotion(Square::Occupied(Player::White, Piece::King))),
        &state,
    );
    assert!(!game.try_move(as_king));
    let as_rook = Move::new(
        at(1, 7),
        at(0, 6),
        Some(SpecialMove::PawnPromotion(Square::Occupied(Player::White, Piece::Rook))),
        &state,
    );
    assert!(game.try_move(as_rook));
    assert_eq!(game.get_square(at(0, 6)), Square::Occupied(Player::White, Piece::Rook));
}

#[test]
fn legal_moves_are_listed_once() {
    let mut game = GameState::new();
    open_white_king_side(&mut game);
    let moves = game.get_valid_moves();
    for (i, a) in moves.iter().enumerate() {
        for b in moves.iter().skip(i + 1) {
            assert!(a != b);
        }
    }
}

#[test]
fn no_castling_across_a_square_that_a_pawn_attacks() {
    let mut game = GameState::new();
    play(&mut game, (6, 6), (5, 6)); // g3
    play(&mut game, (1, 3), (3, 3)); // d5
    play(&mut game, (7, 5), (6, 6)); // Bg2
    play(&mut game, (3, 3), (4, 3)); // d4
    play(&mut game, (7, 6), (5, 5)); // Nf3
    play(&mut game, (4, 3), (5, 3)); // d3
    // Nothing attacks f1 or g1 yet: castling is open.
    assert!(find(&game, (7, 4), (7, 6)).is_some());
    play(&mut game, (6, 0), (5, 0)); // a3
    play(&mut game, (5, 3), (6, 4)); // dxe2: the pawn attacks d1 and the empty f1
    assert!(!game.get_is_check());
    assert_eq!(game.get_square(at(7, 5)), Square::Empty);
    assert_eq!(game.get_square(at(7, 6)), Square::Empty);
    assert!(game.get_castling_rights().get_white_king_side());
    let state = *game.get_state();
    assert!(state.under_attack(at(7, 5)));
    assert!(!state.under_attack(at(7, 6)));
    assert!(!state.under_attack(at(7, 4)));
    assert!(game
        .get_valid_moves()
        .iter()
        .all(|m| m.special_move != Some(SpecialMove::Castle)));
    // Once the pawn is taken the way is free again.
    play(&mut game, (7, 3), (6, 4)); // Qxe2
    play(&mut game, (1, 0), (2, 0)); // a6
    assert!(find(&game, (7, 4), (7, 6)).is_some());
}
