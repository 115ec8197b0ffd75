use state::{Board, BoardCoordinates, CastlingRights, GameResult, Piece, Player, Square};

#[test]
fn coordinates_valid_coordinates() {
    for row in 0..=7 {
        for col in 0..=7 {
            let board_coordinates = BoardCoordinates::new(row, col);
            assert_eq!(row, board_coordinates.row());
            assert_eq!(col, board_coordinates.col());
        }
    }
}

#[test]
fn board_coordinates_valid_coordinates() {
    for r in 0..=7 {
        for c in 0..=7 {
            BoardCoordinates::new(r, c);
        }
    }
}

#[test]
fn coordinates_compare_by_row_and_column() {
    assert_eq!(BoardCoordinates::new(3, 4), BoardCoordinates::new(3, 4));
    assert_ne!(BoardCoordinates::new(3, 4), BoardCoordinates::new(4, 3));
}

#[test]
fn player_opponent_is_the_other_side() {
    assert_eq!(Player::White.opponent(), Player::Black);
    assert_eq!(Player::Black.opponent(), Player::White);
}

#[test]
fn square_color_is_the_owner_of_the_piece() {
    assert_eq!(Square::Empty.get_color(), None);
    assert_eq!(Square::Occupied(Player::White, Piece::Queen).get_color(), Some(Player::White));
    assert_eq!(Square::Occupied(Player::Black, Piece::Pawn).get_color(), Some(Player::Black));
}

#[test]
fn game_result_names() {
    assert_eq!(GameResult::Checkmate.to_str(), "Checkmate");
    assert_eq!(GameResult::Stalemate.to_str(), "Stalemate");
    assert_eq!(GameResult::DeadPosition.to_str(), "Dead Position");
    assert_eq!(GameResult::ThreefoldRepetition.to_str(), "Threefold Repetition");
    assert_eq!(GameResult::FiftyMoveRule.to_str(), "Fifty-move rule");
}

#[test]
fn castling_rights_start_complete_and_are_banned_one_by_one() {
    let mut rights = CastlingRights::default();
    assert!(rights.get_white_king_side());
    assert!(rights.get_white_queen_side());
    assert!(rights.get_black_king_side());
    assert!(rights.get_black_queen_side());

    rights.ban_white_king_side();
    assert_eq!(rights, CastlingRights::new(false, true, true, true));
    rights.ban_black_queen_side();
    assert_eq!(rights, CastlingRights::new(false, true, true, false));
    rights.ban_white_queen_side();
    assert_eq!(rights, CastlingRights::new(false, false, true, false));
    rights.ban_black_king_side();
    assert_eq!(rights, CastlingRights::new(false, false, false, false));
    rights.ban_black_king_side();
    assert_eq!(rights, CastlingRights::new(false, false, false, false));
}

#[test]
fn initial_board_layout() {
    let board = Board::initial_position();
    let back_rank = [
        Piece::Rook,
        Piece::Knight,
        Piece::Bishop,
        Piece::Queen,
        Piece::King,
        Piece::Bishop,
        Piece::Knight,
        Piece::Rook,
    ];
    for col in 0..8 {
        assert_eq!(board.get_square(0, col), Square::Occupied(Player::Black, back_rank[col]));
        assert_eq!(board.get_square(1, col), Square::Occupied(Player::Black, Piece::Pawn));
        for row in 2..6 {
            assert_eq!(board.get_square(row, col), Square::Empty);
        }
        assert_eq!(board.get_square(6, col), Square::Occupied(Player::White, Piece::Pawn));
        assert_eq!(board.get_square(7, col), Square::Occupied(Player::White, back_rank[col]));
    }
}

#[test]
fn board_set_square_changes_one_square() {
    let mut board = Board::initial_position();
    let before = board;
    board.set_square(4, 3, Square::Occupied(Player::White, Piece::Knight));
    assert_eq!(board.get_square(4, 3), Square::Occupied(Player::White, Piece::Knight));
    assert!(!board.same_position(&before));
    for row in 0..8 {
        for col in 0..8 {
            if (row, col) != (4, 3) {
                assert_eq!(board.get_square(row, col), before.get_square(row, col));
            }
        }
    }
    board.set_square(4, 3, Square::Empty);
    assert!(board.same_position(&before));
}
