use state::{
    interpret_click, needs_promotion_choice, next_scene, BoardCoordinates, ClickAction, GameState,
    Move, Scene,
};

fn at(row: usize, col: usize) -> BoardCoordinates {
    BoardCoordinates::new(row, col)
}

fn play(game: &mut GameState, from: (usize, usize), to: (usize, usize)) {
    let state = *game.get_state();
    let found = game
        .get_valid_moves()
        .iter()
        .find(|m| m.start == at(from.0, from.1) && m.end == at(to.0, to.1))
        .copied();
    match found {
        Some(m) => game.make_new_move(m),
        None => panic!("no legal move from {:?} to {:?}", from, to),
    }
    assert!(!state.board.same_position(&game.get_state().board));
}

#[test]
fn first_click_selects_a_piece_of_the_side_to_move() {
    let game = GameState::new();
    assert_eq!(interpret_click(&game, None, at(6, 4)), ClickAction::Select(at(6, 4)));
    assert_eq!(interpret_click(&game, None, at(1, 4)), ClickAction::Ignore);
    assert_eq!(interpret_click(&game, None, at(4, 4)), ClickAction::Ignore);
}

#[test]
fn second_click_moves_reselects_or_lets_go() {
    let game = GameState::new();
    let selected = Some(at(6, 4));
    assert_eq!(interpret_click(&game, selected, at(6, 4)), ClickAction::Deselect);
    assert_eq!(interpret_click(&game, selected, at(7, 6)), ClickAction::Select(at(7, 6)));
    assert_eq!(interpret_click(&game, selected, at(4, 4)), ClickAction::Attempt(at(6, 4), at(4, 4)));
    assert_eq!(interpret_click(&game, selected, at(1, 3)), ClickAction::Attempt(at(6, 4), at(1, 3)));
}

#[test]
fn clicks_follow_the_turn() {
    let mut game = GameState::new();
    play(&mut game, (6, 4), (4, 4));
    assert_eq!(interpret_click(&game, None, at(6, 3)), ClickAction::Ignore);
    assert_eq!(interpret_click(&game, None, at(1, 3)), ClickAction::Select(at(1, 3)));
}

#[test]
fn escape_leads_to_the_settings() {
    assert_eq!(next_scene(Scene::Game, Some(Scene::Game), true), (Some(Scene::Settings), false));
    assert_eq!(next_scene(Scene::GameOver, None, true), (Some(Scene::Settings), false));
}

#[test]
fn a_new_game_after_the_end_starts_afresh() {
    assert_eq!(next_scene(Scene::GameOver, Some(Scene::Game), false), (Some(Scene::Game), true));
    assert_eq!(next_scene(Scene::Settings, Some(Scene::Game), false), (Some(Scene::Game), false));
    assert_eq!(next_scene(Scene::Game, Some(Scene::Game), false), (Some(Scene::Game), false));
    assert_eq!(
        next_scene(Scene::Game, Some(Scene::GameOver), false),
        (Some(Scene::GameOver), false)
    );
    assert_eq!(next_scene(Scene::Settings, None, false), (None, false));
}

#[test]
fn promotion_choice_is_needed_on_the_last_row_only() {
    let mut game = GameState::new();
    assert!(!needs_promotion_choice(&game, at(6, 4), at(4, 4)));
    play(&mut game, (6, 7), (4, 7)); // h4
    play(&mut game, (1, 6), (3, 6)); // g5
    play(&mut game, (4, 7), (3, 6)); // hxg5
    play(&mut game, (1, 7), (2, 7)); // h6
    play(&mut game, (3, 6), (2, 7)); // gxh6
    play(&mut game, (1, 0), (2, 0)); // a6
    assert!(!needs_promotion_choice(&game, at(2, 7), at(1, 7)));
    play(&mut game, (2, 7), (1, 7)); // h7
    play(&mut game, (2, 0), (3, 0)); // a5
    assert!(needs_promotion_choice(&game, at(1, 7), at(0, 6)));
    // The rook on h8 blocks the step forward: no move, no choice.
    assert!(!needs_promotion_choice(&game, at(1, 7), at(0, 7)));
    assert!(!needs_promotion_choice(&game, at(7, 7), at(6, 7)));
    let state = *game.get_state();
    let plain = Move::new(at(1, 7), at(0, 6), None, &state);
    assert!(game.find_valid_move(&plain).is_none());
}
