//! Decisions of a program that shows a game: clicks, promotions and scenes.

use vstd::prelude::*;
use crate::coordinates::BoardCoordinates;
use crate::game::position_after;
use crate::game_state::GameState;
use crate::moves::Move;
use crate::player::Player;
use crate::square::Square;

verus! {

/// The screens of a program that shows a game.
#[derive(Copy, Clone, PartialEq, Eq, Structural, Debug)]
pub enum Scene {
    Settings,
    Game,
    GameOver,
}

/// What a click on a square of the board asks for.
#[derive(Copy, Clone, PartialEq, Eq, Structural, Debug)]
pub enum ClickAction {
    /// The square clicked becomes the selected one.
    Select(BoardCoordinates),
    /// No square is selected any more.
    Deselect,
    /// A move from the first square to the second is to be tried.
    Attempt(BoardCoordinates, BoardCoordinates),
    /// Nothing happens.
    Ignore,
}

/// What a click on `clicked` asks for when `selected` is the square selected
/// before, `square` is what `clicked` holds and `turn` is the side to move:
/// a click on a piece of the side to move selects it, a second click on the
/// selected square lets go of it, and a click elsewhere with a square
/// selected asks for the move from the selected square to the one clicked.
pub open spec fn click_action(
    selected: Option<BoardCoordinates>,
    clicked: BoardCoordinates,
    square: Square,
    turn: Player,
) -> ClickAction {
    match selected {
        None => if square.owned_by(turn) {
            ClickAction::Select(clicked)
        } else {
            ClickAction::Ignore
        },
        Some(start) => if clicked == start {
            ClickAction::Deselect
        } else if square.owned_by(turn) {
            ClickAction::Select(clicked)
        } else {
            ClickAction::Attempt(start, clicked)
        },
    }
}

/// The scene to show next and whether the game is to be started afresh,
/// when the program shows `current`, that scene asks for `asked` (`None` to
/// leave the program) and `escape` says whether the way back to the
/// settings was asked for: the settings take precedence, and going from
/// the end of a game into a game starts the game afresh.
pub open spec fn scene_after(current: Scene, asked: Option<Scene>, escape: bool) -> (
    Option<Scene>,
    bool,
) {
    let next = if escape {
        Some(Scene::Settings)
    } else {
        asked
    };
    match next {
        None => (None, false),
        Some(scene) => (Some(scene), scene == Scene::Game && current == Scene::GameOver),
    }
}

/// What a click on `clicked` asks for in `game`, with `selected` the square
/// selected before.
pub fn interpret_click(
    game: &GameState,
    selected: Option<BoardCoordinates>,
    clicked: BoardCoordinates,
) -> (action: ClickAction)
    requires
        game.wf(),
        clicked.wf(),
    ensures
        action == click_action(
            selected,
            clicked,
            position_after(game.moves()).at(clicked),
            position_after(game.moves()).turn,
        ),
{
    let own_piece = match game.get_square(clicked) {
        Square::Occupied(player, _) => player == game.get_turn(),
        Square::Empty => false,
    };
    match selected {
        None => {
            if own_piece {
                ClickAction::Select(clicked)
            } else {
                ClickAction::Ignore
            }
        },
        Some(start) => {
            if clicked == start {
                ClickAction::Deselect
            } else if own_piece {
                ClickAction::Select(clicked)
            } else {
                ClickAction::Attempt(start, clicked)
            }
        },
    }
}

/// The scene to show next, and whether to start the game afresh.
pub fn next_scene(current: Scene, asked: Option<Scene>, escape: bool) -> (r: (Option<Scene>, bool))
    ensures
        r == scene_after(current, asked, escape),
{
    let next = if escape {
        Some(Scene::Settings)
    } else {
        asked
    };
    match next {
        None => (None, false),
        Some(scene) => (Some(scene), scene == Scene::Game && current == Scene::GameOver),
    }
}

/// Whether some of `moves` goes from `start` to `end` as a promotion.
pub open spec fn promotes(moves: Seq<Move>, start: BoardCoordinates, end: BoardCoordinates)
    -> bool {
    exists|i: int|
        0 <= i < moves.len() && (#[trigger] moves[i]).start == start && moves[i].end == end
            && moves[i].promotion() is Some
}

/// Whether a legal move from `start` to `end` is a promotion, so that the
/// piece to promote to has to be chosen before the move can be made.
pub fn needs_promotion_choice(game: &GameState, start: BoardCoordinates, end: BoardCoordinates)
    -> (r: bool)
    requires
        game.wf(),
    ensures
        r == promotes(position_after(game.moves()).legal_moves(), start, end),
{
    let moves = game.get_valid_moves();
    let mut i: usize = 0;
    while i < moves.len()
        invariant
            i <= moves@.len(),
            moves@ == position_after(game.moves()).legal_moves(),
            forall|j: int|
                0 <= j < i ==> !((#[trigger] moves@[j]).start == start && moves@[j].end == end
                    && moves@[j].promotion() is Some),
        decreases moves@.len() - i,
    {
        let m = moves[i];
        if m.start == start && m.end == end && m.get_promotion().is_some() {
            return true;
        }
        i = i + 1;
    }
    false
}

} // verus!
