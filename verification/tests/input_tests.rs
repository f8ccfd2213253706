use katzenstein::fixed::{Point, ONE};
use katzenstein::input_handler::{un_pause_game, Action, Heading, InputHandler};
use katzenstein::map::{TileMap, TilePosition};
use katzenstein::player::Player;
use katzenstein::raycasting::RayStep;
use katzenstein::GameState;

fn open_map() -> TileMap {
    let mut map = TileMap::new(10, 10);
    map.carve_room(TilePosition::new(1, 1), TilePosition::new(8, 8));
    map
}

fn east() -> Heading {
    Heading { forward: RayStep { dx: 3_277, dy: 0 }, sideways: RayStep { dx: 0, dy: 3_277 } }
}

#[test]
fn un_pause_toggles_between_running_and_paused() {
    let mut state = GameState::InGame;
    un_pause_game(&mut state);
    assert_eq!(state, GameState::Pause);
    un_pause_game(&mut state);
    assert_eq!(state, GameState::InGame);
}

#[test]
fn un_pause_leaves_the_other_states() {
    let mut state = GameState::MainMenu;
    un_pause_game(&mut state);
    assert_eq!(state, GameState::MainMenu);
    let mut editor = GameState::LevelEditor;
    un_pause_game(&mut editor);
    assert_eq!(editor, GameState::LevelEditor);
}

#[test]
fn new_handler_moves_a_twentieth_of_a_tile() {
    let handler = InputHandler::new();
    assert_eq!(handler.position_change, 3_277);
    assert_eq!(handler.rotation_change, 20_000);
}

#[test]
fn global_input_toggles_once_for_each_pause() {
    let handler = InputHandler::new();
    let mut state = GameState::InGame;
    handler.handle_global_input(&vec![Action::MoveStraight, Action::PauseGame], &mut state);
    assert_eq!(state, GameState::Pause);
    handler.handle_global_input(&vec![Action::PauseGame, Action::PauseGame], &mut state);
    assert_eq!(state, GameState::Pause);
    handler.handle_global_input(
        &vec![Action::PauseGame, Action::RotateLeft, Action::PauseGame, Action::PauseGame],
        &mut state,
    );
    assert_eq!(state, GameState::InGame);
}

#[test]
fn global_input_without_a_pause_changes_nothing() {
    let handler = InputHandler::new();
    let mut state = GameState::InGame;
    handler.handle_global_input(&Vec::new(), &mut state);
    assert_eq!(state, GameState::InGame);
    handler.handle_global_input(
        &vec![
            Action::MoveStraight,
            Action::MoveBack,
            Action::MoveLeft,
            Action::MoveRight,
            Action::RotateLeft,
            Action::RotateRight,
        ],
        &mut state,
    );
    assert_eq!(state, GameState::InGame);
    let mut menu = GameState::MainMenu;
    handler.handle_global_input(&vec![Action::PauseGame], &mut menu);
    assert_eq!(menu, GameState::MainMenu);
}

#[test]
fn moves_go_along_and_across_the_heading() {
    let handler = InputHandler::new();
    let map = open_map();
    let start = Point { x: 5 * ONE, y: 5 * ONE };
    let heading =
        Heading { forward: RayStep { dx: 3_000, dy: 1_318 }, sideways: RayStep { dx: -1_318, dy: 3_000 } };
    for (action, x, y) in [
        (Action::MoveStraight, 5 * ONE + 3_000, 5 * ONE + 1_318),
        (Action::MoveBack, 5 * ONE - 3_000, 5 * ONE - 1_318),
        (Action::MoveRight, 5 * ONE - 1_318, 5 * ONE + 3_000),
        (Action::MoveLeft, 5 * ONE + 1_318, 5 * ONE - 3_000),
    ] {
        let mut player = Player::new();
        player.position = start;
        let next = handler.handle_player_action(&mut player, start, action, heading, &map);
        assert_eq!(next, Point { x, y });
        assert_eq!(player.position, Point { x, y });
        assert_eq!(player.rotation, 4_712_389);
        assert_eq!(player.fov, 1_047_198);
    }
}

#[test]
fn turns_change_the_angle_only() {
    let handler = InputHandler::new();
    let map = open_map();
    let start = Point { x: 5 * ONE, y: 5 * ONE };
    let mut player = Player::new();
    player.position = start;
    let next = handler.handle_player_action(&mut player, start, Action::RotateLeft, east(), &map);
    assert_eq!(next, start);
    assert_eq!(player.position, start);
    assert_eq!(player.rotation, 4_692_389);
    handler.handle_player_action(&mut player, start, Action::RotateRight, east(), &map);
    handler.handle_player_action(&mut player, start, Action::RotateRight, east(), &map);
    assert_eq!(player.rotation, 4_732_389);
    assert_eq!(player.position, start);
    assert_eq!(player.fov, 1_047_198);
}

#[test]
fn pause_changes_nothing_of_the_player() {
    let handler = InputHandler::new();
    let map = open_map();
    let start = Point { x: 5 * ONE, y: 5 * ONE };
    let mut player = Player::new();
    player.position = start;
    let next = handler.handle_player_action(&mut player, start, Action::PauseGame, east(), &map);
    assert_eq!(next, start);
    assert_eq!(player.position, start);
    assert_eq!(player.rotation, 4_712_389);
}

#[test]
fn move_into_a_wall_is_not_followed() {
    let handler = InputHandler::new();
    let map = open_map();
    let start = Point { x: 9 * ONE - 100, y: 5 * ONE };
    let mut player = Player::new();
    player.position = start;
    let next = handler.handle_player_action(&mut player, start, Action::MoveStraight, east(), &map);
    assert_eq!(next, Point { x: 9 * ONE + 3_177, y: 5 * ONE });
    assert_eq!(player.position, start);
    // the place reached is kept: a step back from it leads onto the floor
    let back = handler.handle_player_action(&mut player, next, Action::MoveBack, east(), &map);
    assert_eq!(back, start);
    assert_eq!(player.position, start);
    let again = handler.handle_player_action(&mut player, back, Action::MoveBack, east(), &map);
    assert_eq!(again, Point { x: 9 * ONE - 3_377, y: 5 * ONE });
    assert_eq!(player.position, again);
}

#[test]
fn any_action_takes_the_player_to_an_open_place_reached_before() {
    let handler = InputHandler::new();
    let map = open_map();
    let mut player = Player::new();
    player.position = Point { x: 2 * ONE, y: 2 * ONE };
    let reached = Point { x: 6 * ONE, y: 7 * ONE };
    let next = handler.handle_player_action(&mut player, reached, Action::RotateLeft, east(), &map);
    assert_eq!(next, reached);
    assert_eq!(player.position, reached);
}

#[test]
fn moves_stop_at_the_edge_of_the_plane() {
    let handler = InputHandler::new();
    let map = open_map();
    let heading = Heading {
        forward: RayStep { dx: i16::MAX, dy: i16::MIN },
        sideways: RayStep { dx: i16::MIN, dy: i16::MAX },
    };
    let mut player = Player::new();
    let corner = Point { x: i32::MAX - 5, y: i32::MIN + 5 };
    let next = handler.handle_player_action(&mut player, corner, Action::MoveStraight, heading, &map);
    assert_eq!(next, Point { x: i32::MAX, y: i32::MIN });
    let other = Point { x: i32::MIN + 5, y: i32::MAX - 5 };
    let back = handler.handle_player_action(&mut player, other, Action::MoveBack, heading, &map);
    assert_eq!(back, Point { x: i32::MIN, y: i32::MAX });
    let right = handler.handle_player_action(&mut player, other, Action::MoveRight, heading, &map);
    assert_eq!(right, Point { x: i32::MIN, y: i32::MAX });
    let left = handler.handle_player_action(&mut player, corner, Action::MoveLeft, heading, &map);
    assert_eq!(left, Point { x: i32::MAX, y: i32::MIN });
    assert_eq!(player.position, Point { x: 0, y: 0 });
}

#[test]
fn turns_stop_at_the_ends_of_the_range() {
    let handler = InputHandler { position_change: 3_277, rotation_change: i32::MAX };
    let map = open_map();
    let mut player = Player::new();
    let start = player.position;
    handler.handle_player_action(&mut player, start, Action::RotateRight, east(), &map);
    assert_eq!(player.rotation, i32::MAX);
    handler.handle_player_action(&mut player, start, Action::RotateLeft, east(), &map);
    assert_eq!(player.rotation, 0);
    handler.handle_player_action(&mut player, start, Action::RotateLeft, east(), &map);
    handler.handle_player_action(&mut player, start, Action::RotateLeft, east(), &map);
    assert_eq!(player.rotation, i32::MIN);
    let backwards = InputHandler { position_change: 3_277, rotation_change: i32::MIN };
    handler.handle_player_action(&mut player, start, Action::RotateRight, east(), &map);
    assert_eq!(player.rotation, -1);
    backwards.handle_player_action(&mut player, start, Action::RotateLeft, east(), &map);
    assert_eq!(player.rotation, i32::MAX);
}
