//! What the viewer's actions do: to the state of the game, and to the
//! viewer's place and heading.

use vstd::prelude::*;
use crate::fixed::Point;
use crate::map::{TileMap, EMPTY};
use crate::player::Player;
use crate::raycasting::RayStep;
use crate::GameState;

verus! {

/// What a pressed key asks for.
#[derive(Debug, Copy, Clone, PartialEq, Eq, Structural)]
pub enum Action {
    MoveStraight,
    MoveBack,
    MoveLeft,
    MoveRight,
    RotateLeft,
    RotateRight,
    PauseGame,
}

/// How far one action moves or turns the viewer.
pub struct InputHandler {
    /// The length of one move, in fixed-point units of a tile.
    pub position_change: i16,
    /// The angle of one turn, in millionths of a radian.
    pub rotation_change: i32,
}

/// The moves that the viewer can make at its heading: `forward` is one move
/// straight on, `sideways` one move to the right.
#[derive(Debug, Copy, Clone, PartialEq, Eq, Structural)]
pub struct Heading {
    pub forward: RayStep,
    pub sideways: RayStep,
}

/// The state that a pause request leads to: a running game is paused, a
/// paused game runs on, and nothing else changes.
pub open spec fn toggled(state: GameState) -> GameState {
    match state {
        GameState::Pause => GameState::InGame,
        GameState::InGame => GameState::Pause,
        GameState::MainMenu => GameState::MainMenu,
        GameState::LevelEditor => GameState::LevelEditor,
    }
}

/// The state of the game after `actions`, taken in their order: each
/// `PauseGame` among them toggles it.
pub open spec fn state_after(state: GameState, actions: Seq<Action>) -> GameState
    decreases actions.len(),
{
    if actions.len() == 0 {
        state
    } else {
        let before = state_after(state, actions.drop_last());
        if actions.last() == Action::PauseGame {
            toggled(before)
        } else {
            before
        }
    }
}

/// `value`, or the nearest number that an `i32` holds.
pub open spec fn clamped(value: int) -> int {
    if value < i32::MIN {
        i32::MIN as int
    } else if value > i32::MAX {
        i32::MAX as int
    } else {
        value
    }
}

/// Where `action` moves a viewer from `position`: one move along or against
/// `forward` or `sideways`; a turn or a pause moves nothing. A coordinate
/// stops at the edge of the fixed-point plane.
pub open spec fn moved(position: Point, action: Action, heading: Heading) -> (int, int) {
    match action {
        Action::MoveStraight => (
            clamped(position.x + heading.forward.dx),
            clamped(position.y + heading.forward.dy),
        ),
        Action::MoveBack => (
            clamped(position.x - heading.forward.dx),
            clamped(position.y - heading.forward.dy),
        ),
        Action::MoveRight => (
            clamped(position.x + heading.sideways.dx),
            clamped(position.y + heading.sideways.dy),
        ),
        Action::MoveLeft => (
            clamped(position.x - heading.sideways.dx),
            clamped(position.y - heading.sideways.dy),
        ),
        _ => (position.x as int, position.y as int),
    }
}

/// The heading angle after `action`: a turn to the left takes
/// `rotation_change` off, a turn to the right adds it, anything else leaves
/// the angle. The angle stops at the ends of the range of an `i32`.
pub open spec fn turned(rotation: i32, action: Action, rotation_change: i32) -> int {
    match action {
        Action::RotateLeft => clamped(rotation - rotation_change),
        Action::RotateRight => clamped(rotation + rotation_change),
        _ => rotation as int,
    }
}

/// Adds `delta` to `value` and stops at the ends of the range of an `i32`.
fn clamped_sum(value: i32, delta: i64) -> (sum: i32)
    requires
        -0x8000_0000 <= delta <= 0x8000_0000,
    ensures
        sum == clamped(value + delta),
{
    let wide: i64 = value as i64 + delta;
    if wide < i32::MIN as i64 {
        i32::MIN
    } else if wide > i32::MAX as i64 {
        i32::MAX
    } else {
        wide as i32
    }
}

/// Pauses a running game and lets a paused game run on.
pub fn un_pause_game(game_state: &mut GameState)
    ensures
        *final(game_state) == toggled(*old(game_state)),
{
    match game_state {
        GameState::Pause => {
            *game_state = GameState::InGame;
        },
        GameState::InGame => {
            *game_state = GameState::Pause;
        },
        _ => {},
    }
}

impl InputHandler {
    /// Moves of a twentieth of a tile and turns of a fiftieth of a radian.
    pub fn new() -> (handler: InputHandler)
        ensures
            handler.position_change == 3_277,
            handler.rotation_change == 20_000,
    {
        InputHandler { position_change: 3_277, rotation_change: 20_000 }
    }

    /// Applies the actions that concern the game as a whole: each
    /// `PauseGame` among `actions` toggles the pause.
    pub fn handle_global_input(&self, actions: &Vec<Action>, game_state: &mut GameState)
        ensures
            *final(game_state) == state_after(*old(game_state), actions@),
    {
        let mut index: usize = 0;
        while index < actions.len()
            invariant
                index <= actions@.len(),
                *game_state == state_after(*old(game_state), actions@.take(index as int)),
            decreases actions@.len() - index,
        {
            proof {
                let next = actions@.take(index + 1);
                assert(next.drop_last() == actions@.take(index as int));
                assert(next.last() == actions@[index as int]);
            }
            match actions[index] {
                Action::PauseGame => {
                    un_pause_game(game_state);
                },
                _ => {},
            }
            index += 1;
        }
        proof {
            assert(actions@.take(index as int) == actions@);
        }
    }

    /// Applies one action to the viewer. `new_position` is where the moves
    /// of this frame have led so far, whether the viewer could follow or
    /// not; the result is where they lead after `action`. A turn changes the
    /// heading angle. Then the viewer steps to the place reached if the tile
    /// there can be walked through, and stays where it is if not.
    pub fn handle_player_action(
        &self,
        player: &mut Player,
        new_position: Point,
        action: Action,
        heading: Heading,
        tile_map: &TileMap,
    ) -> (next_position: Point)
        ensures
            (next_position.x as int, next_position.y as int) == moved(new_position, action, heading),
            final(player).rotation == turned(old(player).rotation, action, self.rotation_change),
            final(player).fov == old(player).fov,
            final(player).position == if tile_map.value_under(next_position) == EMPTY {
                next_position
            } else {
                old(player).position
            },
            tile_map.value_under(old(player).position) == EMPTY ==> tile_map.value_under(
                final(player).position,
            ) == EMPTY,
    {
        let mut next_position = new_position;
        match action {
            Action::MoveStraight => {
                next_position.y = clamped_sum(next_position.y, heading.forward.dy as i64);
                next_position.x = clamped_sum(next_position.x, heading.forward.dx as i64);
            },
            Action::MoveBack => {
                next_position.y = clamped_sum(next_position.y, -(heading.forward.dy as i64));
                next_position.x = clamped_sum(next_position.x, -(heading.forward.dx as i64));
            },
            Action::MoveRight => {
                next_position.x = clamped_sum(next_position.x, heading.sideways.dx as i64);
                next_position.y = clamped_sum(next_position.y, heading.sideways.dy as i64);
            },
            Action::MoveLeft => {
                next_position.x = clamped_sum(next_position.x, -(heading.sideways.dx as i64));
                next_position.y = clamped_sum(next_position.y, -(heading.sideways.dy as i64));
            },
            Action::RotateLeft => {
                player.rotation = clamped_sum(player.rotation, -(self.rotation_change as i64));
            },
            Action::RotateRight => {
                player.rotation = clamped_sum(player.rotation, self.rotation_change as i64);
            },
            Action::PauseGame => {},
        }
        if tile_map.tile_value_under(next_position) == EMPTY {
            player.position = next_position;
        }
        next_position
    }
}

} // verus!
