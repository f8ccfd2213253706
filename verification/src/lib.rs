//! A Wolfenstein-style raycasting engine over a procedurally generated tile
//! map, in integer arithmetic throughout.
//!
//! Units. A position on the map and a length on the screen are 16.16
//! fixed-point numbers (`fixed::ONE` is one tile, or one pixel). An angle is
//! a whole number of millionths of a radian. A ray is given by the step it
//! takes along each axis, which the caller gets from the cosine and the sine
//! of the ray's angle; the sides of the rooms of a dungeon are the caller's
//! to choose as well.
//!
//! One frame: `raycasting::angles_in_fov` lists the angles of the rays,
//! `raycasting::get_particles_in_view` marches one ray for each step vector
//! until it meets a wall, and `renderer::project_walls` turns the contacts
//! into the slices of wall to paint.

use vstd::prelude::*;

pub mod dungeon;
pub mod fixed;
pub mod input_handler;
pub mod map;
pub mod player;
pub mod random;
pub mod raycasting;
pub mod renderer;

verus! {

/// What the game is doing.
#[derive(Debug, Clone, Copy, PartialEq, Eq, Structural)]
pub enum GameState {
    MainMenu,
    InGame,
    Pause,
    LevelEditor,
}

} // verus!
