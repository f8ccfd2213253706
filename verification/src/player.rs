//! The viewer: where it stands, where it looks and how wide it sees.

use vstd::prelude::*;
use rand::rngs::StdRng;
use crate::fixed::{whole_part, Point, ONE};
use crate::map::{TileMap, EMPTY};
use crate::random::random_below;

verus! {

/// Half a turn in the unit of angles, the millionth of a radian.
pub const HALF_TURN: i32 = 3_141_593;

/// How many places the spawn search draws at random before it goes through
/// the map tile by tile.
pub const MAX_SPAWN_ATTEMPTS: usize = 1_000;

/// The map has no tile that can be walked through.
#[derive(Debug, Clone, Copy, PartialEq, Eq, Structural)]
pub struct NoEmptyTileError {
    pub width: usize,
    pub height: usize,
}

pub struct Player {
    pub position: Point,
    pub rotation: i32,
    pub fov: i32,
}

/// The top-left corner of the tile at (`row`, `col`), as a point.
pub open spec fn tile_corner(row: int, col: int) -> (int, int) {
    (col * ONE, row * ONE)
}

impl Player {
    /// A viewer at the origin that looks three quarters of a turn round and
    /// sees a sixth of a turn wide.
    pub fn new() -> (player: Player)
        ensures
            player.position == (Point { x: 0, y: 0 }),
            player.rotation == 4_712_389,
            player.fov == 1_047_198,
    {
        Player { position: Point { x: 0, y: 0 }, rotation: 4_712_389, fov: 1_047_198 }
    }

    /// Whether the viewer stands on the top-left corner of an empty tile of
    /// the map.
    pub open spec fn stands_on_empty_tile(&self, tile_map: &TileMap) -> bool {
        exists|row: int, col: int|
            tile_map.contains(row, col) && tile_map.empty_at(row, col) && (self.position.x as int,
                self.position.y as int) == #[trigger] tile_corner(row, col)
    }

    /// Moves the viewer to the tile at (`row_index`, `column_index`) if that
    /// tile can be walked through, and says whether it did.
    pub fn place_on(&mut self, tile_map: &TileMap, row_index: usize, column_index: usize) -> (placed:
        bool)
        requires
            tile_map.wf(),
        ensures
            placed == tile_map.empty_at(row_index as int, column_index as int),
            placed ==> (final(self).position.x as int, final(self).position.y as int)
                == tile_corner(row_index as int, column_index as int),
            placed ==> final(self).stands_on_empty_tile(tile_map),
            !placed ==> final(self).position == old(self).position,
            final(self).rotation == old(self).rotation,
            final(self).fov == old(self).fov,
    {
        if tile_map.is_tile_empty(row_index, column_index) {
            self.position = Point { x: column_index as i32 * ONE, y: row_index as i32 * ONE };
            assert(tile_corner(row_index as int, column_index as int) == (
                self.position.x as int,
                self.position.y as int,
            ));
            true
        } else {
            false
        }
    }

    /// Puts the viewer on a tile that can be walked through. Places are drawn
    /// at random, each row and column alike, until one is open; after
    /// `MAX_SPAWN_ATTEMPTS` draws the first open tile of the map is taken. A
    /// map without an open tile is reported and the viewer stays.
    pub fn random_location(&mut self, tile_map: &TileMap, rng: &mut StdRng) -> (result: Result<
        (),
        NoEmptyTileError,
    >)
        requires
            tile_map.wf(),
        ensures
            result is Ok <==> tile_map.has_empty_tile(),
            result is Ok ==> final(self).stands_on_empty_tile(tile_map),
            result is Ok ==> tile_map.value_under(final(self).position) == EMPTY,
            result matches Err(error) ==> final(self).position == old(self).position && error == (
            NoEmptyTileError { width: tile_map.width, height: tile_map.height }),
            final(self).rotation == old(self).rotation,
            final(self).fov == old(self).fov,
    {
        if tile_map.height > 0 && tile_map.width > 0 {
            let mut attempts: usize = 0;
            while attempts < MAX_SPAWN_ATTEMPTS
                invariant
                    tile_map.wf(),
                    tile_map.height > 0,
                    tile_map.width > 0,
                    *self == *old(self),
                decreases MAX_SPAWN_ATTEMPTS - attempts,
            {
                let start_y = random_below(rng, tile_map.height);
                let start_x = random_below(rng, tile_map.width);
                if self.place_on(tile_map, start_y, start_x) {
                    proof {
                        lemma_corner_lies_on_tile(start_y as int, start_x as int);
                    }
                    return Ok(());
                }
                attempts += 1;
            }
        }
        match tile_map.first_empty_tile() {
            Some(position) => {
                self.place_on(tile_map, position.y, position.x);
                proof {
                    lemma_corner_lies_on_tile(position.y as int, position.x as int);
                }
                Ok(())
            },
            None => Err(NoEmptyTileError { width: tile_map.width, height: tile_map.height }),
        }
    }
}

/// The top-left corner of a tile lies on that tile.
pub proof fn lemma_corner_lies_on_tile(row: int, col: int)
    ensures
        whole_part(tile_corner(row, col).0) == col,
        whole_part(tile_corner(row, col).1) == row,
{
    assert((col * ONE) / (ONE as int) == col) by (nonlinear_arith);
    assert((row * ONE) / (ONE as int) == row) by (nonlinear_arith);
}

} // verus!
