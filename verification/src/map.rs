//! The tile map: a rectangle of tiles, each solid or empty.

use vstd::prelude::*;
use crate::fixed::{floor, whole_part, Point, ONE};
use crate::raycasting::ContactPlane;

verus! {

/// The wall kind of a tile that can be walked through.
pub const EMPTY: i8 = 0;

/// The wall kind that a fresh map is filled with, and that every place
/// outside the map counts as.
pub const SOLID: i8 = 1;

/// The longest side a map may have, in tiles: every coordinate inside such a
/// map, and one ray step beyond it, is a fixed-point number.
pub const MAX_SIDE: usize = 32_767;

/// One tile of the map.
pub struct Tile {
    pub value: i8,
    pub size: Point,
    pub position: Point,
}

/// A tile's place on the map: row `y`, column `x`.
#[derive(Debug, Clone, Copy, PartialEq, Eq, Structural)]
pub struct TilePosition {
    pub y: usize,
    pub x: usize,
}

/// A write was aimed at a place outside the map.
#[derive(Debug, Clone, Copy, PartialEq, Eq, Structural)]
pub struct IndexOutOfRange {
    pub row: usize,
    pub column: usize,
}

/// A colour: red, green, blue and opacity, each from 0 to 255.
#[derive(Debug, Clone, Copy, PartialEq, Eq, Structural)]
pub struct Color {
    pub r: u8,
    pub g: u8,
    pub b: u8,
    pub a: u8,
}

/// A wall kind that has no colour.
#[derive(Debug, Clone, Copy, PartialEq, Eq, Structural)]
pub enum WallKindError {
    /// The wall kind of an empty tile: there is no wall to paint.
    Empty,
    /// A wall kind that the palette does not hold.
    Unknown,
}

pub struct TileMap {
    pub tiles: Vec<Vec<Tile>>,
    pub width: usize,
    pub height: usize,
}

/// The wall kind found at (`row`, `col`) of a grid of wall kinds: the one
/// stored there, and `SOLID` wherever nothing is stored.
pub open spec fn value_in(cells: Seq<Seq<i8>>, row: int, col: int) -> i8 {
    if 0 <= row < cells.len() && 0 <= col < cells[row].len() {
        cells[row][col]
    } else {
        SOLID
    }
}

/// How bright a wall is painted: full on a vertical plane, dimmed on a
/// horizontal one.
pub open spec fn shade(plane: ContactPlane) -> u8 {
    match plane {
        ContactPlane::Vertical => 255u8,
        ContactPlane::Horizontal => 193u8,
    }
}

/// The colour of a wall of kind `value` met on `plane`: red where `value` is
/// 1, green where it is 2, blue where it is 3. The empty kind and every
/// other kind have none.
pub open spec fn wall_color(value: i8, plane: ContactPlane) -> Result<Color, WallKindError> {
    if value == EMPTY {
        Err(WallKindError::Empty)
    } else if value == 1 {
        Ok(Color { r: shade(plane), g: 0, b: 0, a: 255 })
    } else if value == 2 {
        Ok(Color { r: 0, g: shade(plane), b: 0, a: 255 })
    } else if value == 3 {
        Ok(Color { r: 0, g: 0, b: shade(plane), a: 255 })
    } else {
        Err(WallKindError::Unknown)
    }
}

/// The colour that a wall of kind `value` is painted in where a ray met it
/// on `plane`.
pub fn get_color(value: i8, plane: ContactPlane) -> (result: Result<Color, WallKindError>)
    ensures
        result == wall_color(value, plane),
{
    let bright: u8 = match plane {
        ContactPlane::Vertical => 255,
        ContactPlane::Horizontal => 193,
    };
    match value {
        0 => Err(WallKindError::Empty),
        1 => Ok(Color { r: bright, g: 0, b: 0, a: 255 }),
        2 => Ok(Color { r: 0, g: bright, b: 0, a: 255 }),
        3 => Ok(Color { r: 0, g: 0, b: bright, a: 255 }),
        _ => Err(WallKindError::Unknown),
    }
}

/// Whether `tile` is one tile wide and high and records (`row`, `col`) as
/// its place.
pub open spec fn tile_placed(tile: Tile, row: int, col: int) -> bool {
    &&& tile.size == (Point { x: ONE, y: ONE })
    &&& tile.position.x == row * ONE
    &&& tile.position.y == col * ONE
}

impl Tile {
    /// A tile of one tile's size.
    pub fn new(value: i8, position: Point) -> (tile: Tile)
        ensures
            tile.value == value,
            tile.position == position,
            tile.size == (Point { x: ONE, y: ONE }),
    {
        Tile { value, position, size: Point { x: ONE, y: ONE } }
    }
}

impl TilePosition {
    pub fn new(y: usize, x: usize) -> (position: TilePosition)
        ensures
            position.y == y,
            position.x == x,
    {
        TilePosition { y, x }
    }
}

impl View for TileMap {
    type V = Seq<Seq<i8>>;

    /// The wall kinds of the map, row by row.
    open spec fn view(&self) -> Seq<Seq<i8>> {
        Seq::new(
            self.tiles@.len(),
            |row: int| Seq::new(self.tiles@[row]@.len(), |col: int| self.tiles@[row]@[col].value),
        )
    }
}

impl TileMap {
    /// The map is a rectangle of `height` rows of `width` tiles, no side
    /// longer than `MAX_SIDE`, and each tile knows its size and its place.
    pub open spec fn wf(&self) -> bool {
        &&& self.tiles@.len() == self.height
        &&& forall|row: int| 0 <= row < self.height ==> (#[trigger] self.tiles@[row])@.len() == self.width
        &&& self.width <= MAX_SIDE
        &&& self.height <= MAX_SIDE
        &&& forall|row: int, col: int|
            0 <= row < self.height && 0 <= col < self.width ==> tile_placed(
                #[trigger] self.tiles@[row]@[col],
                row,
                col,
            )
    }

    /// Whether (`row`, `col`) is a place on the map.
    pub open spec fn contains(&self, row: int, col: int) -> bool {
        0 <= row < self.height && 0 <= col < self.width
    }

    /// The wall kind at (`row`, `col`); `SOLID` outside the map.
    pub open spec fn value_at(&self, row: int, col: int) -> i8 {
        value_in(self@, row, col)
    }

    /// Whether the tile at (`row`, `col`) can be walked through.
    pub open spec fn empty_at(&self, row: int, col: int) -> bool {
        self.value_at(row, col) == EMPTY
    }

    /// The wall kind of the tile that `point` lies on; `SOLID` outside the
    /// map.
    pub open spec fn value_under(&self, point: Point) -> i8 {
        self.value_at(whole_part(point.y as int), whole_part(point.x as int))
    }

    /// Whether some tile of the map can be walked through.
    pub open spec fn has_empty_tile(&self) -> bool {
        exists|row: int, col: int| self.contains(row, col) && self.empty_at(row, col)
    }

    /// A map of `height` rows and `width` columns, every tile solid.
    pub fn new(width: usize, height: usize) -> (map: TileMap)
        requires
            width <= MAX_SIDE,
            height <= MAX_SIDE,
        ensures
            map.wf(),
            map.width == width,
            map.height == height,
            forall|row: int, col: int| map.contains(row, col) ==> map.value_at(row, col) == SOLID,
    {
        let mut tiles: Vec<Vec<Tile>> = Vec::new();
        let mut row_index: usize = 0;
        while row_index < height
            invariant
                row_index <= height <= MAX_SIDE,
                width <= MAX_SIDE,
                tiles@.len() == row_index,
                forall|row: int| 0 <= row < row_index ==> (#[trigger] tiles@[row])@.len() == width,
                forall|row: int, col: int|
                    0 <= row < row_index && 0 <= col < width ==> (#[trigger] tiles@[row]@[col]).value
                        == SOLID,
                forall|row: int, col: int|
                    0 <= row < row_index && 0 <= col < width ==> tile_placed(
                        #[trigger] tiles@[row]@[col],
                        row,
                        col,
                    ),
            decreases height - row_index,
        {
            let mut row_vec: Vec<Tile> = Vec::new();
            let mut column_index: usize = 0;
            while column_index < width
                invariant
                    column_index <= width <= MAX_SIDE,
                    row_index < MAX_SIDE,
                    row_vec@.len() == column_index,
                    forall|col: int| 0 <= col < column_index ==> (#[trigger] row_vec@[col]).value == SOLID,
                    forall|col: int|
                        0 <= col < column_index ==> tile_placed(
                            #[trigger] row_vec@[col],
                            row_index as int,
                            col,
                        ),
                decreases width - column_index,
            {
                let position = Point { x: row_index as i32 * ONE, y: column_index as i32 * ONE };
                row_vec.push(Tile::new(SOLID, position));
                column_index += 1;
            }
            tiles.push(row_vec);
            row_index += 1;
        }
        TileMap { tiles, width, height }
    }

    /// Whether the map is well formed. A map that `new` made and that only
    /// the methods of the map have changed is; one whose fields were written
    /// from outside may not be.
    pub fn is_well_formed(&self) -> (ok: bool)
        ensures
            ok == self.wf(),
    {
        if self.width > MAX_SIDE || self.height > MAX_SIDE || self.tiles.len() != self.height {
            return false;
        }
        let mut row_index: usize = 0;
        while row_index < self.height
            invariant
                self.width <= MAX_SIDE,
                self.height <= MAX_SIDE,
                self.tiles@.len() == self.height,
                row_index <= self.height,
                forall|row: int| 0 <= row < row_index ==> (#[trigger] self.tiles@[row])@.len() == self.width,
                forall|row: int, col: int|
                    0 <= row < row_index && 0 <= col < self.width ==> tile_placed(
                        #[trigger] self.tiles@[row]@[col],
                        row,
                        col,
                    ),
            decreases self.height - row_index,
        {
            let row_vec = &self.tiles[row_index];
            if row_vec.len() != self.width {
                return false;
            }
            let mut column_index: usize = 0;
            while column_index < self.width
                invariant
                    self.width <= MAX_SIDE,
                    self.height <= MAX_SIDE,
                    self.tiles@.len() == self.height,
                    row_index < self.height,
                    column_index <= self.width,
                    *row_vec == self.tiles@[row_index as int],
                    row_vec@.len() == self.width,
                    forall|col: int|
                        0 <= col < column_index ==> tile_placed(
                            #[trigger] self.tiles@[row_index as int]@[col],
                            row_index as int,
                            col,
                        ),
                decreases self.width - column_index,
            {
                let tile = &row_vec[column_index];
                if tile.size.x != ONE || tile.size.y != ONE || tile.position.x != row_index as i32
                    * ONE || tile.position.y != column_index as i32 * ONE {
                    assert(!tile_placed(
                        self.tiles@[row_index as int]@[column_index as int],
                        row_index as int,
                        column_index as int,
                    ));
                    return false;
                }
                column_index += 1;
            }
            row_index += 1;
        }
        true
    }

    /// The wall kind of the tile at (`row_index`, `column_index`); outside
    /// the map everything is solid.
    pub fn get_tile_value(&self, row_index: usize, column_index: usize) -> (value: i8)
        ensures
            value == self.value_at(row_index as int, column_index as int),
            self.wf() && !self.contains(row_index as int, column_index as int) ==> value == SOLID,
    {
        if row_index < self.tiles.len() {
            let row_vec = &self.tiles[row_index];
            if column_index < row_vec.len() {
                return row_vec[column_index].value;
            }
        }
        SOLID
    }

    /// Whether the tile at (`row_index`, `column_index`) can be walked
    /// through.
    pub fn is_tile_empty(&self, row_index: usize, column_index: usize) -> (empty: bool)
        ensures
            empty == self.empty_at(row_index as int, column_index as int),
            self.wf() && empty ==> self.contains(row_index as int, column_index as int),
    {
        self.get_tile_value(row_index, column_index) == EMPTY
    }

    /// The wall kind of the tile that `point` lies on. A point left of or
    /// above the map lies outside it as much as one right of or below it.
    pub fn tile_value_under(&self, point: Point) -> (value: i8)
        ensures
            value == self.value_under(point),
            self.wf() && value == EMPTY ==> 0 <= point.x < self.width * ONE && 0 <= point.y
                < self.height * ONE,
    {
        let row: i32 = floor(point.y);
        let col: i32 = floor(point.x);
        if row < 0 || col < 0 {
            SOLID
        } else {
            self.get_tile_value(row as usize, col as usize)
        }
    }

    /// The first tile that can be walked through, going through the rows
    /// from the top and through each row from the left; `None` if the map
    /// has no such tile.
    pub fn first_empty_tile(&self) -> (found: Option<TilePosition>)
        requires
            self.wf(),
        ensures
            found is Some <==> self.has_empty_tile(),
            found matches Some(position) ==> {
                &&& self.contains(position.y as int, position.x as int)
                &&& self.empty_at(position.y as int, position.x as int)
                &&& forall|row: int, col: int|
                    self.contains(row, col) && (row < position.y || (row == position.y && col
                        < position.x)) ==> !self.empty_at(row, col)
            },
    {
        let mut row_index: usize = 0;
        while row_index < self.height
            invariant
                self.wf(),
                row_index <= self.height,
                forall|row: int, col: int|
                    self.contains(row, col) && row < row_index ==> !self.empty_at(row, col),
            decreases self.height - row_index,
        {
            let mut column_index: usize = 0;
            while column_index < self.width
                invariant
                    self.wf(),
                    row_index < self.height,
                    column_index <= self.width,
                    forall|row: int, col: int|
                        self.contains(row, col) && (row < row_index || (row == row_index && col
                            < column_index)) ==> !self.empty_at(row, col),
                decreases self.width - column_index,
            {
                if self.is_tile_empty(row_index, column_index) {
                    return Some(TilePosition::new(row_index, column_index));
                }
                column_index += 1;
            }
            row_index += 1;
        }
        None
    }

    /// Writes the wall kind of one tile. A place outside the map is refused
    /// and the map stays as it was.
    pub fn set_tile_value(&mut self, row_index: usize, column_index: usize, value: i8) -> (result: Result<
        (),
        IndexOutOfRange,
    >)
        requires
            old(self).wf(),
        ensures
            final(self).wf(),
            final(self).width == old(self).width,
            final(self).height == old(self).height,
            result is Ok <==> old(self).contains(row_index as int, column_index as int),
            result is Ok ==> final(self)@ == old(self)@.update(
                row_index as int,
                old(self)@[row_index as int].update(column_index as int, value),
            ),
            forall|row: int, col: int|
                #[trigger] final(self).value_at(row, col) == if old(self).contains(row, col) && row
                    == row_index && col == column_index {
                    value
                } else {
                    old(self).value_at(row, col)
                },
            result is Err ==> *final(self) == *old(self) && result == Err::<(), IndexOutOfRange>(
                IndexOutOfRange { row: row_index, column: column_index },
            ),
    {
        if row_index < self.height && column_index < self.width {
            self.tiles[row_index][column_index].value = value;
            assert(self@ =~~= old(self)@.update(
                row_index as int,
                old(self)@[row_index as int].update(column_index as int, value),
            ));
            Ok(())
        } else {
            Err(IndexOutOfRange { row: row_index, column: column_index })
        }
    }
}

/// A point on a tile that can be walked through lies on the map: its
/// coordinates are not negative and are less than the sides of the map.
pub proof fn lemma_open_place_is_on_map(map: TileMap, point: Point)
    requires
        map.wf(),
        map.value_under(point) == EMPTY,
    ensures
        0 <= point.x < map.width * ONE,
        0 <= point.y < map.height * ONE,
        map.contains(whole_part(point.y as int), whole_part(point.x as int)),
{
}

} // verus!
