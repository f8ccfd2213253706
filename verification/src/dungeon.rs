//! The dungeon generator: square rooms carved into a solid map, and an
//! L-shaped corridor from each room to the next.

use vstd::prelude::*;
use rand::rngs::StdRng;
use crate::map::{TileMap, TilePosition, EMPTY};
use crate::random::random_below;

verus! {

/// A square room: its top-left tile and the length of its side.
#[derive(Debug, Clone, Copy, PartialEq, Eq, Structural)]
pub struct Room {
    pub position: TilePosition,
    pub size: usize,
}

/// The room with this index cannot be placed on the map: its side is zero or
/// too long.
#[derive(Debug, Clone, Copy, PartialEq, Eq, Structural)]
pub struct GenerationError {
    pub room_index: usize,
    pub room_size: usize,
}

/// Whether (`row`, `col`) lies in the rectangle whose top-left tile is
/// `position` and whose sides are `size.y` rows and `size.x` columns.
pub open spec fn in_area(position: TilePosition, size: TilePosition, row: int, col: int) -> bool {
    position.y <= row < position.y + size.y && position.x <= col < position.x + size.x
}

/// Whether `value` lies between `a` and `b`, both included, whichever of the
/// two is the smaller.
pub open spec fn between(a: int, b: int, value: int) -> bool {
    (a <= value <= b) || (b <= value <= a)
}

/// Whether (`row`, `col`) lies on the L-shaped path from the tile at
/// (`from_row`, `from_col`) to the tile at (`to_row`, `to_col`): along the
/// first tile's row to the second tile's column, then along that column.
pub open spec fn on_path(
    from_row: int,
    from_col: int,
    to_row: int,
    to_col: int,
    row: int,
    col: int,
) -> bool {
    ||| row == from_row && between(from_col, to_col, col)
    ||| col == to_col && between(from_row, to_row, row)
}

/// Whether (`row`, `col`) lies on the corridor from `from` to `to`.
pub open spec fn on_corridor(from: TilePosition, to: TilePosition, row: int, col: int) -> bool {
    on_path(from.y as int, from.x as int, to.y as int, to.x as int, row, col)
}

/// Whether (`row`, `col`) lies inside `room`.
pub open spec fn in_room(room: Room, row: int, col: int) -> bool {
    in_area(room.position, TilePosition { y: room.size, x: room.size }, row, col)
}

/// The row and the column of a room's centre tile.
pub open spec fn room_center(room: Room) -> (int, int) {
    (room.position.y + room.size / 2, room.position.x + room.size / 2)
}

/// Whether (`row`, `col`) lies in the room with index `index`.
pub open spec fn room_covers(rooms: Seq<Room>, index: int, row: int, col: int) -> bool {
    0 <= index < rooms.len() && in_room(rooms[index], row, col)
}

/// Whether (`row`, `col`) lies on the corridor from the centre of the room
/// with index `index` to the centre of the next room.
pub open spec fn corridor_covers(rooms: Seq<Room>, index: int, row: int, col: int) -> bool {
    &&& 0 <= index < rooms.len() - 1
    &&& {
        let from = room_center(rooms[index]);
        let to = room_center(rooms[index + 1]);
        on_path(from.0, from.1, to.0, to.1, row, col)
    }
}

/// Whether (`row`, `col`) lies in one of the first `room_count` rooms or on
/// one of the first `corridor_count` corridors.
pub open spec fn carved_so_far(
    rooms: Seq<Room>,
    room_count: int,
    corridor_count: int,
    row: int,
    col: int,
) -> bool {
    ||| exists|index: int| 0 <= index < room_count && #[trigger] room_covers(rooms, index, row, col)
    ||| exists|index: int|
        0 <= index < corridor_count && #[trigger] corridor_covers(rooms, index, row, col)
}

/// Whether the dungeon made of `rooms` opens the tile at (`row`, `col`): it
/// lies in a room, or on the corridor between two rooms that follow each
/// other.
pub open spec fn carved(rooms: Seq<Room>, row: int, col: int) -> bool {
    carved_so_far(rooms, rooms.len() as int, rooms.len() - 1, row, col)
}

/// Whether every tile inside one of `rooms` is open on `map`.
pub open spec fn rooms_open(rooms: Seq<Room>, map: TileMap) -> bool {
    forall|index: int, row: int, col: int| #[trigger]
        room_covers(rooms, index, row, col) ==> map.contains(row, col) && map.empty_at(row, col)
}

impl TileMap {
    /// Opens every tile of the map in rows `first_row..=last_row` and columns
    /// `first_col..=last_col`.
    fn clear_span(&mut self, first_row: usize, last_row: usize, first_col: usize, last_col: usize)
        requires
            old(self).wf(),
        ensures
            final(self).wf(),
            final(self).width == old(self).width,
            final(self).height == old(self).height,
            forall|row: int, col: int|
                #[trigger] final(self).value_at(row, col) == if old(self).contains(row, col)
                    && first_row <= row <= last_row && first_col <= col <= last_col {
                    EMPTY
                } else {
                    old(self).value_at(row, col)
                },
    {
        if first_row >= self.height || first_col >= self.width || first_row > last_row || first_col
            > last_col {
            return ;
        }
        let end_row: usize = if last_row < self.height {
            last_row + 1
        } else {
            self.height
        };
        let end_col: usize = if last_col < self.width {
            last_col + 1
        } else {
            self.width
        };
        let mut y: usize = first_row;
        while y < end_row
            invariant
                self.wf(),
                self.width == old(self).width,
                self.height == old(self).height,
                first_row <= y <= end_row <= self.height,
                first_col < end_col <= self.width,
                end_row == if last_row < self.height { last_row + 1 } else { self.height as int },
                end_col == if last_col < self.width { last_col + 1 } else { self.width as int },
                forall|row: int, col: int|
                    #[trigger] self.value_at(row, col) == if old(self).contains(row, col)
                        && first_row <= row < y && first_col <= col <= last_col {
                        EMPTY
                    } else {
                        old(self).value_at(row, col)
                    },
            decreases end_row - y,
        {
            let ghost before_row = *self;
            let mut x: usize = first_col;
            while x < end_col
                invariant
                    self.wf(),
                    before_row.wf(),
                    self.width == before_row.width,
                    self.height == before_row.height,
                    y < self.height,
                    first_col <= x <= end_col <= self.width,
                    forall|row: int, col: int|
                        #[trigger] self.value_at(row, col) == if row == y && first_col <= col < x {
                            EMPTY
                        } else {
                            before_row.value_at(row, col)
                        },
                decreases end_col - x,
            {
                let ghost before_tile = *self;
                self.tiles[y][x].value = EMPTY;
                assert forall|row: int, col: int|
                    #[trigger] self.value_at(row, col) == if row == y && first_col <= col < x + 1 {
                        EMPTY
                    } else {
                        before_row.value_at(row, col)
                    } by {
                    assert(before_tile.value_at(row, col) == if row == y && first_col <= col < x {
                        EMPTY
                    } else {
                        before_row.value_at(row, col)
                    });
                }
                x += 1;
            }
            assert forall|row: int, col: int|
                #[trigger] self.value_at(row, col) == if old(self).contains(row, col) && first_row
                    <= row < y + 1 && first_col <= col <= last_col {
                    EMPTY
                } else {
                    old(self).value_at(row, col)
                } by {
                assert(before_row.value_at(row, col) == if old(self).contains(row, col)
                    && first_row <= row < y && first_col <= col <= last_col {
                    EMPTY
                } else {
                    old(self).value_at(row, col)
                });
            }
            y += 1;
        }
    }

    /// Carves a room: opens every tile of the map that lies in the rectangle
    /// whose top-left tile is `position` and whose sides are `size.y` rows
    /// and `size.x` columns. What lies outside the map is left out.
    pub fn carve_room(&mut self, position: TilePosition, size: TilePosition)
        requires
            old(self).wf(),
        ensures
            final(self).wf(),
            final(self).width == old(self).width,
            final(self).height == old(self).height,
            forall|row: int, col: int|
                #[trigger] final(self).value_at(row, col) == if old(self).contains(row, col)
                    && in_area(position, size, row, col) {
                    EMPTY
                } else {
                    old(self).value_at(row, col)
                },
    {
        if size.y == 0 || size.x == 0 {
            return ;
        }
        let last_row: usize = if size.y - 1 > usize::MAX - position.y {
            usize::MAX
        } else {
            position.y + (size.y - 1)
        };
        let last_col: usize = if size.x - 1 > usize::MAX - position.x {
            usize::MAX
        } else {
            position.x + (size.x - 1)
        };
        self.clear_span(position.y, last_row, position.x, last_col);
    }

    /// Carves the corridor from `center1` to `center2`: opens every tile of
    /// the map on the row of `center1` between the two columns, and every
    /// tile on the column of `center2` between the two rows.
    pub fn connect_rooms(&mut self, center1: TilePosition, center2: TilePosition)
        requires
            old(self).wf(),
        ensures
            final(self).wf(),
            final(self).width == old(self).width,
            final(self).height == old(self).height,
            forall|row: int, col: int|
                #[trigger] final(self).value_at(row, col) == if old(self).contains(row, col)
                    && on_corridor(center1, center2, row, col) {
                    EMPTY
                } else {
                    old(self).value_at(row, col)
                },
    {
        let (first_col, last_col) = if center1.x <= center2.x {
            (center1.x, center2.x)
        } else {
            (center2.x, center1.x)
        };
        let (first_row, last_row) = if center1.y <= center2.y {
            (center1.y, center2.y)
        } else {
            (center2.y, center1.y)
        };
        self.clear_span(center1.y, center1.y, first_col, last_col);
        let ghost after_row = *self;
        self.clear_span(first_row, last_row, center2.x, center2.x);
        assert forall|row: int, col: int|
            #[trigger] self.value_at(row, col) == if old(self).contains(row, col) && on_corridor(
                center1,
                center2,
                row,
                col,
            ) {
                EMPTY
            } else {
                old(self).value_at(row, col)
            } by {
            assert(after_row.value_at(row, col) == if old(self).contains(row, col) && center1.y
                <= row <= center1.y && first_col <= col <= last_col {
                EMPTY
            } else {
                old(self).value_at(row, col)
            });
        }
    }

    /// Whether `room` lies on the map with all its tiles and has at least
    /// one.
    pub open spec fn room_inside(&self, room: Room) -> bool {
        &&& room.size >= 1
        &&& room.position.y + room.size <= self.height
        &&& room.position.x + room.size <= self.width
    }

    /// Whether a square room with this side can be placed: the side is not
    /// zero and is shorter than both sides of the map.
    pub open spec fn size_fits(&self, size: usize) -> bool {
        1 <= size < self.height && size < self.width
    }

    /// Whether `rooms` places one room for each of `sizes`, in their order,
    /// each with the side asked for and with its last row and column before
    /// the last of the map.
    pub open spec fn placed(&self, rooms: Seq<Room>, sizes: Seq<usize>) -> bool {
        &&& rooms.len() == sizes.len()
        &&& forall|index: int|
            0 <= index < rooms.len() ==> {
                let room = #[trigger] rooms[index];
                &&& room.size == sizes[index]
                &&& room.size >= 1
                &&& room.position.y + room.size < self.height
                &&& room.position.x + room.size < self.width
            }
    }

    /// Whether `after` is this map with the dungeon made of `rooms` carved
    /// into it: the tiles of the rooms and corridors are open, every other
    /// tile is as before.
    pub open spec fn carved_into(&self, rooms: Seq<Room>, after: TileMap) -> bool {
        &&& after.width == self.width
        &&& after.height == self.height
        &&& forall|row: int, col: int|
            #[trigger] after.value_at(row, col) == if self.contains(row, col) && carved(
                rooms,
                row,
                col,
            ) {
                EMPTY
            } else {
                self.value_at(row, col)
            }
    }

    /// Whether a room with this side can be placed on the map.
    pub fn room_fits(&self, size: usize) -> (fits: bool)
        ensures
            fits == self.size_fits(size),
    {
        1 <= size && size < self.height && size < self.width
    }

    /// Carves a dungeon: every room of `rooms`, then a corridor from the
    /// centre of each room to the centre of the next one. If a room does not
    /// lie on the map, the first such room is reported and the map stays as
    /// it was.
    pub fn carve_dungeon(&mut self, rooms: &Vec<Room>) -> (result: Result<(), GenerationError>)
        requires
            old(self).wf(),
        ensures
            final(self).wf(),
            result is Ok <==> forall|index: int|
                0 <= index < rooms@.len() ==> old(self).room_inside(#[trigger] rooms@[index]),
            result is Ok ==> old(self).carved_into(rooms@, *final(self)),
            result is Ok ==> rooms_open(rooms@, *final(self)),
            result matches Err(error) ==> {
                &&& *final(self) == *old(self)
                &&& error.room_index < rooms@.len()
                &&& error.room_size == rooms@[error.room_index as int].size
                &&& !old(self).room_inside(rooms@[error.room_index as int])
                &&& forall|index: int|
                    0 <= index < error.room_index ==> old(self).room_inside(#[trigger] rooms@[index])
            },
    {
        let mut checked: usize = 0;
        while checked < rooms.len()
            invariant
                *self == *old(self),
                self.wf(),
                checked <= rooms@.len(),
                forall|index: int| 0 <= index < checked ==> self.room_inside(#[trigger] rooms@[index]),
            decreases rooms@.len() - checked,
        {
            let room = rooms[checked];
            if room.size == 0 || room.size > self.height || room.size > self.width || room.position.y
                > self.height - room.size || room.position.x > self.width - room.size {
                return Err(GenerationError { room_index: checked, room_size: room.size });
            }
            checked += 1;
        }
        let mut room_index: usize = 0;
        while room_index < rooms.len()
            invariant
                self.wf(),
                old(self).wf(),
                self.width == old(self).width,
                self.height == old(self).height,
                room_index <= rooms@.len(),
                forall|index: int|
                    0 <= index < rooms@.len() ==> old(self).room_inside(#[trigger] rooms@[index]),
                forall|row: int, col: int|
                    #[trigger] self.value_at(row, col) == if old(self).contains(row, col)
                        && carved_so_far(rooms@, room_index as int, 0, row, col) {
                        EMPTY
                    } else {
                        old(self).value_at(row, col)
                    },
            decreases rooms@.len() - room_index,
        {
            let ghost before = *self;
            let room = rooms[room_index];
            self.carve_room(room.position, TilePosition::new(room.size, room.size));
            assert forall|row: int, col: int|
                #[trigger] self.value_at(row, col) == if old(self).contains(row, col)
                    && carved_so_far(rooms@, room_index + 1, 0, row, col) {
                    EMPTY
                } else {
                    old(self).value_at(row, col)
                } by {
                assert(before.value_at(row, col) == if old(self).contains(row, col)
                    && carved_so_far(rooms@, room_index as int, 0, row, col) {
                    EMPTY
                } else {
                    old(self).value_at(row, col)
                });
                assert(room_covers(rooms@, room_index as int, row, col) == in_room(room, row, col));
                if carved_so_far(rooms@, room_index + 1, 0, row, col) {
                    let index = choose|index: int|
                        0 <= index < room_index + 1 && #[trigger] room_covers(
                            rooms@,
                            index,
                            row,
                            col,
                        );
                    if index < room_index {
                        assert(carved_so_far(rooms@, room_index as int, 0, row, col));
                    }
                }
            }
            room_index += 1;
        }
        let corridor_count: usize = if rooms.len() == 0 {
            0
        } else {
            rooms.len() - 1
        };
        let mut corridor_index: usize = 0;
        while corridor_index < corridor_count
            invariant
                self.wf(),
                old(self).wf(),
                self.width == old(self).width,
                self.height == old(self).height,
                corridor_index <= corridor_count,
                corridor_count == if rooms@.len() == 0 { 0 } else { rooms@.len() - 1 },
                forall|index: int|
                    0 <= index < rooms@.len() ==> old(self).room_inside(#[trigger] rooms@[index]),
                forall|row: int, col: int|
                    #[trigger] self.value_at(row, col) == if old(self).contains(row, col)
                        && carved_so_far(
                        rooms@,
                        rooms@.len() as int,
                        corridor_index as int,
                        row,
                        col,
                    ) {
                        EMPTY
                    } else {
                        old(self).value_at(row, col)
                    },
            decreases corridor_count - corridor_index,
        {
            let ghost before = *self;
            let from = rooms[corridor_index];
            let to = rooms[corridor_index + 1];
            let center1 = TilePosition::new(from.position.y + from.size / 2, from.position.x + from.size / 2);
            let center2 = TilePosition::new(to.position.y + to.size / 2, to.position.x + to.size / 2);
            self.connect_rooms(center1, center2);
            assert forall|row: int, col: int|
                #[trigger] self.value_at(row, col) == if old(self).contains(row, col)
                    && carved_so_far(rooms@, rooms@.len() as int, corridor_index + 1, row, col) {
                    EMPTY
                } else {
                    old(self).value_at(row, col)
                } by {
                assert(before.value_at(row, col) == if old(self).contains(row, col)
                    && carved_so_far(
                    rooms@,
                    rooms@.len() as int,
                    corridor_index as int,
                    row,
                    col,
                ) {
                    EMPTY
                } else {
                    old(self).value_at(row, col)
                });
                assert(corridor_covers(rooms@, corridor_index as int, row, col) == on_corridor(
                    center1,
                    center2,
                    row,
                    col,
                ));
                if carved_so_far(rooms@, rooms@.len() as int, corridor_index + 1, row, col)
                    && !carved_so_far(rooms@, rooms@.len() as int, corridor_index as int, row, col) {
                    let index = choose|index: int|
                        0 <= index < corridor_index + 1 && #[trigger] corridor_covers(
                            rooms@,
                            index,
                            row,
                            col,
                        );
                    assert(index == corridor_index);
                }
            }
            corridor_index += 1;
        }
        proof {
            assert forall|row: int, col: int|
                #[trigger] self.value_at(row, col) == if old(self).contains(row, col) && carved(
                    rooms@,
                    row,
                    col,
                ) {
                    EMPTY
                } else {
                    old(self).value_at(row, col)
                } by {
                if rooms@.len() > 0 {
                    assert(corridor_index == rooms@.len() - 1);
                } else {
                    assert(!carved_so_far(rooms@, 0, 0, row, col));
                    assert(!carved_so_far(rooms@, 0, -1, row, col));
                }
            }
            assert forall|index: int, row: int, col: int| #[trigger]
                room_covers(rooms@, index, row, col) implies self.contains(row, col) && self.empty_at(
                row,
                col,
            ) by {
                assert(old(self).room_inside(rooms@[index]));
                assert(carved(rooms@, row, col));
            }
        }
        Ok(())
    }

    /// Draws a place for one room of each of `room_sizes`: the row and the
    /// column of its top-left tile, each uniformly among those that keep the
    /// room's last row and column before the last of the map. If a size does
    /// not fit the map, the first such size is reported.
    pub fn place_rooms(&self, room_sizes: &Vec<usize>, rng: &mut StdRng) -> (result: Result<
        Vec<Room>,
        GenerationError,
    >)
        requires
            self.wf(),
        ensures
            result is Ok <==> forall|index: int|
                0 <= index < room_sizes@.len() ==> self.size_fits(#[trigger] room_sizes@[index]),
            result matches Ok(rooms) ==> self.placed(rooms@, room_sizes@),
            result matches Err(error) ==> {
                &&& error.room_index < room_sizes@.len()
                &&& error.room_size == room_sizes@[error.room_index as int]
                &&& !self.size_fits(error.room_size)
                &&& forall|index: int|
                    0 <= index < error.room_index ==> self.size_fits(#[trigger] room_sizes@[index])
            },
    {
        let mut rooms: Vec<Room> = Vec::new();
        let mut index: usize = 0;
        while index < room_sizes.len()
            invariant
                self.wf(),
                index <= room_sizes@.len(),
                forall|earlier: int|
                    0 <= earlier < index ==> self.size_fits(#[trigger] room_sizes@[earlier]),
                self.placed(rooms@, room_sizes@.take(index as int)),
            decreases room_sizes@.len() - index,
        {
            let room_size = room_sizes[index];
            if !self.room_fits(room_size) {
                return Err(GenerationError { room_index: index, room_size });
            }
            let position_y = random_below(rng, self.height - room_size);
            let position_x = random_below(rng, self.width - room_size);
            rooms.push(Room { position: TilePosition::new(position_y, position_x), size: room_size });
            index += 1;
        }
        assert(room_sizes@.take(index as int) == room_sizes@);
        Ok(rooms)
    }

    /// Generates a dungeon: one square room for each of `room_sizes`, placed
    /// at random, and a corridor from the centre of each room to the centre
    /// of the next one. If a size does not fit the map, the first such size
    /// is reported and the map stays as it was.
    pub fn generate(&mut self, room_sizes: &Vec<usize>, rng: &mut StdRng) -> (result: Result<
        (),
        GenerationError,
    >)
        requires
            old(self).wf(),
        ensures
            final(self).wf(),
            result is Ok <==> forall|index: int|
                0 <= index < room_sizes@.len() ==> old(self).size_fits(#[trigger] room_sizes@[index]),
            result is Ok ==> exists|rooms: Seq<Room>|
                {
                    &&& #[trigger] old(self).placed(rooms, room_sizes@)
                    &&& old(self).carved_into(rooms, *final(self))
                    &&& rooms_open(rooms, *final(self))
                },
            result is Ok && room_sizes@.len() >= 1 ==> final(self).has_empty_tile(),
            result matches Err(error) ==> {
                &&& *final(self) == *old(self)
                &&& error.room_index < room_sizes@.len()
                &&& error.room_size == room_sizes@[error.room_index as int]
                &&& !old(self).size_fits(error.room_size)
                &&& forall|index: int|
                    0 <= index < error.room_index ==> old(self).size_fits(
                        #[trigger] room_sizes@[index],
                    )
            },
    {
        let rooms = match self.place_rooms(room_sizes, rng) {
            Ok(rooms) => rooms,
            Err(error) => {
                return Err(error);
            },
        };
        assert forall|index: int| 0 <= index < rooms@.len() implies self.room_inside(
            #[trigger] rooms@[index],
        ) by {
            assert(self.size_fits(room_sizes@[index]));
        }
        let carving = self.carve_dungeon(&rooms);
        proof {
            if rooms@.len() >= 1 {
                lemma_room_holds_a_tile(*old(self), rooms@, 0);
                let room = rooms@[0];
                assert(room_covers(rooms@, 0, room.position.y as int, room.position.x as int));
                assert(self.contains(room.position.y as int, room.position.x as int)
                    && self.empty_at(room.position.y as int, room.position.x as int));
            }
        }
        carving
    }
}

/// The top-left tile of a room that lies on the map is a tile of the map and
/// of the room.
pub proof fn lemma_room_holds_a_tile(map: TileMap, rooms: Seq<Room>, index: int)
    requires
        0 <= index < rooms.len(),
        map.room_inside(rooms[index]),
    ensures
        map.contains(rooms[index].position.y as int, rooms[index].position.x as int),
        room_covers(rooms, index, rooms[index].position.y as int, rooms[index].position.x as int),
{
}

/// After a dungeon of at least one room has been carved into a map, with
/// every room on the map, each room's interior is open throughout and the
/// map has an open tile.
pub proof fn lemma_dungeon_is_open(before: TileMap, rooms: Seq<Room>, after: TileMap)
    requires
        before.wf(),
        after.wf(),
        rooms.len() >= 1,
        forall|index: int| 0 <= index < rooms.len() ==> before.room_inside(#[trigger] rooms[index]),
        before.carved_into(rooms, after),
    ensures
        rooms_open(rooms, after),
        after.has_empty_tile(),
{
    assert forall|index: int, row: int, col: int| #[trigger]
        room_covers(rooms, index, row, col) implies after.contains(row, col) && after.empty_at(
        row,
        col,
    ) by {
        assert(before.room_inside(rooms[index]));
        assert(carved(rooms, row, col));
    }
    lemma_room_holds_a_tile(before, rooms, 0);
    let room = rooms[0];
    assert(room_covers(rooms, 0, room.position.y as int, room.position.x as int));
    assert(after.contains(room.position.y as int, room.position.x as int) && after.empty_at(
        room.position.y as int,
        room.position.x as int,
    ));
}

} // verus!
