//! 16.16 fixed-point numbers: positions on the map and lengths on the screen.
//!
//! A coordinate is an `i32` counted in units of 1/65536: of a tile on the
//! map, of a pixel on the screen.

use vstd::prelude::*;

verus! {

/// The fixed-point representation of the number one.
pub const ONE: i32 = 65_536;

/// A point of the plane, each coordinate in fixed-point units.
#[derive(Clone, Copy, Debug, PartialEq, Eq, Structural)]
pub struct Point {
    pub x: i32,
    pub y: i32,
}

/// The whole part of a fixed-point number: the greatest integer that is not
/// above it.
pub open spec fn whole_part(value: int) -> int {
    value / (ONE as int)
}

/// Whether `root` is the integer square root of `n`.
pub open spec fn is_floor_sqrt(n: int, root: int) -> bool {
    0 <= root && root * root <= n < (root + 1) * (root + 1)
}

/// The integer square root of `n`: the greatest integer whose square is at
/// most `n`.
pub open spec fn floor_sqrt_of(n: int) -> int {
    choose|root: int| is_floor_sqrt(n, root)
}

/// The Euclidean distance between two points, rounded down to a whole number
/// of units.
pub open spec fn distance_between(a: Point, b: Point) -> int {
    floor_sqrt_of(squared_distance(a, b))
}

/// Every number that is not negative has an integer square root.
pub proof fn lemma_floor_sqrt_exists(n: int)
    requires
        0 <= n,
    ensures
        is_floor_sqrt(n, floor_sqrt_of(n)),
    decreases n,
{
    if n == 0 {
        assert(is_floor_sqrt(0, 0));
    } else {
        lemma_floor_sqrt_exists(n - 1);
        let below = floor_sqrt_of(n - 1);
        if (below + 1) * (below + 1) <= n {
            assert(n < (below + 2) * (below + 2)) by (nonlinear_arith)
                requires
                    0 <= below,
                    n - 1 < (below + 1) * (below + 1),
            ;
            assert(is_floor_sqrt(n, below + 1));
        } else {
            assert(is_floor_sqrt(n, below));
        }
    }
}

/// A number has at most one integer square root.
pub proof fn lemma_floor_sqrt_unique(n: int, first: int, second: int)
    requires
        is_floor_sqrt(n, first),
        is_floor_sqrt(n, second),
    ensures
        first == second,
{
    if first < second {
        assert((first + 1) * (first + 1) <= second * second) by (nonlinear_arith)
            requires
                0 <= first,
                first + 1 <= second,
        ;
    }
    if second < first {
        assert((second + 1) * (second + 1) <= first * first) by (nonlinear_arith)
            requires
                0 <= second,
                second + 1 <= first,
        ;
    }
}

/// The square of the Euclidean distance between two points, in squared units.
pub open spec fn squared_distance(a: Point, b: Point) -> int {
    (a.x - b.x) * (a.x - b.x) + (a.y - b.y) * (a.y - b.y)
}

/// Rounds a fixed-point number down to a whole number.
pub fn floor(value: i32) -> (whole: i32)
    ensures
        whole == whole_part(value as int),
{
    if value >= 0 {
        value / ONE
    } else {
        let mirrored: i32 = -(value + 1);
        -(mirrored / ONE) - 1
    }
}

/// The integer square root: the greatest `root` whose square is at most `n`.
pub fn floor_sqrt(n: u128) -> (root: u64)
    ensures
        is_floor_sqrt(n as int, root as int),
        root == floor_sqrt_of(n as int),
{
    let mut low: u128 = 0;
    let mut high: u128 = 0x1_0000_0000_0000_0000;
    assert(n < 0x1_0000_0000_0000_0000 * 0x1_0000_0000_0000_0000) by (nonlinear_arith)
        requires n <= u128::MAX;
    while high - low > 1
        invariant
            low < high <= 0x1_0000_0000_0000_0000,
            low * low <= n < high * high,
        decreases high - low,
    {
        let middle: u128 = low + (high - low) / 2;
        assert(middle * middle < 0x1_0000_0000_0000_0000 * 0x1_0000_0000_0000_0000)
            by (nonlinear_arith)
            requires 0 <= middle < 0x1_0000_0000_0000_0000;
        if middle * middle <= n {
            low = middle;
        } else {
            high = middle;
        }
    }
    proof {
        lemma_floor_sqrt_unique(n as int, low as int, floor_sqrt_of(n as int));
    }
    low as u64
}

impl Point {
    /// The Euclidean distance to `other`, rounded down to a whole number of
    /// units.
    pub fn distance(self, other: Point) -> (length: u64)
        ensures
            length == distance_between(self, other),
            is_floor_sqrt(squared_distance(self, other), length as int),
            length == 0 <==> self == other,
    {
        let dx: i128 = self.x as i128 - other.x as i128;
        let dy: i128 = self.y as i128 - other.y as i128;
        assert(0 <= dx * dx <= 0x1_0000_0000 * 0x1_0000_0000) by (nonlinear_arith)
            requires -0x1_0000_0000 <= dx <= 0x1_0000_0000;
        assert(0 <= dy * dy <= 0x1_0000_0000 * 0x1_0000_0000) by (nonlinear_arith)
            requires -0x1_0000_0000 <= dy <= 0x1_0000_0000;
        let squared: i128 = dx * dx + dy * dy;
        assert(squared == 0 <==> dx == 0 && dy == 0) by (nonlinear_arith)
            requires
                squared == dx * dx + dy * dy,
        ;
        let length = floor_sqrt(squared as u128);
        proof {
            assert(squared == squared_distance(self, other));
            assert(length == 0 <==> squared == 0) by (nonlinear_arith)
                requires
                    is_floor_sqrt(squared as int, length as int),
            ;
            assert(self == other <==> dx == 0 && dy == 0);
        }
        length
    }
}

} // verus!
