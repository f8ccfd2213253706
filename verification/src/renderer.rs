//! Wall projection: from the contacts of the rays to the slices of wall that
//! are painted on the screen, one column for each ray.
//!
//! Screen sizes are whole pixels; every length of a slice is a fixed-point
//! number of pixels.

use vstd::prelude::*;
use crate::fixed::{distance_between, lemma_floor_sqrt_exists, squared_distance, Point, ONE};
use crate::map::{get_color, wall_color, Color, WallKindError};
use crate::player::Player;
use crate::raycasting::ContactPoint;

verus! {

/// How many columns wide the picture is laid out for each pixel of screen
/// width, times the number of rays.
pub const LOGICAL_TO_PHYSICAL_SIZE: u64 = 50;

/// The largest number of contacts that can be projected at once.
pub const MAX_SAMPLES: usize = 1_048_576;

/// One column of wall on the screen: its left edge `x` and its top edge `y`,
/// its `width` and `height`, all in fixed-point pixels, and its colour.
#[derive(Debug, Clone, Copy, PartialEq, Eq, Structural)]
pub struct WallSlice {
    pub x: i64,
    pub y: i64,
    pub width: u64,
    pub height: u64,
    pub color: Color,
}

/// Why a set of contacts could not be projected.
#[derive(Debug, Clone, Copy, PartialEq, Eq, Structural)]
pub enum ProjectionError {
    /// The screen is no pixel wide.
    ZeroScreenWidth,
    /// There are more than `MAX_SAMPLES` contacts.
    TooManySamples,
    /// A contact's wall kind has no colour.
    WallKind(WallKindError),
    /// A contact lies where the viewer stands, so its wall would be
    /// endlessly high.
    ZeroDistance,
}

/// The width of each slice: the number of contacts divided by the screen
/// width, times `LOGICAL_TO_PHYSICAL_SIZE`.
pub open spec fn column_width(sample_count: int, screen_width: int) -> int {
    (sample_count * LOGICAL_TO_PHYSICAL_SIZE * ONE) / screen_width
}

/// The height of the slice of a wall `distance` units away: the screen
/// height divided by the distance in tiles.
pub open spec fn slice_height(screen_height: int, distance: int) -> int {
    (screen_height * ONE * ONE) / distance
}

/// The top edge of a slice `height` high: half the slice above the middle of
/// the screen.
pub open spec fn slice_top(screen_height: int, height: int) -> int {
    (screen_height * ONE) / 2 - height / 2
}

/// The slice of the contact with index `index` among `sample_count`
/// contacts, seen from `position` on a screen of `screen_width` by
/// `screen_height` pixels, or the reason why it has none.
pub open spec fn projected(
    position: Point,
    particle: ContactPoint,
    index: int,
    sample_count: int,
    screen_width: int,
    screen_height: int,
) -> Result<WallSlice, ProjectionError> {
    let distance = distance_between(particle.point, position);
    let width = column_width(sample_count, screen_width);
    let height = slice_height(screen_height, distance);
    match wall_color(particle.value, particle.plane) {
        Err(error) => Err(ProjectionError::WallKind(error)),
        Ok(color) => if distance == 0 {
            Err(ProjectionError::ZeroDistance)
        } else {
            Ok(
                WallSlice {
                    x: (index * width) as i64,
                    y: slice_top(screen_height, height) as i64,
                    width: width as u64,
                    height: height as u64,
                    color,
                },
            )
        },
    }
}

/// The slices themselves, as numbers: what `projected` holds for a contact
/// that has a slice, with nothing cut off by the width of the fields.
pub proof fn lemma_slice_is_exact(
    position: Point,
    particle: ContactPoint,
    index: int,
    sample_count: int,
    screen_width: int,
    screen_height: int,
)
    requires
        0 <= index < sample_count <= MAX_SAMPLES,
        0 < screen_width <= u32::MAX,
        0 <= screen_height <= u32::MAX,
        projected(position, particle, index, sample_count, screen_width, screen_height) is Ok,
    ensures
        ({
            let slice = projected(
                position,
                particle,
                index,
                sample_count,
                screen_width,
                screen_height,
            )->Ok_0;
            let distance = distance_between(particle.point, position);
            &&& distance > 0
            &&& slice.width == column_width(sample_count, screen_width)
            &&& slice.x == index * column_width(sample_count, screen_width)
            &&& slice.height == slice_height(screen_height, distance)
            &&& slice.y == slice_top(screen_height, slice_height(screen_height, distance))
            &&& wall_color(particle.value, particle.plane) == Ok::<Color, WallKindError>(slice.color)
        }),
{
    let distance = distance_between(particle.point, position);
    lemma_distance_is_small(particle.point, position);
    lemma_slice_fits(index, sample_count, screen_width, screen_height, distance);
}

/// The distance between two points is less than 2^33 units, and not
/// negative.
pub proof fn lemma_distance_is_small(a: Point, b: Point)
    ensures
        0 <= distance_between(a, b) < 0x2_0000_0000,
{
    let dx = a.x - b.x;
    let dy = a.y - b.y;
    let squared = squared_distance(a, b);
    assert(0 <= dx * dx <= 0x1_0000_0000 * 0x1_0000_0000) by (nonlinear_arith)
        requires
            -0x1_0000_0000 <= dx <= 0x1_0000_0000,
    ;
    assert(0 <= dy * dy <= 0x1_0000_0000 * 0x1_0000_0000) by (nonlinear_arith)
        requires
            -0x1_0000_0000 <= dy <= 0x1_0000_0000,
    ;
    lemma_floor_sqrt_exists(squared);
    let root = distance_between(a, b);
    assert(root < 0x2_0000_0000) by (nonlinear_arith)
        requires
            0 <= root,
            root * root <= squared,
            squared <= 2 * (0x1_0000_0000 * 0x1_0000_0000),
    ;
}

/// The lengths of a slice fit the fields that hold them.
pub proof fn lemma_slice_fits(
    index: int,
    sample_count: int,
    screen_width: int,
    screen_height: int,
    distance: int,
)
    requires
        0 <= index < sample_count <= MAX_SAMPLES,
        0 < screen_width <= u32::MAX,
        0 <= screen_height <= u32::MAX,
        0 < distance,
    ensures
        0 <= column_width(sample_count, screen_width) <= sample_count * LOGICAL_TO_PHYSICAL_SIZE
            * ONE,
        0 <= index * column_width(sample_count, screen_width) <= i64::MAX,
        0 <= slice_height(screen_height, distance) <= screen_height * ONE * ONE <= u64::MAX,
        i64::MIN <= slice_top(screen_height, slice_height(screen_height, distance)) <= i64::MAX,
{
    let numerator = sample_count * LOGICAL_TO_PHYSICAL_SIZE * ONE;
    assert(0 <= numerator <= 1_048_576 * 50 * 65_536);
    let width = column_width(sample_count, screen_width);
    assert(0 <= width <= numerator) by (nonlinear_arith)
        requires
            width == numerator / screen_width,
            0 <= numerator,
            0 < screen_width,
    ;
    assert(0 <= index * width <= 1_048_576 * (1_048_576 * 50 * 65_536)) by (nonlinear_arith)
        requires
            0 <= index <= 1_048_576,
            0 <= width <= 1_048_576 * 50 * 65_536,
    ;
    let scaled = screen_height * ONE * ONE;
    assert(0 <= scaled <= 0xffff_ffff * 65_536 * 65_536);
    let height = slice_height(screen_height, distance);
    assert(0 <= height <= scaled) by (nonlinear_arith)
        requires
            height == scaled / distance,
            0 <= scaled,
            0 < distance,
    ;
}

/// The slice of one contact.
fn project_particle(
    position: Point,
    particle: &ContactPoint,
    index: usize,
    sample_count: usize,
    screen_width: u32,
    screen_height: u32,
) -> (result: Result<WallSlice, ProjectionError>)
    requires
        index < sample_count <= MAX_SAMPLES,
        screen_width > 0,
    ensures
        result == projected(
            position,
            *particle,
            index as int,
            sample_count as int,
            screen_width as int,
            screen_height as int,
        ),
{
    let color = match get_color(particle.value, particle.plane) {
        Ok(color) => color,
        Err(error) => {
            return Err(ProjectionError::WallKind(error));
        },
    };
    let euclidean_distance: u64 = particle.point.distance(position);
    if euclidean_distance == 0 {
        return Err(ProjectionError::ZeroDistance);
    }
    proof {
        lemma_slice_fits(
            index as int,
            sample_count as int,
            screen_width as int,
            screen_height as int,
            euclidean_distance as int,
        );
    }
    let wall_width: u64 = (sample_count as u64 * LOGICAL_TO_PHYSICAL_SIZE * 65_536u64)
        / screen_width as u64;
    let wall_height: u64 = (screen_height as u64 * 65_536u64 * 65_536u64) / euclidean_distance;
    let middle: i64 = (screen_height as i64 * 65_536i64) / 2;
    let half_height: i64 = (wall_height / 2) as i64;
    Ok(
        WallSlice {
            x: (index as u64 * wall_width) as i64,
            y: middle - half_height,
            width: wall_width,
            height: wall_height,
            color,
        },
    )
}

/// Projects the contacts of the rays onto a screen of `screen_width` by
/// `screen_height` pixels: one slice of wall for each contact, in their
/// order, side by side from the left edge, each as high as the screen height
/// divided by the contact's distance from the viewer, and centred on the
/// middle of the screen. The first contact that has no slice is reported.
pub fn project_walls(
    player: &Player,
    particles: &Vec<ContactPoint>,
    screen_width: u32,
    screen_height: u32,
) -> (result: Result<Vec<WallSlice>, ProjectionError>)
    ensures
        screen_width == 0 ==> result == Err::<Vec<WallSlice>, ProjectionError>(
            ProjectionError::ZeroScreenWidth,
        ),
        screen_width > 0 && particles@.len() > MAX_SAMPLES ==> result == Err::<
            Vec<WallSlice>,
            ProjectionError,
        >(ProjectionError::TooManySamples),
        result matches Ok(slices) ==> {
            &&& screen_width > 0
            &&& particles@.len() <= MAX_SAMPLES
            &&& slices@.len() == particles@.len()
            &&& forall|index: int|
                0 <= index < particles@.len() ==> projected(
                    player.position,
                    particles@[index],
                    index,
                    particles@.len() as int,
                    screen_width as int,
                    screen_height as int,
                ) == Ok::<WallSlice, ProjectionError>(#[trigger] slices@[index])
        },
        screen_width > 0 && particles@.len() <= MAX_SAMPLES ==> (result matches Err(error)
            ==> exists|index: int|
            {
                &&& 0 <= index < particles@.len()
                &&& #[trigger] projected(
                    player.position,
                    particles@[index],
                    index,
                    particles@.len() as int,
                    screen_width as int,
                    screen_height as int,
                ) == Err::<WallSlice, ProjectionError>(error)
                &&& forall|earlier: int|
                    0 <= earlier < index ==> (#[trigger] projected(
                        player.position,
                        particles@[earlier],
                        earlier,
                        particles@.len() as int,
                        screen_width as int,
                        screen_height as int,
                    )) is Ok
            }),
{
    if screen_width == 0 {
        return Err(ProjectionError::ZeroScreenWidth);
    }
    if particles.len() > MAX_SAMPLES {
        return Err(ProjectionError::TooManySamples);
    }
    let mut slices: Vec<WallSlice> = Vec::new();
    let mut index: usize = 0;
    while index < particles.len()
        invariant
            screen_width > 0,
            particles@.len() <= MAX_SAMPLES,
            index <= particles@.len(),
            slices@.len() == index,
            forall|earlier: int|
                0 <= earlier < index ==> projected(
                    player.position,
                    particles@[earlier],
                    earlier,
                    particles@.len() as int,
                    screen_width as int,
                    screen_height as int,
                ) == Ok::<WallSlice, ProjectionError>(#[trigger] slices@[earlier]),
        decreases particles@.len() - index,
    {
        match project_particle(
            player.position,
            &particles[index],
            index,
            particles.len(),
            screen_width,
            screen_height,
        ) {
            Ok(slice) => {
                slices.push(slice);
            },
            Err(error) => {
                proof {
                    assert forall|earlier: int| 0 <= earlier < index implies (#[trigger] projected(
                        player.position,
                        particles@[earlier],
                        earlier,
                        particles@.len() as int,
                        screen_width as int,
                        screen_height as int,
                    )) is Ok by {
                        assert(projected(
                            player.position,
                            particles@[earlier],
                            earlier,
                            particles@.len() as int,
                            screen_width as int,
                            screen_height as int,
                        ) == Ok::<WallSlice, ProjectionError>(slices@[earlier]));
                    }
                }
                return Err(error);
            },
        }
        index += 1;
    }
    Ok(slices)
}

} // verus!
