//! Ray casting: from the viewer through the map, one ray for each column of
//! the screen, each marched step by step until it meets a wall.

use vstd::prelude::*;
use crate::fixed::{whole_part, Point, ONE};
use crate::map::{TileMap, EMPTY};
use crate::player::Player;

verus! {

/// The angle between two neighbouring rays, in millionths of a radian.
pub const ANGLE_STEP: i64 = 5_000;

/// The length of one step of a ray, in fixed-point units: a twentieth of a
/// tile.
pub const DISTANCE_STEP: i16 = 3_277;

/// The number of steps after which a ray that has met no wall is given up.
pub const MAX_RAY_STEPS: u32 = 1_000_000;

/// Which way the wall faces that a ray met: the ray's last step went along
/// the x axis (`Vertical`) or along the y axis (`Horizontal`).
#[derive(Debug, Clone, Copy, PartialEq, Eq, Structural)]
pub enum ContactPlane {
    Horizontal,
    Vertical,
}

/// Where a ray met a wall.
#[derive(Debug, Clone, Copy, PartialEq, Eq, Structural)]
pub struct ContactPoint {
    pub point: Point,
    pub plane: ContactPlane,
    pub value: i8,
}

/// What one pair of steps adds to a ray's position: `dx` on the steps with
/// an even number, `dy` on those with an odd number. For a ray at angle `a`
/// these are the cosine and the sine of `a`, times `DISTANCE_STEP`.
#[derive(Debug, Clone, Copy, PartialEq, Eq, Structural)]
pub struct RayStep {
    pub dx: i16,
    pub dy: i16,
}

/// A ray met no wall within `MAX_RAY_STEPS` steps.
#[derive(Debug, Clone, Copy, PartialEq, Eq, Structural)]
pub struct DegenerateRayError {
    pub origin: Point,
    pub step: RayStep,
}

impl ContactPoint {
    pub fn new(point: Point, plane: ContactPlane, value: i8) -> (contact: ContactPoint)
        ensures
            contact == (ContactPoint { point, plane, value }),
    {
        ContactPoint { point, plane, value }
    }
}

/// The x coordinate of a ray after `count` steps: steps 0, 2, 4, ... each add
/// `dx`.
pub open spec fn ray_x(origin: Point, step: RayStep, count: nat) -> int {
    origin.x + step.dx * ((count + 1) / 2)
}

/// The y coordinate of a ray after `count` steps: steps 1, 3, 5, ... each add
/// `dy`.
pub open spec fn ray_y(origin: Point, step: RayStep, count: nat) -> int {
    origin.y + step.dy * (count / 2)
}

/// The wall kind of the tile that a ray is on after `count` steps.
pub open spec fn ray_value(tile_map: TileMap, origin: Point, step: RayStep, count: nat) -> i8 {
    tile_map.value_at(whole_part(ray_y(origin, step, count)), whole_part(ray_x(origin, step, count)))
}

/// Whether a ray is on a wall after `count` steps.
pub open spec fn meets_wall(tile_map: TileMap, origin: Point, step: RayStep, count: nat) -> bool {
    ray_value(tile_map, origin, step, count) != EMPTY
}

/// Whether a ray is on a wall after `count` steps and was on none before.
pub open spec fn first_wall_after(tile_map: TileMap, origin: Point, step: RayStep, count: nat) -> bool {
    &&& meets_wall(tile_map, origin, step, count)
    &&& forall|earlier: nat| earlier < count ==> !#[trigger] meets_wall(tile_map, origin, step, earlier)
}

/// The plane of a contact made after `count` steps: `Horizontal` for an even
/// count, `Vertical` for an odd one.
pub open spec fn plane_after(count: nat) -> ContactPlane {
    if count % 2 == 0 {
        ContactPlane::Horizontal
    } else {
        ContactPlane::Vertical
    }
}

/// Whether `contact` is what a ray reports that first meets a wall after
/// `count` steps.
pub open spec fn contact_after(
    tile_map: TileMap,
    origin: Point,
    step: RayStep,
    count: nat,
    contact: ContactPoint,
) -> bool {
    &&& first_wall_after(tile_map, origin, step, count)
    &&& contact.point.x == ray_x(origin, step, count)
    &&& contact.point.y == ray_y(origin, step, count)
    &&& contact.plane == plane_after(count)
    &&& contact.value == ray_value(tile_map, origin, step, count)
}

/// Whether `contact` is the contact of the ray from `origin` with `step`: the
/// ray first meets a wall after some number of steps up to `MAX_RAY_STEPS`,
/// and `contact` reports that place.
pub open spec fn is_contact_of(tile_map: TileMap, origin: Point, step: RayStep, contact: ContactPoint) -> bool {
    exists|count: nat|
        count <= MAX_RAY_STEPS && #[trigger] contact_after(tile_map, origin, step, count, contact)
}

/// Whether the ray from `origin` with `step` meets no wall within
/// `MAX_RAY_STEPS` steps.
pub open spec fn is_degenerate(tile_map: TileMap, origin: Point, step: RayStep) -> bool {
    forall|count: nat| count <= MAX_RAY_STEPS ==> !#[trigger] meets_wall(tile_map, origin, step, count)
}

/// The size of a step along one axis, whichever way it goes.
pub open spec fn magnitude(delta: int) -> int {
    if delta < 0 {
        -delta
    } else {
        delta
    }
}

/// The number of steps along one axis, each `delta` long, that take a ray
/// out of a map `side` tiles long from any place on it.
pub open spec fn steps_across(side: int, delta: int) -> int {
    (side * ONE) / magnitude(delta) + 1
}

/// Whether a ray with `step` is sure to leave the map within
/// `MAX_RAY_STEPS` steps wherever it starts: along x, where every second
/// step counts from the first on, or along y, where every second step
/// counts from the second on.
pub open spec fn crosses_map(tile_map: TileMap, step: RayStep) -> bool {
    ||| step.dx != 0 && 2 * steps_across(tile_map.width as int, step.dx as int) - 1 <= MAX_RAY_STEPS
    ||| step.dy != 0 && 2 * steps_across(tile_map.height as int, step.dy as int) <= MAX_RAY_STEPS
}

/// A coordinate that starts on a map `side` tiles long has left it after
/// `steps_across` steps of `delta`.
pub proof fn lemma_steps_across_leave(side: int, start: int, delta: int)
    requires
        0 <= side,
        0 <= start < side * ONE,
        delta != 0,
    ensures
        ({
            let end = start + delta * steps_across(side, delta);
            whole_part(end) < 0 || whole_part(end) >= side
        }),
{
    let length = side * ONE;
    let size = magnitude(delta);
    let count = steps_across(side, delta);
    assert(size * count > length) by (nonlinear_arith)
        requires
            size > 0,
            length >= 0,
            count == length / size + 1,
    ;
    if delta > 0 {
        assert(delta * count == size * count);
        let end = start + delta * count;
        assert(end >= side * ONE);
        assert(whole_part(end) >= side) by (nonlinear_arith)
            requires
                end >= side * ONE,
                whole_part(end) == end / (ONE as int),
                ONE == 65_536,
        ;
    } else {
        assert(delta * count == -(size * count)) by (nonlinear_arith)
            requires
                size == -delta,
        ;
        let end = start + delta * count;
        assert(end < 0);
    }
}

/// A ray whose step along x is not zero is on a wall after at most
/// `2 * steps_across(width, dx) - 1` steps: by then it has left the map to
/// the left or to the right, if it ever was on it.
pub proof fn lemma_ray_leaves_along_x(tile_map: TileMap, origin: Point, step: RayStep)
    requires
        tile_map.wf(),
        step.dx != 0,
    ensures
        exists|count: nat|
            count <= 2 * steps_across(tile_map.width as int, step.dx as int) - 1 && #[trigger] meets_wall(
                tile_map,
                origin,
                step,
                count,
            ),
{
    let side = tile_map.width as int;
    let across = steps_across(side, step.dx as int);
    assert(across >= 1) by (nonlinear_arith)
        requires
            across == (side * ONE) / magnitude(step.dx as int) + 1,
            side * ONE >= 0,
            magnitude(step.dx as int) > 0,
    ;
    if 0 <= origin.x < side * ONE {
        let count = (2 * across - 1) as nat;
        assert((count + 1) / 2 == across);
        lemma_steps_across_leave(side, origin.x as int, step.dx as int);
        assert(meets_wall(tile_map, origin, step, count));
    } else {
        lemma_ray_starts_at_origin(origin, step);
        assert(whole_part(origin.x as int) < 0 || whole_part(origin.x as int) >= side);
        assert(meets_wall(tile_map, origin, step, 0));
    }
}

/// A ray whose step along y is not zero is on a wall after at most
/// `2 * steps_across(height, dy)` steps: by then it has left the map at the
/// top or at the bottom, if it ever was on it.
pub proof fn lemma_ray_leaves_along_y(tile_map: TileMap, origin: Point, step: RayStep)
    requires
        tile_map.wf(),
        step.dy != 0,
    ensures
        exists|count: nat|
            count <= 2 * steps_across(tile_map.height as int, step.dy as int) && #[trigger] meets_wall(
                tile_map,
                origin,
                step,
                count,
            ),
{
    let side = tile_map.height as int;
    let across = steps_across(side, step.dy as int);
    assert(across >= 1) by (nonlinear_arith)
        requires
            across == (side * ONE) / magnitude(step.dy as int) + 1,
            side * ONE >= 0,
            magnitude(step.dy as int) > 0,
    ;
    if 0 <= origin.y < side * ONE {
        let count = (2 * across) as nat;
        assert(count / 2 == across);
        lemma_steps_across_leave(side, origin.y as int, step.dy as int);
        assert(meets_wall(tile_map, origin, step, count));
    } else {
        lemma_ray_starts_at_origin(origin, step);
        assert(whole_part(origin.y as int) < 0 || whole_part(origin.y as int) >= side);
        assert(meets_wall(tile_map, origin, step, 0));
    }
}

/// A ray that is sure to leave the map within `MAX_RAY_STEPS` steps is not
/// degenerate: it has a contact, wherever it starts and whatever the map
/// holds.
pub proof fn lemma_ray_that_crosses_map_has_contact(tile_map: TileMap, origin: Point, step: RayStep)
    requires
        tile_map.wf(),
        crosses_map(tile_map, step),
    ensures
        !is_degenerate(tile_map, origin, step),
{
    if step.dx != 0 && 2 * steps_across(tile_map.width as int, step.dx as int) - 1 <= MAX_RAY_STEPS {
        lemma_ray_leaves_along_x(tile_map, origin, step);
    } else {
        lemma_ray_leaves_along_y(tile_map, origin, step);
    }
}

/// Before its first step a ray is at its origin.
pub proof fn lemma_ray_starts_at_origin(origin: Point, step: RayStep)
    ensures
        ray_x(origin, step, 0) == origin.x,
        ray_y(origin, step, 0) == origin.y,
{
    assert((0nat + 1) / 2 == 0 && 0nat / 2 == 0);
    assert(step.dx * 0 == 0 && step.dy * 0 == 0);
}

/// One step more moves a ray along one axis only: along x after an even
/// count, along y after an odd one.
pub proof fn lemma_ray_advances(origin: Point, step: RayStep, count: nat)
    ensures
        count % 2 == 0 ==> ray_x(origin, step, count + 1) == ray_x(origin, step, count) + step.dx
            && ray_y(origin, step, count + 1) == ray_y(origin, step, count),
        count % 2 == 1 ==> ray_x(origin, step, count + 1) == ray_x(origin, step, count) && ray_y(
            origin,
            step,
            count + 1,
        ) == ray_y(origin, step, count) + step.dy,
{
    let half = (count / 2) as int;
    let dx = step.dx as int;
    let dy = step.dy as int;
    if count % 2 == 0 {
        assert((count + 1) / 2 == half);
        assert((count + 2) / 2 == half + 1);
        assert(dx * (half + 1) == dx * half + dx) by (nonlinear_arith);
    } else {
        assert((count + 1) / 2 == half + 1);
        assert((count + 2) / 2 == half + 1);
        assert(dy * (half + 1) == dy * half + dy) by (nonlinear_arith);
    }
}

/// A ray never turns back: after any number of steps it lies on or beyond
/// its origin, along each axis in the direction of its step.
pub proof fn lemma_ray_never_turns_back(origin: Point, step: RayStep, count: nat)
    ensures
        (ray_x(origin, step, count) - origin.x) * step.dx >= 0,
        (ray_y(origin, step, count) - origin.y) * step.dy >= 0,
{
    let dx = step.dx as int;
    let dy = step.dy as int;
    let across = ((count + 1) / 2) as int;
    let down = (count / 2) as int;
    assert((dx * across) * dx >= 0) by (nonlinear_arith)
        requires
            across >= 0,
    ;
    assert((dy * down) * dy >= 0) by (nonlinear_arith)
        requires
            down >= 0,
    ;
}

/// A ray has at most one contact.
pub proof fn lemma_contact_is_unique(
    tile_map: TileMap,
    origin: Point,
    step: RayStep,
    first: ContactPoint,
    second: ContactPoint,
)
    requires
        is_contact_of(tile_map, origin, step, first),
        is_contact_of(tile_map, origin, step, second),
    ensures
        first == second,
{
    let a = choose|count: nat|
        count <= MAX_RAY_STEPS && #[trigger] contact_after(tile_map, origin, step, count, first);
    let b = choose|count: nat|
        count <= MAX_RAY_STEPS && #[trigger] contact_after(tile_map, origin, step, count, second);
    if a < b {
        assert(!meets_wall(tile_map, origin, step, a));
    }
    if b < a {
        assert(!meets_wall(tile_map, origin, step, b));
    }
}

/// Marches one ray from the viewer's position until it is on a wall: step 0
/// adds `step.dx` to x, step 1 adds `step.dy` to y, and so on in turn. The
/// contact holds the place reached, the wall kind there, and the plane by
/// the number of steps taken. A ray that is on no wall after `MAX_RAY_STEPS`
/// steps is reported as degenerate.
pub fn get_particle_contact_point(player: &Player, step: RayStep, tile_map: &TileMap) -> (result:
    Result<ContactPoint, DegenerateRayError>)
    requires
        tile_map.wf(),
    ensures
        result is Err <==> is_degenerate(*tile_map, player.position, step),
        crosses_map(*tile_map, step) ==> result is Ok,
        result matches Ok(contact) ==> {
            &&& is_contact_of(*tile_map, player.position, step, contact)
            &&& contact.value != EMPTY
            &&& contact.value == tile_map.value_under(contact.point)
            &&& (contact.point.x - player.position.x) * step.dx >= 0
            &&& (contact.point.y - player.position.y) * step.dy >= 0
        },
        result matches Err(error) ==> {
            &&& is_degenerate(*tile_map, player.position, step)
            &&& error == (DegenerateRayError { origin: player.position, step })
        },
{
    let origin = player.position;
    let mut particle_position = origin;
    let mut counter: u32 = 0;
    proof {
        lemma_ray_starts_at_origin(origin, step);
    }
    loop
        invariant
            tile_map.wf(),
            origin == player.position,
            counter <= MAX_RAY_STEPS,
            particle_position.x == ray_x(origin, step, counter as nat),
            particle_position.y == ray_y(origin, step, counter as nat),
            forall|earlier: nat|
                earlier < counter ==> !#[trigger] meets_wall(*tile_map, origin, step, earlier),
        decreases MAX_RAY_STEPS - counter,
    {
        let value = tile_map.tile_value_under(particle_position);
        if value != EMPTY {
            let plane = if counter % 2 == 0 {
                ContactPlane::Horizontal
            } else {
                ContactPlane::Vertical
            };
            let contact = ContactPoint::new(particle_position, plane, value);
            proof {
                assert(contact_after(*tile_map, origin, step, counter as nat, contact));
                assert(meets_wall(*tile_map, origin, step, counter as nat));
                lemma_ray_never_turns_back(origin, step, counter as nat);
            }
            return Ok(contact);
        }
        if counter == MAX_RAY_STEPS {
            proof {
                assert forall|count: nat| count <= MAX_RAY_STEPS implies !#[trigger] meets_wall(
                    *tile_map,
                    origin,
                    step,
                    count,
                ) by {
                    if count == counter {
                        assert(!meets_wall(*tile_map, origin, step, counter as nat));
                    }
                }
            }
            proof {
                if crosses_map(*tile_map, step) {
                    lemma_ray_that_crosses_map_has_contact(*tile_map, origin, step);
                }
            }
            return Err(DegenerateRayError { origin, step });
        }
        proof {
            lemma_ray_advances(origin, step, counter as nat);
            assert(!meets_wall(*tile_map, origin, step, counter as nat));
        }
        if counter % 2 == 0 {
            particle_position.x = particle_position.x + step.dx as i32;
        } else {
            particle_position.y = particle_position.y + step.dy as i32;
        }
        counter += 1;
    }
}

/// The angle of the leftmost ray: half the field of view before the angle
/// that the viewer looks at.
pub open spec fn fov_start(player: Player) -> int {
    player.rotation - player.fov / 2
}

/// The number of rays across a field of view `fov` wide: `fov` divided by
/// `ANGLE_STEP` and rounded up, and none for a field that is not positive.
pub open spec fn sample_count(fov: int) -> int {
    if fov <= 0 {
        0
    } else {
        (fov + ANGLE_STEP - 1) / (ANGLE_STEP as int)
    }
}

/// The number of rays is the least number of angle steps that span the field
/// of view.
pub proof fn lemma_sample_count_is_ceiling(fov: int)
    requires
        fov > 0,
    ensures
        (sample_count(fov) - 1) * ANGLE_STEP < fov <= sample_count(fov) * ANGLE_STEP,
{
}

/// The angles of the rays across the viewer's field of view, from left to
/// right: the first at `fov_start`, each next one `ANGLE_STEP` further, as
/// long as they are less than `fov_start` plus the field of view.
pub fn angles_in_fov(player: &Player) -> (angles: Vec<i64>)
    ensures
        angles@.len() == sample_count(player.fov as int),
        forall|index: int|
            0 <= index < angles@.len() ==> #[trigger] angles@[index] == fov_start(*player) + index
                * ANGLE_STEP,
        forall|index: int|
            0 <= index < angles@.len() ==> fov_start(*player) <= #[trigger] angles@[index]
                < fov_start(*player) + player.fov,
        forall|left: int, right: int|
            0 <= left < right < angles@.len() ==> angles@[left] < angles@[right],
{
    let mut angles: Vec<i64> = Vec::new();
    if player.fov <= 0 {
        return angles;
    }
    let start_angle: i64 = player.rotation as i64 - (player.fov / 2) as i64;
    let end_angle: i64 = start_angle + player.fov as i64;
    let mut current_angle: i64 = start_angle;
    while current_angle < end_angle
        invariant
            player.fov > 0,
            start_angle == fov_start(*player),
            end_angle == start_angle + player.fov,
            current_angle == start_angle + angles@.len() * ANGLE_STEP,
            angles@.len() > 0 ==> current_angle - ANGLE_STEP < end_angle,
            forall|index: int|
                0 <= index < angles@.len() ==> #[trigger] angles@[index] == start_angle + index
                    * ANGLE_STEP,
        decreases end_angle + ANGLE_STEP - current_angle,
    {
        angles.push(current_angle);
        current_angle += ANGLE_STEP;
    }
    proof {
        let count = angles@.len() as int;
        assert((count - 1) * ANGLE_STEP < player.fov <= count * ANGLE_STEP);
        assert(count == sample_count(player.fov as int));
        assert forall|left: int, right: int| 0 <= left < right < angles@.len() implies angles@[left]
            < angles@[right] by {
            assert(angles@[left] == start_angle + left * ANGLE_STEP);
            assert(angles@[right] == start_angle + right * ANGLE_STEP);
        }
    }
    angles
}

/// Casts one ray for each of `steps`, all from the viewer's position, and
/// gives their contacts in the order of `steps`. The first ray that meets no
/// wall is reported, and no contacts are given then.
pub fn get_particles_in_view(player: &Player, steps: &Vec<RayStep>, tile_map: &TileMap) -> (result:
    Result<Vec<ContactPoint>, DegenerateRayError>)
    requires
        tile_map.wf(),
    ensures
        result is Err <==> exists|index: int|
            0 <= index < steps@.len() && is_degenerate(
                *tile_map,
                player.position,
                #[trigger] steps@[index],
            ),
        (forall|index: int| 0 <= index < steps@.len() ==> crosses_map(*tile_map, #[trigger] steps@[index]))
            ==> result is Ok,
        result matches Ok(particles) ==> {
            &&& particles@.len() == steps@.len()
            &&& forall|index: int|
                0 <= index < steps@.len() ==> is_contact_of(
                    *tile_map,
                    player.position,
                    steps@[index],
                    #[trigger] particles@[index],
                )
            &&& forall|index: int|
                0 <= index < steps@.len() ==> (#[trigger] particles@[index]).value != EMPTY
        },
        result matches Err(error) ==> exists|index: int|
            {
                &&& 0 <= index < steps@.len()
                &&& error == (DegenerateRayError { origin: player.position, step: #[trigger] steps@[index] })
                &&& is_degenerate(*tile_map, player.position, steps@[index])
                &&& forall|earlier: int|
                    0 <= earlier < index ==> !is_degenerate(
                        *tile_map,
                        player.position,
                        #[trigger] steps@[earlier],
                    )
            },
{
    let mut particles: Vec<ContactPoint> = Vec::new();
    let mut index: usize = 0;
    while index < steps.len()
        invariant
            tile_map.wf(),
            index <= steps@.len(),
            particles@.len() == index,
            forall|earlier: int|
                0 <= earlier < index ==> is_contact_of(
                    *tile_map,
                    player.position,
                    steps@[earlier],
                    #[trigger] particles@[earlier],
                ),
            forall|earlier: int| 0 <= earlier < index ==> (#[trigger] particles@[earlier]).value != EMPTY,
            forall|earlier: int|
                0 <= earlier < index ==> !is_degenerate(
                    *tile_map,
                    player.position,
                    #[trigger] steps@[earlier],
                ),
        decreases steps@.len() - index,
    {
        match get_particle_contact_point(player, steps[index], tile_map) {
            Ok(contact) => {
                proof {
                    lemma_contact_excludes_degenerate(
                        *tile_map,
                        player.position,
                        steps@[index as int],
                        contact,
                    );
                }
                particles.push(contact);
            },
            Err(error) => {
                proof {
                    if crosses_map(*tile_map, steps@[index as int]) {
                        lemma_ray_that_crosses_map_has_contact(
                            *tile_map,
                            player.position,
                            steps@[index as int],
                        );
                    }
                }
                return Err(error);
            },
        }
        index += 1;
    }
    Ok(particles)
}

/// A ray that has a contact is not degenerate.
pub proof fn lemma_contact_excludes_degenerate(
    tile_map: TileMap,
    origin: Point,
    step: RayStep,
    contact: ContactPoint,
)
    requires
        is_contact_of(tile_map, origin, step, contact),
    ensures
        !is_degenerate(tile_map, origin, step),
{
    let count = choose|count: nat|
        count <= MAX_RAY_STEPS && #[trigger] contact_after(tile_map, origin, step, count, contact);
    assert(meets_wall(tile_map, origin, step, count));
}

} // verus!
