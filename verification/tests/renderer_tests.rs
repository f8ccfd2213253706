use katzenstein::fixed::{Point, ONE};
use katzenstein::map::{Color, WallKindError};
use katzenstein::player::Player;
use katzenstein::raycasting::{ContactPlane, ContactPoint};
use katzenstein::renderer::{
    project_walls, ProjectionError, WallSlice, LOGICAL_TO_PHYSICAL_SIZE, MAX_SAMPLES,
};

fn wall(x: i32, y: i32, plane: ContactPlane, value: i8) -> ContactPoint {
    ContactPoint { point: Point { x, y }, plane, value }
}

const RED: Color = Color { r: 255, g: 0, b: 0, a: 255 };
const DARK_RED: Color = Color { r: 193, g: 0, b: 0, a: 255 };

#[test]
fn constants_of_the_projection() {
    assert_eq!(LOGICAL_TO_PHYSICAL_SIZE, 50);
    assert_eq!(MAX_SAMPLES, 1_048_576);
}

#[test]
fn wall_at_a_distance_of_the_screen_height_is_one_pixel_high() {
    let player = Player::new();
    let particles = vec![wall(600 * ONE, 0, ContactPlane::Vertical, 1)];
    let slices = project_walls(&player, &particles, 800, 600).unwrap();
    assert_eq!(slices.len(), 1);
    // one pixel high, its top half a pixel above the middle of the screen
    assert_eq!(slices[0].height, 65_536);
    assert_eq!(slices[0].y, 300 * 65_536 - 32_768);
    assert_eq!(slices[0].height as f64 / 65_536.0, 1.0);
    assert_eq!(slices[0].y as f64 / 65_536.0, 600.0 / 2.0 - 0.5);
}

#[test]
fn wall_one_tile_away_fills_the_screen() {
    let mut player = Player::new();
    player.position = Point { x: 3 * ONE, y: 4 * ONE };
    let particles = vec![wall(3 * ONE, 5 * ONE, ContactPlane::Horizontal, 1)];
    let slices = project_walls(&player, &particles, 640, 480).unwrap();
    assert_eq!(
        slices,
        vec![WallSlice {
            x: 0,
            y: 0,
            // 1 / 640 * 50 = 0.078125
            width: 5_120,
            height: 480 * 65_536,
            color: DARK_RED,
        }]
    );
}

#[test]
fn wall_nearer_than_one_tile_is_higher_than_the_screen() {
    let player = Player::new();
    let particles = vec![wall(ONE / 4, 0, ContactPlane::Vertical, 1)];
    let slices = project_walls(&player, &particles, 100, 100).unwrap();
    assert_eq!(slices[0].height, 400 * 65_536);
    assert_eq!(slices[0].y, -150 * 65_536);
}

#[test]
fn slices_stand_side_by_side_in_the_order_of_the_contacts() {
    let player = Player::new();
    let particles = vec![
        wall(2 * ONE, 0, ContactPlane::Vertical, 1),
        wall(0, 4 * ONE, ContactPlane::Horizontal, 2),
        wall(-3 * ONE, -4 * ONE, ContactPlane::Vertical, 3),
        wall(8 * ONE, 0, ContactPlane::Horizontal, 3),
    ];
    let slices = project_walls(&player, &particles, 200, 400).unwrap();
    // 4 / 200 * 50 = 1 pixel for each slice
    assert_eq!(
        slices,
        vec![
            WallSlice { x: 0, y: 100 * 65_536, width: 65_536, height: 200 * 65_536, color: RED },
            WallSlice {
                x: 65_536,
                y: 150 * 65_536,
                width: 65_536,
                height: 100 * 65_536,
                color: Color { r: 0, g: 193, b: 0, a: 255 },
            },
            WallSlice {
                x: 2 * 65_536,
                y: 160 * 65_536,
                width: 65_536,
                height: 80 * 65_536,
                color: Color { r: 0, g: 0, b: 255, a: 255 },
            },
            WallSlice {
                x: 3 * 65_536,
                y: 175 * 65_536,
                width: 65_536,
                height: 50 * 65_536,
                color: Color { r: 0, g: 0, b: 193, a: 255 },
            },
        ]
    );
}

#[test]
fn slice_lengths_are_rounded_down() {
    let player = Player::new();
    let particles = vec![
        wall(3 * ONE, 0, ContactPlane::Vertical, 1),
        wall(3, 0, ContactPlane::Vertical, 1),
        wall(1, 1, ContactPlane::Vertical, 1),
    ];
    let slices = project_walls(&player, &particles, 7, 1).unwrap();
    // 3 * 50 * 65536 / 7
    assert_eq!(slices[0].width, 1_404_342);
    assert_eq!(slices[1].x, 1_404_342);
    assert_eq!(slices[2].x, 2_808_684);
    // 65536 / 3
    assert_eq!(slices[0].height, 21_845);
    assert_eq!(slices[0].y, 32_768 - 10_922);
    // 2^32 / 3
    assert_eq!(slices[1].height, 1_431_655_765);
    assert_eq!(slices[1].y, 32_768 - 715_827_882);
    // the distance from (0, 0) to (1, 1) is rounded down to 1
    assert_eq!(slices[2].height, 4_294_967_296);
}

#[test]
fn slices_of_the_largest_screen_and_the_least_distance() {
    let player = Player::new();
    let particles = vec![wall(1, 0, ContactPlane::Vertical, 1)];
    let slices = project_walls(&player, &particles, u32::MAX, u32::MAX).unwrap();
    assert_eq!(slices[0].height, 4_294_967_295 * 4_294_967_296);
    assert_eq!(slices[0].y, 4_294_967_295 * 32_768 - 4_294_967_295 * 2_147_483_648);
    assert_eq!(slices[0].width, 0);
    assert_eq!(slices[0].x, 0);
}

#[test]
fn slices_of_a_screen_without_height() {
    let player = Player::new();
    let particles = vec![wall(ONE, 0, ContactPlane::Vertical, 1)];
    let slices = project_walls(&player, &particles, 50, 0).unwrap();
    assert_eq!(
        slices,
        vec![WallSlice { x: 0, y: 0, width: 65_536, height: 0, color: RED }]
    );
}

#[test]
fn no_contacts_no_slices() {
    let player = Player::new();
    assert_eq!(project_walls(&player, &Vec::new(), 800, 600), Ok(Vec::new()));
}

#[test]
fn screen_without_width_is_an_error() {
    let player = Player::new();
    let particles = vec![wall(ONE, 0, ContactPlane::Vertical, 1)];
    assert_eq!(project_walls(&player, &particles, 0, 600), Err(ProjectionError::ZeroScreenWidth));
    assert_eq!(project_walls(&player, &Vec::new(), 0, 600), Err(ProjectionError::ZeroScreenWidth));
}

#[test]
fn too_many_contacts_are_an_error() {
    let player = Player::new();
    let one = wall(ONE, 0, ContactPlane::Vertical, 1);
    let most = vec![one; MAX_SAMPLES];
    let slices = project_walls(&player, &most, 1, 600).unwrap();
    assert_eq!(slices.len(), 1_048_576);
    assert_eq!(slices[1_048_575].width, 1_048_576 * 50 * 65_536);
    assert_eq!(slices[1_048_575].x, 1_048_575 * 1_048_576 * 50 * 65_536);
    let more = vec![one; MAX_SAMPLES + 1];
    assert_eq!(project_walls(&player, &more, 1, 600), Err(ProjectionError::TooManySamples));
}

#[test]
fn contact_on_an_empty_tile_is_an_error() {
    let player = Player::new();
    let particles = vec![
        wall(ONE, 0, ContactPlane::Vertical, 1),
        wall(ONE, 0, ContactPlane::Vertical, 0),
        wall(ONE, 0, ContactPlane::Vertical, 9),
    ];
    assert_eq!(
        project_walls(&player, &particles, 800, 600),
        Err(ProjectionError::WallKind(WallKindError::Empty))
    );
}

#[test]
fn contact_of_an_unknown_wall_kind_is_an_error() {
    let player = Player::new();
    let particles = vec![
        wall(ONE, 0, ContactPlane::Vertical, 1),
        wall(ONE, 0, ContactPlane::Vertical, 4),
        wall(ONE, 0, ContactPlane::Vertical, 0),
    ];
    assert_eq!(
        project_walls(&player, &particles, 800, 600),
        Err(ProjectionError::WallKind(WallKindError::Unknown))
    );
}

#[test]
fn contact_where_the_viewer_stands_is_an_error() {
    let mut player = Player::new();
    player.position = Point { x: 5, y: 6 };
    let particles = vec![
        wall(ONE, 0, ContactPlane::Vertical, 1),
        wall(5, 6, ContactPlane::Vertical, 2),
    ];
    assert_eq!(project_walls(&player, &particles, 800, 600), Err(ProjectionError::ZeroDistance));
    // a wall kind without a colour is found before the distance is taken
    let both = vec![wall(5, 6, ContactPlane::Vertical, 0)];
    assert_eq!(
        project_walls(&player, &both, 800, 600),
        Err(ProjectionError::WallKind(WallKindError::Empty))
    );
}
