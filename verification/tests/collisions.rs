use tile_physics::collisions::{
    collide_with, collisions, is_ground_layer, ray_origins, vec_direction, Collidable, Direction,
};
use tile_physics::movement::{movement, Accelleration, Velocity};
use tile_physics::tilemap::TileGrid;
use tile_physics::vector::Vector2;

const TENTH_OF_A_SECOND: u32 = 100_000;

fn one_tile() -> TileGrid {
    TileGrid::build(vec![Vector2::new(0, 0)], 16)
}

fn entries(accel: &Accelleration) -> Vec<(&str, Vector2)> {
    accel.forces.iter().map(|(name, force)| (name.as_str(), *force)).collect()
}

fn pushed() -> Accelleration {
    let mut accel = Accelleration::new();
    accel.set_force("GRAVITY", Vector2::new(0, -50));
    accel.set_force("PLAYER_ACCEL", Vector2::new(30, 40));
    accel
}

#[test]
fn direction_of_a_motion_along_one_axis() {
    assert_eq!(vec_direction(Vector2::new(0, -1)), Direction::Down);
    assert_eq!(vec_direction(Vector2::new(0, 1)), Direction::Up);
    assert_eq!(vec_direction(Vector2::new(-1, 0)), Direction::Left);
    assert_eq!(vec_direction(Vector2::new(1, 0)), Direction::Right);
    assert_eq!(vec_direction(Vector2::new(0, i32::MIN)), Direction::Down);
    assert_eq!(vec_direction(Vector2::new(i32::MAX, 0)), Direction::Right);
}

#[test]
fn direction_of_no_motion_and_of_a_diagonal_one() {
    assert_eq!(vec_direction(Vector2::new(0, 0)), Direction::Still);
    assert_eq!(vec_direction(Vector2::new(1, 1)), Direction::Still);
    assert_eq!(vec_direction(Vector2::new(-3, 7)), Direction::Still);
}

#[test]
fn rays_start_at_the_leading_corners() {
    let center = Vector2::new(0, -20);
    assert_eq!(
        ray_origins(center, 8, Vector2::new(0, 100)),
        vec![Vector2::new(-4, -16), Vector2::new(4, -16)]
    );
    assert_eq!(
        ray_origins(center, 8, Vector2::new(0, -100)),
        vec![Vector2::new(-4, -24), Vector2::new(4, -24)]
    );
    assert_eq!(
        ray_origins(center, 8, Vector2::new(-1, 0)),
        vec![Vector2::new(-4, -16), Vector2::new(-4, -24)]
    );
    assert_eq!(
        ray_origins(center, 8, Vector2::new(1, 0)),
        vec![Vector2::new(4, -16), Vector2::new(4, -24)]
    );
}

#[test]
fn no_rays_without_a_direction() {
    assert_eq!(ray_origins(Vector2::new(0, -20), 8, Vector2::new(0, 0)), vec![]);
    assert_eq!(ray_origins(Vector2::new(0, -20), 8, Vector2::new(5, 5)), vec![]);
}

#[test]
fn ray_origins_of_an_odd_size_and_at_the_end_of_the_range() {
    assert_eq!(
        ray_origins(Vector2::new(10, 10), 5, Vector2::new(0, 1)),
        vec![Vector2::new(8, 12), Vector2::new(12, 12)]
    );
    assert_eq!(
        ray_origins(Vector2::new(i32::MAX, i32::MIN), 8, Vector2::new(1, 0)),
        vec![Vector2::new(i32::MAX, i32::MIN + 4), Vector2::new(i32::MAX, i32::MIN)]
    );
}

#[test]
fn actor_rising_into_a_tile_is_stopped() {
    let grid = one_tile();
    let collidable = Collidable { size: 8 };
    let position = Vector2::new(0, -20);
    let mut velocity = Velocity { value: Vector2::new(0, 100) };
    let mut accel = pushed();

    collide_with(position, &mut velocity, &mut accel, &collidable, &grid, TENTH_OF_A_SECOND);

    assert_eq!(velocity.value, Vector2::new(0, 0));
    assert_eq!(
        entries(&accel),
        vec![("GRAVITY", Vector2::new(0, 0)), ("PLAYER_ACCEL", Vector2::new(30, 0))]
    );

    // the step that follows leaves the actor where it is, below the tile
    let after = movement(position, &velocity, TENTH_OF_A_SECOND);
    assert_eq!(after, position);
    let top = after.y + collidable.size / 2;
    let tile_bottom = 0 - grid.tile_size / 2;
    assert!(top <= tile_bottom);
}

#[test]
fn stopped_actor_would_have_entered_the_tile() {
    let velocity = Velocity { value: Vector2::new(0, 100) };
    let after = movement(Vector2::new(0, -20), &velocity, TENTH_OF_A_SECOND);
    assert_eq!(after, Vector2::new(0, -10));
    // its top would lie at -6, above the bottom face of the tile at -8
    assert!(after.y + 4 > -8);
}

#[test]
fn actor_short_of_the_tile_is_left_alone() {
    let mut velocity = Velocity { value: Vector2::new(0, 100) };
    let mut accel = pushed();
    // one hundredth of a second: one unit up, into the empty cell below the tile
    collide_with(
        Vector2::new(0, -20),
        &mut velocity,
        &mut accel,
        &Collidable { size: 8 },
        &one_tile(),
        10_000,
    );
    assert_eq!(velocity.value, Vector2::new(0, 100));
    assert_eq!(
        entries(&accel),
        vec![("GRAVITY", Vector2::new(0, -50)), ("PLAYER_ACCEL", Vector2::new(30, 40))]
    );
}

#[test]
fn actor_falling_onto_a_tile_is_stopped() {
    let mut velocity = Velocity { value: Vector2::new(0, -100) };
    let mut accel = pushed();
    collide_with(
        Vector2::new(2, 20),
        &mut velocity,
        &mut accel,
        &Collidable { size: 8 },
        &one_tile(),
        TENTH_OF_A_SECOND,
    );
    assert_eq!(velocity.value, Vector2::new(0, 0));
    assert_eq!(accel.value(), Vector2::new(30, 0));
}

#[test]
fn actor_running_into_a_tile_is_stopped_along_x_only() {
    let mut velocity = Velocity { value: Vector2::new(100, 0) };
    let mut accel = pushed();
    collide_with(
        Vector2::new(-20, 0),
        &mut velocity,
        &mut accel,
        &Collidable { size: 8 },
        &one_tile(),
        TENTH_OF_A_SECOND,
    );
    assert_eq!(velocity.value, Vector2::new(0, 0));
    assert_eq!(
        entries(&accel),
        vec![("GRAVITY", Vector2::new(0, -50)), ("PLAYER_ACCEL", Vector2::new(0, 40))]
    );
}

#[test]
fn actor_sliding_along_a_tile_keeps_its_speed_along_it() {
    // stands on the tile, moves right and is pulled down
    let mut velocity = Velocity { value: Vector2::new(50, -100) };
    let mut accel = pushed();
    collide_with(
        Vector2::new(0, 20),
        &mut velocity,
        &mut accel,
        &Collidable { size: 8 },
        &one_tile(),
        TENTH_OF_A_SECOND,
    );
    assert_eq!(velocity.value, Vector2::new(50, 0));
    assert_eq!(
        entries(&accel),
        vec![("GRAVITY", Vector2::new(0, 0)), ("PLAYER_ACCEL", Vector2::new(30, 0))]
    );
}

#[test]
fn actor_blocked_on_both_axes_is_stopped_on_both() {
    let grid = TileGrid::build(vec![Vector2::new(0, 0), Vector2::new(32, 32)], 16);
    // the tile at (0, 0) is to the left, the one at (32, 32) above
    let mut velocity = Velocity { value: Vector2::new(-100, 100) };
    let mut accel = pushed();
    collide_with(
        Vector2::new(17, 4),
        &mut velocity,
        &mut accel,
        &Collidable { size: 8 },
        &TileGrid::build(vec![Vector2::new(0, 0), Vector2::new(16, 16)], 16),
        TENTH_OF_A_SECOND,
    );
    assert_eq!(velocity.value, Vector2::new(0, 0));
    assert_eq!(
        entries(&accel),
        vec![("GRAVITY", Vector2::new(0, 0)), ("PLAYER_ACCEL", Vector2::new(0, 0))]
    );
    // against the other grid nothing is in reach
    let mut velocity = Velocity { value: Vector2::new(-100, 100) };
    let mut accel = pushed();
    collide_with(
        Vector2::new(60, -40),
        &mut velocity,
        &mut accel,
        &Collidable { size: 8 },
        &grid,
        TENTH_OF_A_SECOND,
    );
    assert_eq!(velocity.value, Vector2::new(-100, 100));
}

#[test]
fn one_corner_in_reach_is_enough() {
    // only the left corner of the actor ends below the tile
    let mut velocity = Velocity { value: Vector2::new(0, 100) };
    let mut accel = Accelleration::new();
    collide_with(
        Vector2::new(11, -20),
        &mut velocity,
        &mut accel,
        &Collidable { size: 8 },
        &one_tile(),
        TENTH_OF_A_SECOND,
    );
    assert_eq!(velocity.value, Vector2::new(0, 0));
}

#[test]
fn corner_on_the_line_of_a_face_does_not_count() {
    // the left corner rises along the line of the right face of the tile
    let mut velocity = Velocity { value: Vector2::new(0, 100) };
    let mut accel = Accelleration::new();
    collide_with(
        Vector2::new(12, -20),
        &mut velocity,
        &mut accel,
        &Collidable { size: 8 },
        &one_tile(),
        TENTH_OF_A_SECOND,
    );
    assert_eq!(velocity.value, Vector2::new(0, 100));
}

#[test]
fn actor_at_rest_is_left_alone() {
    let mut velocity = Velocity::new();
    let mut accel = pushed();
    collide_with(
        Vector2::new(0, -12),
        &mut velocity,
        &mut accel,
        &Collidable { size: 8 },
        &one_tile(),
        TENTH_OF_A_SECOND,
    );
    assert_eq!(velocity.value, Vector2::new(0, 0));
    assert_eq!(accel.value(), Vector2::new(30, -10));
}

#[test]
fn step_too_short_to_move_does_not_collide() {
    let mut velocity = Velocity { value: Vector2::new(0, 100) };
    let mut accel = pushed();
    // 100 units per second over 9999 microseconds is less than one unit
    collide_with(
        Vector2::new(0, -12),
        &mut velocity,
        &mut accel,
        &Collidable { size: 8 },
        &one_tile(),
        9_999,
    );
    assert_eq!(velocity.value, Vector2::new(0, 100));
    assert_eq!(accel.value(), Vector2::new(30, -10));
}

#[test]
fn ground_layers_are_told_by_their_name() {
    assert!(is_ground_layer("ground"));
    assert!(is_ground_layer("ground_1"));
    assert!(is_ground_layer("ground floor"));
    assert!(!is_ground_layer("groun"));
    assert!(!is_ground_layer("Ground"));
    assert!(!is_ground_layer("background"));
    assert!(!is_ground_layer("underground"));
    assert!(!is_ground_layer(" ground"));
    assert!(!is_ground_layer(""));
}

#[test]
fn only_ground_layers_collide() {
    let position = Vector2::new(0, -20);
    let collidable = Collidable { size: 8 };

    let decoration = vec![(one_tile(), "background".to_string()), (one_tile(), "clouds".to_string())];
    let mut velocity = Velocity { value: Vector2::new(0, 100) };
    let mut accel = pushed();
    collisions(position, &mut velocity, &mut accel, &collidable, &decoration, TENTH_OF_A_SECOND);
    assert_eq!(velocity.value, Vector2::new(0, 100));
    assert_eq!(accel.value(), Vector2::new(30, -10));

    let level = vec![
        (one_tile(), "background".to_string()),
        (TileGrid::build(vec![], 16), "ground_empty".to_string()),
        (one_tile(), "ground_main".to_string()),
    ];
    collisions(position, &mut velocity, &mut accel, &collidable, &level, TENTH_OF_A_SECOND);
    assert_eq!(velocity.value, Vector2::new(0, 0));
    assert_eq!(accel.value(), Vector2::new(30, 0));
}

#[test]
fn each_ground_layer_can_stop_an_axis() {
    let level = vec![
        (TileGrid::build(vec![Vector2::new(0, 0)], 16), "ground_left".to_string()),
        (TileGrid::build(vec![Vector2::new(16, 16)], 16), "ground_above".to_string()),
    ];
    let mut velocity = Velocity { value: Vector2::new(-100, 100) };
    let mut accel = pushed();
    collisions(
        Vector2::new(17, 4),
        &mut velocity,
        &mut accel,
        &Collidable { size: 8 },
        &level,
        TENTH_OF_A_SECOND,
    );
    assert_eq!(velocity.value, Vector2::new(0, 0));
    assert_eq!(accel.value(), Vector2::new(0, 0));
}

#[test]
fn level_without_layers_changes_nothing() {
    let mut velocity = Velocity { value: Vector2::new(7, -7) };
    let mut accel = pushed();
    collisions(
        Vector2::new(0, 0),
        &mut velocity,
        &mut accel,
        &Collidable { size: 8 },
        &vec![],
        TENTH_OF_A_SECOND,
    );
    assert_eq!(velocity.value, Vector2::new(7, -7));
    assert_eq!(accel.value(), Vector2::new(30, -10));
}
