use skii::game::{Object, ObjectType, Player, PlayerType, TileType, World};
use skii::rng::Lcg;

fn tile(forward: i64, sideway: i64, weight: i64) -> TileType {
    TileType { forward_friction: forward, sideway_friction: sideway, distribution: weight, texture: 0 }
}

fn obstacle_type(weight: i64, hx: i64, hy: i64) -> ObjectType {
    ObjectType { texture: 0, distribution: weight, hitbox_x: hx, hitbox_y: hy }
}

fn basic_world() -> World {
    World::new(
        PlayerType { texture: 0 },
        vec![tile(500, 300, 1000)],
        vec![obstacle_type(1000, 1000, 1000)],
    )
}

#[test]
fn integrator_is_noop_at_zero_dt() {
    let mut p = Player {
        position_x: 3_500,
        position_y: 2_000,
        rotation: 700,
        velocity_x: 1_200,
        velocity_y: 2_500,
        angular_velocity: 400,
    };
    let before = p;
    p.update(&tile(500, 300, 1000), 0);
    assert_eq!(p, before);
}

#[test]
fn tick_is_noop_at_zero_dt() {
    let mut w = basic_world();
    w.reset(7, 16);
    let before = w.player;
    let crashed = w.update(0);
    assert!(!crashed);
    assert_eq!(w.player, before);
}

#[test]
fn friction_strictly_reduces_speed() {
    let mut p = Player {
        position_x: 0,
        position_y: 0,
        rotation: 0,
        velocity_x: 3_000,
        velocity_y: 4_000,
        angular_velocity: 0,
    };
    let before = p.velocity_x * p.velocity_x + p.velocity_y * p.velocity_y;
    p.update(&tile(500, 300, 1000), 100);
    let after = p.velocity_x * p.velocity_x + p.velocity_y * p.velocity_y;
    assert!(after < before);
}

#[test]
fn forward_friction_exact_decay() {
    // Heading straight (rotation 0), no sideways friction: each velocity
    // component decays by the factor forward_friction * dt, truncated.
    let mut p = Player {
        position_x: 1_000,
        position_y: 2_000,
        rotation: 0,
        velocity_x: 3_000,
        velocity_y: 4_000,
        angular_velocity: 0,
    };
    p.update(&tile(500, 0, 1000), 100);
    // decay fraction: 500 * 100 / 1000 = 50 thousandths
    assert_eq!(p.velocity_x, 3_000 - 3_000 * 50 / 1_000);
    assert_eq!(p.velocity_y, 4_000 - 4_000 * 50 / 1_000);
    assert_eq!(p.position_x, 1_000 + p.velocity_x * 100 / 1_000);
    assert_eq!(p.position_y, 2_000 + p.velocity_y * 100 / 1_000);
}

#[test]
fn angular_velocity_decays_at_half_strength() {
    let mut p = Player {
        position_x: 0,
        position_y: 0,
        rotation: 0,
        velocity_x: 0,
        velocity_y: 0,
        angular_velocity: 1_000,
    };
    p.update(&tile(0, 1_000, 1000), 100);
    // sideway decay fraction is 100 thousandths; angular uses half of it.
    assert_eq!(p.angular_velocity, 1_000 - 1_000 * 50 / 1_000);
    assert_eq!(p.rotation, p.angular_velocity * 100 / 1_000);
}

#[test]
fn scroll_keeps_height_and_advances_counter() {
    let mut w = basic_world();
    w.reset(7, 16);
    let mut rng = Lcg::new(42);
    w.scroll(3, &mut rng);
    assert_eq!(w.height(), 16);
    assert_eq!(w.width(), 7);
    assert_eq!(w.real_y, 3_000);
    assert_eq!(w.player.position_y, -3_000);
}

#[test]
fn scroll_by_zero_changes_nothing() {
    let mut w = basic_world();
    w.reset(7, 16);
    let mut rng = Lcg::new(42);
    w.scroll(0, &mut rng);
    assert_eq!(w.height(), 16);
    assert_eq!(w.real_y, 0);
    assert_eq!(w.objects.len(), 0);
}

#[test]
fn scroll_preserves_total_distance() {
    let mut w = basic_world();
    w.reset(7, 16);
    w.player.position_y = 6_200;
    let total_before = w.real_y + w.player.position_y;
    let mut rng = Lcg::new(5);
    w.scroll(4, &mut rng);
    assert_eq!(w.real_y + w.player.position_y, total_before);
}

#[test]
fn scroll_evicts_objects_behind_the_player() {
    let mut w = basic_world();
    w.reset(7, 16);
    w.objects.push((0, Object::new(1_500, 500)));
    w.objects.push((0, Object::new(2_500, 5_500)));
    let mut rng = Lcg::new(42);
    w.scroll(3, &mut rng);
    for (_, o) in &w.objects {
        assert!(o.position_y >= 0);
    }
    // The obstacle that started at 5.5 survives the 3-row shift at 2.5.
    assert_eq!(w.objects[0].1.position_y, 2_500);
    assert_eq!(w.objects[0].1.position_x, 2_500);
}

#[test]
fn collision_when_off_course() {
    let mut w = basic_world();
    w.reset(7, 16);
    // x = -0.01 in world units
    w.player.position_x = -10;
    assert!(w.collided());
    // x exactly at grid width
    w.player.position_x = 7_000;
    assert!(w.collided());
    // x well past the far edge
    w.player.position_x = 7_000 + 5_000;
    assert!(w.collided());
    // strictly inside, no obstacles: no collision
    w.player.position_x = 3_500;
    assert!(!w.collided());
}

#[test]
fn collision_hitbox_bounds_are_inclusive() {
    let mut w = basic_world();
    w.reset(7, 16);
    // An obstacle centered at (2, 2) with a 1 x 1 hitbox.
    w.objects.push((0, Object::new(2_000, 2_000)));

    w.player.position_x = 2_500;
    w.player.position_y = 2_500;
    assert!(w.collided());

    w.player.position_x = 1_500;
    w.player.position_y = 1_500;
    assert!(w.collided());

    w.player.position_x = 2_510;
    w.player.position_y = 2_000;
    assert!(!w.collided());
}

#[test]
fn corner_cell_has_three_neighbors() {
    let mut w = basic_world();
    w.reset(7, 16);
    let neighbors = w.get_close_tiles(0, 0);
    assert_eq!(neighbors.len(), 3);
}

#[test]
fn interior_cell_has_eight_neighbors() {
    let mut w = basic_world();
    w.reset(7, 16);
    let neighbors = w.get_close_tiles(3, 8);
    assert_eq!(neighbors.len(), 8);
}

#[test]
fn objects_in_radius_is_exact_euclidean() {
    let mut w = basic_world();
    w.reset(7, 16);
    // 3-4-5 triangle from the query point: distance exactly 5 units.
    w.objects.push((0, Object::new(3_000, 4_000)));
    assert_eq!(w.objects_in_radius(5_000, 0, 0).len(), 1);
    assert_eq!(w.objects_in_radius(4_999, 0, 0).len(), 0);
}

#[test]
fn update_applies_gravity_then_integrates() {
    let mut w = World::new(
        PlayerType { texture: 0 },
        vec![tile(0, 0, 1000)],
        vec![obstacle_type(1000, 1000, 1000)],
    );
    w.reset(7, 16);
    let crashed = w.update(100);
    assert!(!crashed);
    // Gravity: 1.5 u/s^2 over 0.1 s on a frictionless tile.
    assert_eq!(w.player.velocity_y, 150);
    assert_eq!(w.player.position_y, 150 * 100 / 1_000);
    assert_eq!(w.player.position_x, 3_500);
}

#[test]
fn restart_after_collision_gives_fresh_run() {
    let mut w = basic_world();
    w.reset(7, 16);
    w.player.position_x = -10;
    assert!(w.collided());

    w.reset(7, 16);
    assert_eq!(w.player.position_x, 3_500);
    assert_eq!(w.player.position_y, 0);
    assert_eq!(w.player.velocity_x, 0);
    assert_eq!(w.player.velocity_y, 0);
    assert_eq!(w.real_y, 0);
    assert_eq!(w.height(), 16);
    assert_eq!(w.width(), 7);
    assert_eq!(w.objects.len(), 0);
    assert!(!w.collided());
    for row in &w.tiles {
        for &t in row {
            assert_eq!(t, 0);
        }
    }
}

#[test]
fn catalogs_are_sorted_most_common_first() {
    let w = World::new(
        PlayerType { texture: 0 },
        vec![tile(0, 0, 20), tile(0, 0, 1_000), tile(0, 0, 100)],
        vec![obstacle_type(50, 0, 0), obstacle_type(2_000, 0, 0)],
    );
    assert_eq!(w.tile_types[0].distribution, 1_000);
    assert_eq!(w.tile_types[1].distribution, 100);
    assert_eq!(w.tile_types[2].distribution, 20);
    assert_eq!(w.object_types[0].distribution, 2_000);
    assert_eq!(w.object_types[1].distribution, 50);
}

#[test]
fn trig_matches_unit_circle_landmarks() {
    assert_eq!(skii::trig::cos_milli(0), 1_000);
    assert_eq!(skii::trig::sin_milli(0), 0);
    assert_eq!(skii::trig::cos_milli(3_142), -1_000);
    assert_eq!(skii::trig::sin_milli(1_571), 1_000);
    // A full turn comes back to the start.
    assert_eq!(skii::trig::cos_milli(6_283), skii::trig::cos_milli(0));
    for r in -7_000..7_000 {
        let c = skii::trig::cos_milli(r);
        let s = skii::trig::sin_milli(r);
        assert!(-1_000 <= c && c <= 1_000);
        assert!(-1_000 <= s && s <= 1_000);
    }
}

#[test]
fn sideways_friction_damps_velocity_along_heading() {
    // Heading a quarter turn: the heading axis is (0, 1), so the whole
    // vertical velocity is sideways velocity and decays by sf * dt.
    let mut p = Player {
        position_x: 0,
        position_y: 0,
        rotation: 1_571,
        velocity_x: 0,
        velocity_y: 2_000,
        angular_velocity: 0,
    };
    p.update(&tile(0, 1_000, 1000), 100);
    assert_eq!(p.velocity_x, 0);
    assert_eq!(p.velocity_y, 2_000 - 2_000 * 100 / 1_000);
}

#[test]
fn scroll_shifts_surviving_rows_toward_the_player() {
    let mut w = basic_world();
    w.reset(7, 16);
    let mut rng = Lcg::new(77);
    w.scroll(4, &mut rng);
    let before = w.tiles.clone();
    w.scroll(2, &mut rng);
    assert_eq!(w.tiles.len(), 16);
    for j in 0..14 {
        assert_eq!(w.tiles[j], before[j + 2]);
    }
}

#[test]
fn steering_torque_targets_turn_rate_with_damping() {
    let mut p = Player {
        position_x: 0,
        position_y: 0,
        rotation: 0,
        velocity_x: 0,
        velocity_y: 0,
        angular_velocity: 0,
    };
    // From rest, a held key ramps the turn rate toward the target.
    p.apply_steering(1, 100);
    assert_eq!(p.angular_velocity, 15_000 * 100 / 1_000);

    // With no key held, the damping alone bleeds a fifth per second.
    p.angular_velocity = 10_000;
    p.apply_steering(0, 100);
    assert_eq!(p.angular_velocity, 10_000 - 10_000 / 5 * 100 / 1_000);

    // Steering against the current turn acts harder than with it.
    let mut with_turn = p;
    let mut against_turn = p;
    with_turn.apply_steering(1, 100);
    against_turn.apply_steering(-1, 100);
    assert!((with_turn.angular_velocity - p.angular_velocity).abs()
        < (against_turn.angular_velocity - p.angular_velocity).abs());
}
