use skii::game::{ObjectType, PlayerType, TileType, World};
use skii::generation::{object_chance, tile_chance};
use skii::rng::{Lcg, RandomSource, SystemRandom};

fn tile(weight: i64) -> TileType {
    TileType { forward_friction: 500, sideway_friction: 300, distribution: weight, texture: 0 }
}

fn two_tile_world() -> World {
    World::new(
        PlayerType { texture: 0 },
        // One dominant tile (weight 1.0) and one rare tile (weight 0.02).
        vec![tile(1_000), tile(20)],
        vec![ObjectType { texture: 0, distribution: 200, hitbox_x: 1_000, hitbox_y: 1_000 }],
    )
}

#[test]
fn tile_chance_formula_exact_values() {
    // weight 0.02: base chance is one in 50
    assert_eq!(tile_chance(20, 0), 50);
    // one matching neighbor halves the chance, rounded up
    assert_eq!(tile_chance(20, 1), 25);
    assert_eq!(tile_chance(20, 3), 25);
    // four matching neighbors additionally multiply it by five
    assert_eq!(tile_chance(20, 4), 125);
    // weight 1.0: always accepted
    assert_eq!(tile_chance(1_000, 0), 1);
    // weight above one truncates to a chance of zero (always accepted)
    assert_eq!(tile_chance(3_000, 0), 0);
}

#[test]
fn object_chance_formula_exact_values() {
    assert_eq!(object_chance(20, 0), 50);
    assert_eq!(object_chance(20, 1), 25);
    // two nearby obstacles multiply the halved chance by six
    assert_eq!(object_chance(20, 2), 150);
    assert_eq!(object_chance(1_000, 0), 1);
}

#[test]
fn lcg_draws_stay_below_bound() {
    let mut rng = Lcg::new(99);
    for _ in 0..1_000 {
        let r = rng.below(7);
        assert!(r < 7);
    }
    assert_eq!(rng.below(1), 0);
}

#[test]
fn lcg_is_deterministic() {
    let mut a = Lcg::new(1234);
    let mut b = Lcg::new(1234);
    for _ in 0..100 {
        assert_eq!(a.below(1_000_000), b.below(1_000_000));
    }
}

#[test]
fn system_random_stays_below_bound() {
    let mut rng = SystemRandom::new();
    for _ in 0..200 {
        let r = rng.below(5);
        assert!(r < 5);
    }
    // With a bound of one, only zero can come back: a source that handed the
    // bound itself back would fail here.
    for _ in 0..10 {
        assert_eq!(rng.below(1), 0);
    }
}

#[test]
fn generated_rows_keep_width_and_valid_tiles() {
    let mut w = two_tile_world();
    w.reset(7, 16);
    let mut rng = Lcg::new(3);
    for _ in 0..50 {
        w.generate_row(&mut rng);
    }
    assert_eq!(w.height(), 66);
    for row in &w.tiles {
        assert_eq!(row.len(), 7);
        for &t in row {
            assert!(t < w.tile_types.len());
        }
    }
}

#[test]
fn generation_respects_weights_and_clusters() {
    let mut w = two_tile_world();
    w.reset(7, 16);
    let mut rng = Lcg::new(7);
    for _ in 0..1_000 {
        w.generate_row(&mut rng);
    }
    // Look only at the freshly generated part of the grid.
    let rows: Vec<Vec<usize>> = w.tiles[16..].to_vec();
    let mut rare: u64 = 0;
    let mut total: u64 = 0;
    for row in &rows {
        for &t in row {
            total += 1;
            if t == 1 {
                rare += 1;
            }
        }
    }
    // The dominant tile stays overwhelmingly more frequent than the rare one.
    assert!(total == 7_000);
    assert!(rare > 0);
    assert!(rare * 10 < total);

    // Clustering bias: right above an already-rare tile, rare tiles appear
    // more often than their overall frequency alone would predict.
    let mut above_rare: u64 = 0;
    let mut above_rare_rare: u64 = 0;
    for y in 0..rows.len() - 1 {
        for x in 0..rows[y].len() {
            if rows[y][x] == 1 {
                above_rare += 1;
                if rows[y + 1][x] == 1 {
                    above_rare_rare += 1;
                }
            }
        }
    }
    assert!(above_rare > 0);
    // conditional frequency > overall frequency
    assert!(above_rare_rare * total > rare * above_rare);
}

#[test]
fn seeded_generation_is_reproducible() {
    let mut w1 = two_tile_world();
    let mut w2 = two_tile_world();
    w1.reset(7, 16);
    w2.reset(7, 16);
    let mut r1 = Lcg::new(2024);
    let mut r2 = Lcg::new(2024);
    w1.scroll(5, &mut r1);
    w2.scroll(5, &mut r2);
    assert_eq!(w1.tiles, w2.tiles);
    assert_eq!(w1.objects.len(), w2.objects.len());
    for i in 0..w1.objects.len() {
        assert_eq!(w1.objects[i].0, w2.objects[i].0);
        assert_eq!(w1.objects[i].1, w2.objects[i].1);
    }
}

#[test]
fn generated_objects_sit_on_column_centers() {
    let mut w = two_tile_world();
    w.reset(7, 16);
    let mut rng = Lcg::new(11);
    for _ in 0..50 {
        w.generate_objects(16, &mut rng);
    }
    assert!(w.objects.len() > 0);
    for (id, o) in &w.objects {
        assert!(*id < w.object_types.len());
        assert_eq!(o.position_y, 16_500);
        assert_eq!((o.position_x - 500) % 1_000, 0);
        assert!(o.position_x >= 500 && o.position_x < 7_000);
        assert_eq!(o.rotation, 0);
    }
}

#[test]
fn generate_clear_resets_grid_and_objects() {
    let mut w = two_tile_world();
    w.reset(7, 16);
    let mut rng = Lcg::new(1);
    w.scroll(6, &mut rng);
    w.generate_clear(5, 9);
    assert_eq!(w.height(), 9);
    assert_eq!(w.width(), 5);
    assert_eq!(w.objects.len(), 0);
    for row in &w.tiles {
        for &t in row {
            assert_eq!(t, 0);
        }
    }
}
