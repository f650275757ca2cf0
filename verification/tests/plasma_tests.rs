use voxel_demo::geom::{IVec3, Vec3, COORD_SCALE};
use voxel_demo::plasma::{AdvanceOutcome, PlasmaManager, PlasmaType};
use voxel_demo::rng::Rng;

fn fp(units: i64) -> i64 {
    units * COORD_SCALE
}

#[test]
fn click_delays() {
    assert_eq!(PlasmaType::Single(10).get_click_delay(), 1000);
    assert_eq!(PlasmaType::Multi(10).get_click_delay(), 1000);
    assert_eq!(PlasmaType::Rapid.get_click_delay(), 200);
    assert_eq!(PlasmaType::Bomb.get_click_delay(), 20000);
}

#[test]
fn add_reuses_free_slot() {
    let mut mgr = PlasmaManager::new();
    // A projectile half a unit from the edge, flying outward at Rapid speed.
    mgr.add_plasma(&Vec3::new(50, fp(500), fp(50)), &Vec3::new(-100, 0, 0), 0, PlasmaType::Rapid);
    assert_eq!(mgr.plasma_count(), 1);
    match mgr.advance_plasma(0, 10) {
        AdvanceOutcome::OutOfBounds => {}
        other => panic!("expected an out-of-bounds exit, got {:?}", other),
    }
    assert!(mgr.plasma_at(0).free);
    assert_eq!(mgr.live_plasma_count(), 0);
    // Inserting into a pool with a free slot must not grow it.
    mgr.add_plasma(
        &Vec3::new(fp(500), fp(500), fp(50)),
        &Vec3::new(100, 0, 0),
        5,
        PlasmaType::Bomb,
    );
    assert_eq!(mgr.plasma_count(), 1);
    assert!(!mgr.plasma_at(0).free);
    assert_eq!(mgr.live_plasma_count(), 1);
}

#[test]
fn rapid_projectile_hit() {
    let mut mgr = PlasmaManager::new();
    mgr.add_plasma(
        &Vec3::new(fp(500), fp(500), fp(50)),
        &Vec3::new(100, 0, 0),
        0,
        PlasmaType::Rapid,
    );
    let outcome = mgr.advance_plasma(0, 10);
    match outcome {
        AdvanceOutcome::Moved { old_pos, new_pos } => {
            assert_eq!(old_pos, Vec3::new(fp(500), fp(500), fp(50)));
            // Rapid moves 10 units per step.
            assert_eq!(new_pos, Vec3::new(fp(510), fp(500), fp(50)));
        }
        other => panic!("expected a move, got {:?}", other),
    }
    // The world reports a hit on the way: the projectile dies, and a sphere
    // of the Rapid radius 4 is melted at the hit point.
    let melt = mgr.settle_plasma(0, Some(IVec3::new(503, 500, 50)));
    let job = melt.expect("a hit must name a melt job");
    assert_eq!(job.center, IVec3::new(503, 500, 50));
    assert_eq!(job.radius, 4);
    assert!(mgr.plasma_at(0).free);
    // The detached matter becomes one falling sprite.
    mgr.add_falling_sprite(1, Vec3::new(fp(503), fp(500), fp(50)), Vec3::new(10, 20, 30));
    assert_eq!(mgr.falling_sprite_count(), 1);
}

#[test]
fn single_projectile_survives_hit_weakened() {
    let mut mgr = PlasmaManager::new();
    mgr.add_plasma(
        &Vec3::new(fp(500), fp(500), fp(50)),
        &Vec3::new(100, 0, 0),
        0,
        PlasmaType::Single(5),
    );
    let outcome = mgr.advance_plasma(0, 10);
    match outcome {
        AdvanceOutcome::Moved { new_pos, .. } => {
            // Single moves 4 units per step: past the hit point at 503.
            assert_eq!(new_pos, Vec3::new(fp(504), fp(500), fp(50)));
        }
        other => panic!("expected a move, got {:?}", other),
    }
    let melt = mgr.settle_plasma(0, Some(IVec3::new(503, 500, 50)));
    // The level drops by two before the melt radius is taken.
    assert_eq!(melt.expect("hit").radius, 3);
    let p = mgr.plasma_at(0);
    assert!(!p.free);
    assert_eq!(p.typ, PlasmaType::Single(3));
    assert_eq!(p.pos, Vec3::new(fp(504), fp(500), fp(50)));
}

#[test]
fn single_at_level_one_dies_on_hit() {
    for level in [0u32, 1].iter().copied() {
        let mut mgr = PlasmaManager::new();
        mgr.add_plasma(
            &Vec3::new(fp(500), fp(500), fp(50)),
            &Vec3::new(100, 0, 0),
            0,
            PlasmaType::Single(level),
        );
        mgr.advance_plasma(0, 10);
        let melt = mgr.settle_plasma(0, Some(IVec3::new(503, 500, 50)));
        assert_eq!(melt.expect("hit").radius, level);
        assert!(mgr.plasma_at(0).free);
    }
}

#[test]
fn multi_time_fragmentation() {
    let mut mgr = PlasmaManager::new();
    let mut rng = Rng::new(11);
    mgr.add_plasma(
        &Vec3::new(fp(500), fp(500), fp(50)),
        &Vec3::new(100, 0, 0),
        0,
        PlasmaType::Multi(8),
    );
    // Well past the 4000 ms window, in a collision-free world.
    match mgr.advance_plasma(0, 5000) {
        AdvanceOutcome::Fragmented => {}
        other => panic!("expected fragmentation, got {:?}", other),
    }
    assert!(mgr.plasma_at(0).free);
    mgr.handle_new_plasmas(&mut rng);
    // One child reuses the parent's slot, four more are appended.
    assert_eq!(mgr.plasma_count(), 5);
    assert_eq!(mgr.live_plasma_count(), 5);
    let parent_pos = Vec3::new(fp(503), fp(500), fp(50));
    for i in 0..5 {
        let child = mgr.plasma_at(i);
        assert!(!child.free);
        assert_eq!(child.typ, PlasmaType::Multi(4));
        assert_eq!(child.born_tick, 0);
        // Children start at the parent's last position: Multi speed 3.
        assert_eq!(child.pos, parent_pos);
    }
}

#[test]
fn multi_gains_downward_speed() {
    let mut mgr = PlasmaManager::new();
    mgr.add_plasma(
        &Vec3::new(fp(500), fp(500), fp(50)),
        &Vec3::new(0, 0, 0),
        0,
        PlasmaType::Multi(1),
    );
    mgr.advance_plasma(0, 10);
    // Gravity adds 0.01 world units (one fixed-point unit) to dir.z.
    assert_eq!(mgr.plasma_at(0).dir, Vec3::new(0, 0, 1));
}

#[test]
fn live_count_never_grows_without_fragmentation() {
    let mut mgr = PlasmaManager::new();
    let mut rng = Rng::new(3);
    mgr.add_plasma(&Vec3::new(fp(500), fp(500), fp(50)), &Vec3::new(100, 0, 0), 0, PlasmaType::Bomb);
    mgr.add_plasma(&Vec3::new(fp(10), fp(10), fp(50)), &Vec3::new(0, 100, 0), 0, PlasmaType::Rapid);
    mgr.add_plasma(
        &Vec3::new(fp(900), fp(900), fp(50)),
        &Vec3::new(-100, 0, 0),
        0,
        PlasmaType::Single(2),
    );
    let before = mgr.live_plasma_count();
    for i in 0..mgr.plasma_count() {
        match mgr.advance_plasma(i, 100) {
            AdvanceOutcome::Moved { .. } => {
                mgr.settle_plasma(i, None);
            }
            _ => {}
        }
    }
    mgr.handle_new_plasmas(&mut rng);
    assert!(mgr.live_plasma_count() <= before);
}

#[test]
fn falling_sprites_step_and_fall_off() {
    let mut mgr = PlasmaManager::new();
    // One sprite just below the fall limit of 120 units, moving down fast.
    mgr.add_falling_sprite(7, Vec3::new(0, 0, fp(120) - 50), Vec3::new(0, 0, 100));
    // One sprite high up, drifting slowly.
    mgr.add_falling_sprite(8, Vec3::new(0, 0, 0), Vec3::new(5, 0, 10));
    let removed = mgr.update_falling_sprites();
    assert_eq!(removed, vec![7]);
    assert_eq!(mgr.falling_sprite_count(), 1);
    let s = mgr.falling_sprite_at(0);
    assert_eq!(s.sprite, 8);
    assert_eq!(s.pos, Vec3::new(5, 0, 10));
    // The survivor accelerates downward.
    assert_eq!(s.dir, Vec3::new(5, 0, 11));
}

#[test]
fn plasma_colors() {
    let mut rng = Rng::new(5);
    let purple = voxel_demo::plasma::plasma_color(&PlasmaType::Single(3), &mut rng);
    assert_eq!((purple.r, purple.g, purple.b), (0x99, 0, 0x99));
    let white = voxel_demo::plasma::plasma_color(&PlasmaType::Rapid, &mut rng);
    assert_eq!((white.r, white.g, white.b), (255, 255, 255));
    let red = voxel_demo::plasma::plasma_color(&PlasmaType::Bomb, &mut rng);
    assert_eq!((red.r, red.g, red.b), (255, 0, 0));
    // Multi draws from the generator, deterministically under a seed.
    let mut rng_a = Rng::new(21);
    let mut rng_b = Rng::new(21);
    let a = voxel_demo::plasma::plasma_color(&PlasmaType::Multi(4), &mut rng_a);
    let b = voxel_demo::plasma::plasma_color(&PlasmaType::Multi(4), &mut rng_b);
    assert_eq!(a, b);
}
