use brawl_arena::geometry::{abs_i32, isqrt, rescale_component, saturate_i64, ArenaBounds, Vec2};
use brawl_arena::player::PlayerIndex;
use brawl_arena::projectile::{clean_up_offscreen_projectiles, ProjectileBundle, ProjectileRegistry};
use brawl_arena::rules::Rules;

fn registry() -> ProjectileRegistry {
    ProjectileRegistry::new(Rules::default()).unwrap()
}

#[test]
fn isqrt_rounds_down() {
    assert_eq!(isqrt(0), 0);
    assert_eq!(isqrt(1), 1);
    assert_eq!(isqrt(3), 1);
    assert_eq!(isqrt(4), 2);
    assert_eq!(isqrt(24), 4);
    assert_eq!(isqrt(25), 5);
    assert_eq!(isqrt(1_000_000), 1000);
    assert_eq!(isqrt(999_999), 999);
    assert_eq!(isqrt(u64::MAX), 4_294_967_295);
    assert_eq!(isqrt(4_294_967_295 * 4_294_967_295), 4_294_967_295);
    assert_eq!(isqrt(4_294_967_295 * 4_294_967_295 - 1), 4_294_967_294);
}

#[test]
fn small_arithmetic_helpers() {
    assert_eq!(saturate_i64(5), 5);
    assert_eq!(saturate_i64(i64::MAX), i32::MAX);
    assert_eq!(saturate_i64(i64::MIN), i32::MIN);
    assert_eq!(saturate_i64(2_147_483_648), i32::MAX);
    assert_eq!(saturate_i64(-2_147_483_649), i32::MIN);
    assert_eq!(abs_i32(i32::MIN), 2_147_483_648);
    assert_eq!(abs_i32(-7), 7);
    assert_eq!(abs_i32(7), 7);
    assert_eq!(rescale_component(600, 1_000_000, 1000), 600_000);
    assert_eq!(rescale_component(-600, 1_000_000, 1000), -600_000);
    assert_eq!(rescale_component(1, 10, 3), 3);
    assert_eq!(rescale_component(-1, 10, 3), -3);
    assert_eq!(Vec2 { x: 3, y: -4 }.length_squared(), 25);
    assert_eq!(Vec2 { x: i32::MIN, y: i32::MIN }.length_squared(), 1u64 << 63);
    assert_eq!(Vec2::zero(), Vec2 { x: 0, y: 0 });
}

#[test]
fn arena_border_is_inside() {
    let b = ArenaBounds { half_width: 300, half_height: 200 };
    assert!(!b.is_outside(Vec2 { x: 300, y: 200 }));
    assert!(!b.is_outside(Vec2 { x: -300, y: -200 }));
    assert!(b.is_outside(Vec2 { x: 301, y: 0 }));
    assert!(b.is_outside(Vec2 { x: -301, y: 0 }));
    assert!(b.is_outside(Vec2 { x: 0, y: 201 }));
    assert!(b.is_outside(Vec2 { x: 0, y: -201 }));
    assert!(b.is_outside(Vec2 { x: i32::MIN, y: 0 }));
    let degenerate = ArenaBounds { half_width: -1, half_height: 10 };
    assert!(degenerate.is_outside(Vec2 { x: 0, y: 0 }));
}

#[test]
fn shot_is_launched_along_the_aim() {
    let mut reg = registry();
    let id = reg.spawn(Vec2 { x: 10_000, y: -5000 }, Vec2 { x: 600, y: -800 }, Some(PlayerIndex(3)));
    assert_eq!(id, Some(0));
    assert_eq!(reg.next_id(), 1);
    assert_eq!(
        reg.get(0),
        Some(ProjectileBundle {
            id: 0,
            position: Vec2 { x: 22_000, y: -21_000 },
            velocity: Vec2 { x: 600_000, y: -800_000 },
            owner: Some(PlayerIndex(3)),
        })
    );
    let id = reg.spawn(Vec2 { x: 0, y: 0 }, Vec2 { x: 0, y: 501 }, None);
    assert_eq!(id, Some(1));
    assert_eq!(reg.get(1).unwrap().velocity, Vec2 { x: 0, y: 1_000_000 });
    assert_eq!(reg.get(1).unwrap().position, Vec2 { x: 0, y: 10_020 });
    assert_eq!(reg.get(1).unwrap().owner, None);
    assert_eq!(reg.id_list(), vec![0, 1]);
    assert_eq!(reg.len(), 2);
}

#[test]
fn velocity_components_round_toward_zero() {
    let mut reg = registry();
    let id = reg.spawn(Vec2 { x: 0, y: 0 }, Vec2 { x: 700, y: -700 }, None).unwrap();
    // The length of (700, -700) is 989.9..., rounded down to 989.
    let p = reg.get(id).unwrap();
    assert_eq!(p.velocity, Vec2 { x: 707_785, y: -707_785 });
}

#[test]
fn shot_inside_dead_zone_is_rejected() {
    let mut rules = Rules::default();
    rules.dead_zone = 100;
    let mut reg = ProjectileRegistry::new(rules).unwrap();
    assert_eq!(reg.spawn(Vec2 { x: 0, y: 0 }, Vec2 { x: 30, y: 40 }, Some(PlayerIndex(0))), None);
    assert_eq!(reg.spawn(Vec2 { x: 0, y: 0 }, Vec2 { x: 0, y: 0 }, None), None);
    assert_eq!(reg.len(), 0);
    assert_eq!(reg.next_id(), 0);
    assert!(!reg.contains(0));
}

#[test]
fn shot_exactly_on_dead_zone_is_rejected() {
    let mut reg = registry();
    assert_eq!(reg.spawn(Vec2 { x: 0, y: 0 }, Vec2 { x: 300, y: 400 }, None), None);
    assert_eq!(reg.spawn(Vec2 { x: 0, y: 0 }, Vec2 { x: 500, y: 0 }, None), None);
    assert_eq!(reg.spawn(Vec2 { x: 0, y: 0 }, Vec2 { x: 500, y: 1 }, None), Some(0));
}

#[test]
fn muzzle_position_stops_at_the_end_of_the_range() {
    let mut reg = registry();
    let id = reg.spawn(Vec2 { x: i32::MAX, y: i32::MIN }, Vec2 { x: 1000, y: -1000 }, None).unwrap();
    assert_eq!(reg.get(id).unwrap().position, Vec2 { x: i32::MAX, y: i32::MIN });
}

#[test]
fn despawn_twice_removes_once() {
    let mut reg = registry();
    let id = reg.spawn(Vec2 { x: 0, y: 0 }, Vec2 { x: 1000, y: 0 }, None).unwrap();
    assert!(reg.contains(id));
    assert!(reg.despawn(id));
    assert!(!reg.contains(id));
    assert!(!reg.despawn(id));
    assert_eq!(reg.len(), 0);
    assert!(!reg.despawn(99));
}

#[test]
fn ids_are_never_reused() {
    let mut reg = registry();
    let a = reg.spawn(Vec2 { x: 0, y: 0 }, Vec2 { x: 1000, y: 0 }, None).unwrap();
    assert!(reg.despawn(a));
    let b = reg.spawn(Vec2 { x: 0, y: 0 }, Vec2 { x: 1000, y: 0 }, None).unwrap();
    assert_eq!(a, 0);
    assert_eq!(b, 1);
}

#[test]
fn bounds_check_removes_every_stray_projectile() {
    let mut reg = registry();
    for _ in 0..4 {
        reg.spawn(Vec2 { x: 0, y: 0 }, Vec2 { x: 1000, y: 0 }, None).unwrap();
    }
    assert!(reg.set_position(0, Vec2 { x: 400_001, y: 0 }));
    assert!(reg.set_position(1, Vec2 { x: 400_000, y: 0 }));
    assert!(reg.set_position(3, Vec2 { x: 0, y: -300_001 }));
    assert!(!reg.set_position(9, Vec2 { x: 0, y: 0 }));
    let bounds = ArenaBounds { half_width: 400_000, half_height: 300_000 };
    assert_eq!(reg.tick_bounds_check(&bounds), vec![0, 3]);
    assert_eq!(reg.id_list(), vec![1, 2]);
    assert_eq!(reg.tick_bounds_check(&bounds), vec![]);
    assert_eq!(clean_up_offscreen_projectiles(&bounds, &mut reg), vec![]);
    assert!(reg.set_position(2, Vec2 { x: 0, y: 300_001 }));
    assert_eq!(clean_up_offscreen_projectiles(&bounds, &mut reg), vec![2]);
    assert_eq!(reg.next_id(), 4);
    assert_eq!(reg.rules(), Rules::default());
}

#[test]
fn bounds_despawn_after_collision_despawn_is_noop() {
    let mut reg = registry();
    let id = reg.spawn(Vec2 { x: 0, y: 0 }, Vec2 { x: 1000, y: 0 }, None).unwrap();
    assert!(reg.set_position(id, Vec2 { x: 900_000, y: 0 }));
    let bounds = ArenaBounds { half_width: 400_000, half_height: 300_000 };
    // A collision removes it earlier in the tick.
    assert!(reg.despawn(id));
    assert_eq!(reg.tick_bounds_check(&bounds), vec![]);
    assert!(!reg.despawn(id));
    assert_eq!(reg.len(), 0);

    // Without the collision the bounds check removes it, exactly once.
    let id = reg.spawn(Vec2 { x: 0, y: 0 }, Vec2 { x: 1000, y: 0 }, None).unwrap();
    assert!(reg.set_position(id, Vec2 { x: 900_000, y: 0 }));
    assert_eq!(reg.tick_bounds_check(&bounds), vec![id]);
    assert_eq!(reg.tick_bounds_check(&bounds), vec![]);
}
