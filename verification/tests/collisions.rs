use brawl_arena::collision::{
    classify, projectile_collided, reset_jumps, route_collisions, Collider, CollisionEvent, Kind,
};
use brawl_arena::geometry::Vec2;
use brawl_arena::input::Gamepad;
use brawl_arena::knockback::{contact_axis, knockback, KnockAxis};
use brawl_arena::player::{
    AvailableJumps, DamageTaken, Health, Lives, PlayerDamageEvent, PlayerDeathEvent, PlayerEvent,
    PlayerIndex, PlayerRegistry, PlayerRemovedEvent,
};
use brawl_arena::projectile::ProjectileRegistry;
use brawl_arena::rules::Rules;

fn world(rules: Rules, players: u32, projectiles: u32) -> (PlayerRegistry, ProjectileRegistry) {
    let mut p = PlayerRegistry::new(rules).unwrap();
    for i in 0..players {
        assert!(p.spawn(PlayerIndex(i), Gamepad { id: i as usize }));
    }
    let mut q = ProjectileRegistry::new(rules).unwrap();
    for _ in 0..projectiles {
        q.spawn(Vec2 { x: 0, y: 0 }, Vec2 { x: 1000, y: 0 }, None).unwrap();
    }
    (p, q)
}

fn hit(player: u32, projectile: u64) -> CollisionEvent {
    CollisionEvent::Started(Collider::Player(PlayerIndex(player)), Collider::Projectile(projectile))
}

fn mirrored(player: u32, projectile: u64) -> CollisionEvent {
    CollisionEvent::Started(Collider::Projectile(projectile), Collider::Player(PlayerIndex(player)))
}

#[test]
fn knockback_is_the_square_of_the_damage() {
    assert_eq!(knockback(DamageTaken(0), KnockAxis::Horizontal, true), Vec2 { x: 0, y: 0 });
    // Damage 10 pushes with 100 units, which a velocity counts as 100 000 thousandths.
    assert_eq!(knockback(DamageTaken(10), KnockAxis::Horizontal, true), Vec2 { x: 100_000, y: 0 });
    assert_eq!(knockback(DamageTaken(10), KnockAxis::Horizontal, false), Vec2 { x: -100_000, y: 0 });
    assert_eq!(knockback(DamageTaken(15), KnockAxis::Vertical, true), Vec2 { x: 0, y: 225_000 });
    assert_eq!(knockback(DamageTaken(20), KnockAxis::Vertical, false), Vec2 { x: 0, y: -400_000 });
    assert_eq!(knockback(DamageTaken(1), KnockAxis::Vertical, true), Vec2 { x: 0, y: 1000 });
}

#[test]
fn knockback_never_shrinks_as_damage_grows() {
    let mut last: i32 = 0;
    for d in [0u32, 1, 2, 10, 19, 20, 1465, 1466, 46_340, 46_341, 100_000, u32::MAX] {
        let v = knockback(DamageTaken(d), KnockAxis::Horizontal, true);
        assert!(v.x >= last);
        assert_eq!(v.y, 0);
        last = v.x;
    }
    assert_eq!(knockback(DamageTaken(1465), KnockAxis::Horizontal, true).x, 2_146_225_000);
    assert_eq!(knockback(DamageTaken(1466), KnockAxis::Horizontal, true).x, i32::MAX);
    assert_eq!(knockback(DamageTaken(46_341), KnockAxis::Horizontal, true).x, i32::MAX);
    assert_eq!(knockback(DamageTaken(u32::MAX), KnockAxis::Vertical, false).y, -i32::MAX);
}

#[test]
fn contact_axis_points_away_from_the_contact() {
    let at = |x: i32, y: i32| Vec2 { x, y };
    assert_eq!(contact_axis(at(10, 0), at(0, 0)), (KnockAxis::Horizontal, true));
    assert_eq!(contact_axis(at(-10, 3), at(0, 0)), (KnockAxis::Horizontal, false));
    assert_eq!(contact_axis(at(1, 5), at(0, 0)), (KnockAxis::Vertical, true));
    assert_eq!(contact_axis(at(1, -5), at(0, 0)), (KnockAxis::Vertical, false));
    assert_eq!(contact_axis(at(5, 5), at(0, 0)), (KnockAxis::Horizontal, true));
    assert_eq!(contact_axis(at(0, 0), at(0, 0)), (KnockAxis::Horizontal, true));
    assert_eq!(contact_axis(at(i32::MIN, 0), at(i32::MAX, 0)), (KnockAxis::Horizontal, false));
}

#[test]
fn classify_looks_participants_up() {
    let (p, mut q) = world(Rules::default(), 1, 1);
    assert_eq!(classify(Collider::Player(PlayerIndex(0)), &p, &q), Kind::Player(PlayerIndex(0)));
    assert_eq!(classify(Collider::Player(PlayerIndex(1)), &p, &q), Kind::Unclassified);
    assert_eq!(classify(Collider::Projectile(0), &p, &q), Kind::Projectile(0));
    assert_eq!(classify(Collider::Terrain, &p, &q), Kind::Unclassified);
    assert!(q.despawn(0));
    assert_eq!(classify(Collider::Projectile(0), &p, &q), Kind::Unclassified);
}

#[test]
fn two_projectiles_same_tick_one_death() {
    let (mut p, mut q) = world(Rules::default(), 1, 2);
    assert!(p.set_position(PlayerIndex(0), Vec2 { x: 50_000, y: 7000 }));
    assert!(p.consume_jump(PlayerIndex(0)));
    let before = p.get(PlayerIndex(0)).unwrap();
    assert_eq!(before.health, Health(20));
    assert_eq!(before.lives, Lives(2));
    let batch = vec![hit(0, 0), hit(0, 1)];
    let report = route_collisions(&batch, &mut p, &mut q);
    assert_eq!(
        report.events,
        vec![
            PlayerEvent::Damaged(PlayerDamageEvent(PlayerIndex(0), DamageTaken(10))),
            PlayerEvent::Damaged(PlayerDamageEvent(PlayerIndex(0), DamageTaken(20))),
            PlayerEvent::Died(PlayerDeathEvent(PlayerIndex(0))),
        ]
    );
    assert_eq!(report.despawned, vec![0, 1]);
    let after = p.get(PlayerIndex(0)).unwrap();
    assert_eq!(after.lives, Lives(1));
    assert_eq!(after.health, Health(20));
    assert_eq!(after.damage_taken, DamageTaken(0));
    assert_eq!(after.position, Vec2 { x: 0, y: 0 });
    assert_eq!(after.velocity, Vec2 { x: 0, y: 0 });
    assert_eq!(after.available_jumps, AvailableJumps(2));
    assert!(!after.alive);
    assert_eq!(q.len(), 0);
}

#[test]
fn mirrored_pair_deals_damage_once() {
    for batch in [
        vec![hit(0, 0), mirrored(0, 0)],
        vec![mirrored(0, 0), hit(0, 0)],
        vec![hit(0, 0), hit(0, 0)],
        vec![mirrored(0, 0), hit(0, 0), mirrored(0, 0), hit(0, 0)],
    ] {
        let (mut p, mut q) = world(Rules::default(), 1, 1);
        let report = projectile_collided(&batch, &mut p, &mut q);
        assert_eq!(
            report.events,
            vec![PlayerEvent::Damaged(PlayerDamageEvent(PlayerIndex(0), DamageTaken(10)))]
        );
        assert_eq!(report.despawned, vec![0]);
        assert_eq!(p.get(PlayerIndex(0)).unwrap().health, Health(10));
        assert_eq!(q.len(), 0);
    }
}

#[test]
fn projectile_hits_only_the_first_player_it_meets() {
    let (mut p, mut q) = world(Rules::default(), 2, 1);
    let batch = vec![hit(1, 0), hit(0, 0)];
    let report = projectile_collided(&batch, &mut p, &mut q);
    assert_eq!(
        report.events,
        vec![PlayerEvent::Damaged(PlayerDamageEvent(PlayerIndex(1), DamageTaken(10)))]
    );
    assert_eq!(p.get(PlayerIndex(0)).unwrap().health, Health(20));
    assert_eq!(p.get(PlayerIndex(1)).unwrap().health, Health(10));
}

#[test]
fn survivor_is_knocked_away_from_the_projectile() {
    let (mut p, mut q) = world(Rules::default(), 1, 2);
    assert!(p.set_position(PlayerIndex(0), Vec2 { x: -10_000, y: 0 }));
    assert!(q.set_position(0, Vec2 { x: 5000, y: 0 }));
    let report = projectile_collided(&vec![hit(0, 0)], &mut p, &mut q);
    assert_eq!(report.despawned, vec![0]);
    assert_eq!(p.get(PlayerIndex(0)).unwrap().velocity, Vec2 { x: -100_000, y: 0 });

    let mut rules = Rules::default();
    rules.max_health = 100;
    rules.hit_damage = 7;
    let (mut p, mut q) = world(rules, 1, 2);
    assert!(q.set_position(0, Vec2 { x: 1, y: 90 }));
    assert!(q.set_position(1, Vec2 { x: 1, y: -90 }));
    projectile_collided(&vec![hit(0, 0)], &mut p, &mut q);
    assert_eq!(p.get(PlayerIndex(0)).unwrap().velocity, Vec2 { x: 0, y: -49_000 });
    projectile_collided(&vec![mirrored(0, 1)], &mut p, &mut q);
    assert_eq!(p.get(PlayerIndex(0)).unwrap().velocity, Vec2 { x: 0, y: 196_000 });
    assert_eq!(p.get(PlayerIndex(0)).unwrap().damage_taken, DamageTaken(14));
}

#[test]
fn knockback_of_a_heavy_hit_stops_at_the_end_of_the_range() {
    let mut rules = Rules::default();
    rules.max_health = 100_000;
    rules.hit_damage = 2000;
    let (mut p, mut q) = world(rules, 1, 1);
    assert!(p.set_position(PlayerIndex(0), Vec2 { x: 10_000, y: 0 }));
    assert!(q.set_position(0, Vec2 { x: 0, y: 0 }));
    projectile_collided(&vec![hit(0, 0)], &mut p, &mut q);
    let struck = p.get(PlayerIndex(0)).unwrap();
    assert_eq!(struck.damage_taken, DamageTaken(2000));
    assert_eq!(struck.health, Health(98_000));
    assert_eq!(struck.velocity, Vec2 { x: i32::MAX, y: 0 });
}

#[test]
fn contact_stops_and_other_pairs_are_ignored() {
    let (mut p, mut q) = world(Rules::default(), 2, 2);
    assert!(p.consume_jump(PlayerIndex(0)));
    let batch = vec![
        CollisionEvent::Stopped(Collider::Player(PlayerIndex(0)), Collider::Projectile(0)),
        CollisionEvent::Started(Collider::Projectile(0), Collider::Projectile(1)),
        CollisionEvent::Started(Collider::Terrain, Collider::Terrain),
        CollisionEvent::Started(Collider::Player(PlayerIndex(9)), Collider::Projectile(8)),
        CollisionEvent::Started(Collider::Projectile(0), Collider::Terrain),
    ];
    let report = route_collisions(&batch, &mut p, &mut q);
    assert_eq!(report.events, vec![]);
    assert_eq!(report.despawned, vec![]);
    assert_eq!(q.len(), 2);
    assert_eq!(p.get(PlayerIndex(0)).unwrap().available_jumps, AvailableJumps(1));
    assert_eq!(p.get(PlayerIndex(0)).unwrap().health, Health(20));
}

#[test]
fn terrain_removes_projectiles_only_when_the_rules_say_so() {
    let mut rules = Rules::default();
    rules.despawn_on_terrain = true;
    let (mut p, mut q) = world(rules, 1, 3);
    let batch = vec![
        CollisionEvent::Started(Collider::Projectile(0), Collider::Terrain),
        CollisionEvent::Started(Collider::Terrain, Collider::Projectile(1)),
        CollisionEvent::Started(Collider::Projectile(0), Collider::Terrain),
        CollisionEvent::Started(Collider::Player(PlayerIndex(5)), Collider::Projectile(2)),
    ];
    let report = projectile_collided(&batch, &mut p, &mut q);
    assert_eq!(report.events, vec![]);
    assert_eq!(report.despawned, vec![0, 1, 2]);
    assert_eq!(q.len(), 0);
}

#[test]
fn any_contact_start_refills_jumps() {
    let (mut p, _q) = world(Rules::default(), 3, 0);
    for i in 0..3 {
        assert!(p.consume_jump(PlayerIndex(i)));
        assert!(p.consume_jump(PlayerIndex(i)));
    }
    let batch = vec![
        CollisionEvent::Started(Collider::Player(PlayerIndex(0)), Collider::Terrain),
        CollisionEvent::Started(Collider::Projectile(4), Collider::Player(PlayerIndex(0))),
        CollisionEvent::Started(Collider::Player(PlayerIndex(0)), Collider::Player(PlayerIndex(0))),
        CollisionEvent::Stopped(Collider::Player(PlayerIndex(1)), Collider::Terrain),
        CollisionEvent::Started(Collider::Terrain, Collider::Player(PlayerIndex(2))),
        CollisionEvent::Started(Collider::Terrain, Collider::Player(PlayerIndex(8))),
    ];
    reset_jumps(&batch, &mut p);
    assert_eq!(p.get(PlayerIndex(0)).unwrap().available_jumps, AvailableJumps(2));
    assert_eq!(p.get(PlayerIndex(1)).unwrap().available_jumps, AvailableJumps(0));
    assert_eq!(p.get(PlayerIndex(2)).unwrap().available_jumps, AvailableJumps(2));
    assert_eq!(p.len(), 3);
}

#[test]
fn lethal_hit_on_last_life_removes_and_later_hits_find_nobody() {
    let mut rules = Rules::default();
    rules.max_lives = 1;
    let (mut p, mut q) = world(rules, 1, 3);
    let batch = vec![hit(0, 0), hit(0, 1), hit(0, 2)];
    let report = route_collisions(&batch, &mut p, &mut q);
    assert_eq!(
        report.events,
        vec![
            PlayerEvent::Damaged(PlayerDamageEvent(PlayerIndex(0), DamageTaken(10))),
            PlayerEvent::Damaged(PlayerDamageEvent(PlayerIndex(0), DamageTaken(20))),
            PlayerEvent::Removed(PlayerRemovedEvent(PlayerIndex(0))),
        ]
    );
    assert_eq!(report.despawned, vec![0, 1]);
    assert_eq!(p.len(), 0);
    assert_eq!(q.id_list(), vec![2]);
}

#[test]
fn empty_batch_does_nothing() {
    let (mut p, mut q) = world(Rules::default(), 1, 1);
    let before = p.get(PlayerIndex(0)).unwrap();
    let report = route_collisions(&vec![], &mut p, &mut q);
    assert_eq!(report.events, vec![]);
    assert_eq!(report.despawned, vec![]);
    assert_eq!(p.get(PlayerIndex(0)).unwrap(), before);
    assert_eq!(q.len(), 1);
}
