use brawl_arena::collision::{Collider, CollisionEvent};
use brawl_arena::geometry::{ArenaBounds, Vec2};
use brawl_arena::input::{Gamepad, GamepadEvent, GamepadEventType};
use brawl_arena::player::{
    AvailableJumps, DamageTaken, Health, Lives, PlayerAddedEvent, PlayerCount, PlayerDamageEvent,
    PlayerDeathEvent, PlayerEvent, PlayerIndex, PlayerRegistry, PlayerRemovedEvent,
};
use brawl_arena::projectile::{ProjectileBundle, ProjectileRegistry};
use brawl_arena::rules::Rules;
use brawl_arena::tick::tick;

fn arena() -> ArenaBounds {
    ArenaBounds { half_width: 300_000, half_height: 300_000 }
}

fn fresh_world() -> (PlayerRegistry, ProjectileRegistry) {
    let rules = Rules::default();
    (PlayerRegistry::new(rules).unwrap(), ProjectileRegistry::new(rules).unwrap())
}

fn connected(id: usize) -> GamepadEvent {
    GamepadEvent { gamepad: Gamepad { id }, event_type: GamepadEventType::Connected }
}

fn disconnected(id: usize) -> GamepadEvent {
    GamepadEvent { gamepad: Gamepad { id }, event_type: GamepadEventType::Disconnected }
}

fn struck(player: u32, projectile: u64) -> CollisionEvent {
    CollisionEvent::Started(Collider::Player(PlayerIndex(player)), Collider::Projectile(projectile))
}

#[test]
fn step_on_an_empty_world_reports_nothing() {
    let (mut players, mut shots) = fresh_world();
    let report = tick(&vec![], &vec![], &arena(), &mut players, &mut shots);
    assert_eq!(report.events, vec![]);
    assert_eq!(report.despawned, vec![]);
    assert_eq!(players.len(), 0);
    assert_eq!(shots.len(), 0);
    assert_eq!(players.player_count(), PlayerCount(0));
}

#[test]
fn step_reports_devices_then_hits_then_falls() {
    let (mut players, mut shots) = fresh_world();
    let report = tick(&vec![connected(1), connected(2)], &vec![], &arena(), &mut players, &mut shots);
    assert_eq!(
        report.events,
        vec![
            PlayerEvent::Added(PlayerAddedEvent(PlayerIndex(0), Gamepad { id: 1 })),
            PlayerEvent::Added(PlayerAddedEvent(PlayerIndex(1), Gamepad { id: 2 })),
        ]
    );
    assert_eq!(report.despawned, vec![]);

    let near = shots.spawn(Vec2 { x: 0, y: 0 }, Vec2 { x: 1000, y: 0 }, None).unwrap();
    let far = shots.spawn(Vec2 { x: 0, y: 0 }, Vec2 { x: 1000, y: 0 }, None).unwrap();
    let kept = shots.spawn(Vec2 { x: 0, y: 0 }, Vec2 { x: 0, y: 1000 }, None).unwrap();
    assert_eq!((near, far, kept), (0, 1, 2));
    assert!(shots.set_position(far, Vec2 { x: 300_001, y: 0 }));
    assert!(players.set_position(PlayerIndex(1), Vec2 { x: 0, y: -300_001 }));

    // A third device joins, the first player is hit, the second one has fallen out.
    let report = tick(
        &vec![connected(7)],
        &vec![struck(0, near), struck(0, near)],
        &arena(),
        &mut players,
        &mut shots,
    );
    assert_eq!(
        report.events,
        vec![
            PlayerEvent::Added(PlayerAddedEvent(PlayerIndex(2), Gamepad { id: 7 })),
            PlayerEvent::Damaged(PlayerDamageEvent(PlayerIndex(0), DamageTaken(10))),
            PlayerEvent::Died(PlayerDeathEvent(PlayerIndex(1))),
        ]
    );
    assert_eq!(report.despawned, vec![near, far]);
    assert_eq!(shots.id_list(), vec![kept]);
    assert_eq!(shots.next_id(), 3);

    let hit = players.get(PlayerIndex(0)).unwrap();
    assert_eq!(hit.health, Health(10));
    assert_eq!(hit.lives, Lives(2));
    assert_eq!(hit.velocity, Vec2 { x: -100_000, y: 0 });
    assert!(hit.alive);
    let fallen = players.get(PlayerIndex(1)).unwrap();
    assert_eq!(fallen.lives, Lives(1));
    assert_eq!(fallen.health, Health(20));
    assert_eq!(fallen.position, Vec2 { x: 0, y: 0 });
    assert!(!fallen.alive);

    // The next step finds everyone active again and has nothing to report.
    let report = tick(&vec![], &vec![], &arena(), &mut players, &mut shots);
    assert_eq!(report.events, vec![]);
    assert_eq!(report.despawned, vec![]);
    assert!(players.get(PlayerIndex(1)).unwrap().alive);
    assert_eq!(players.player_count(), PlayerCount(3));
}

#[test]
fn step_refills_jumps_before_it_deals_damage() {
    let (mut players, mut shots) = fresh_world();
    tick(&vec![connected(1)], &vec![], &arena(), &mut players, &mut shots);
    assert!(players.consume_jump(PlayerIndex(0)));
    assert!(players.consume_jump(PlayerIndex(0)));
    assert_eq!(players.get(PlayerIndex(0)).unwrap().available_jumps, AvailableJumps(0));
    let shot = shots.spawn(Vec2 { x: 0, y: 0 }, Vec2 { x: 1000, y: 0 }, None).unwrap();

    let report = tick(&vec![], &vec![struck(0, shot)], &arena(), &mut players, &mut shots);
    assert_eq!(
        report.events,
        vec![PlayerEvent::Damaged(PlayerDamageEvent(PlayerIndex(0), DamageTaken(10)))]
    );
    assert_eq!(report.despawned, vec![shot]);
    let p = players.get(PlayerIndex(0)).unwrap();
    assert_eq!(p.available_jumps, AvailableJumps(2));
    assert_eq!(p.health, Health(10));
}

#[test]
fn step_removes_a_player_whose_device_left_before_the_hit_lands() {
    let (mut players, mut shots) = fresh_world();
    tick(&vec![connected(1)], &vec![], &arena(), &mut players, &mut shots);
    let shot = shots.spawn(Vec2 { x: 0, y: 0 }, Vec2 { x: 1000, y: 0 }, None).unwrap();

    let report = tick(&vec![disconnected(1)], &vec![struck(0, shot)], &arena(), &mut players, &mut shots);
    assert_eq!(report.events, vec![PlayerEvent::Removed(PlayerRemovedEvent(PlayerIndex(0)))]);
    assert_eq!(players.len(), 0);
    // The projectile met nobody the registry knows: it flies on.
    assert_eq!(report.despawned, vec![]);
    assert_eq!(shots.id_list(), vec![shot]);
}

#[test]
fn default_projectile_rests_in_the_centre() {
    let p = ProjectileBundle::default();
    assert_eq!(p.id, 0);
    assert_eq!(p.position, Vec2 { x: 0, y: 0 });
    assert_eq!(p.velocity, Vec2 { x: 0, y: 0 });
    assert_eq!(p.owner, None);
}
