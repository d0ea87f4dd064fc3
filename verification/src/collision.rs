//! The collision event router: it reads the collision batch of one tick,
//! tells players from projectiles, and hands each contact to the registry
//! that owns the participant. It keeps no state of its own.

use crate::knockback::{contact_axis, contact_axis_spec, knockback, knockback_spec};
use crate::player::{
    adjust, damage_events, damage_map, damage_outcome, key_of, push_damage_events, DamageOutcome,
    PlayerBundle, PlayerEvent, PlayerIndex, PlayerRegistry,
};
use crate::projectile::{ProjectileBundle, ProjectileRegistry};
use crate::rules::Rules;
use vstd::prelude::*;

verus! {

/// A participant of a contact, as the physics names it.
#[derive(Clone, Copy, Debug, PartialEq, Eq, Structural)]
pub enum Collider {
    Player(PlayerIndex),
    Projectile(u64),
    Terrain,
}

/// One contact report of the physics: two participants start or stop touching.
#[derive(Clone, Copy, Debug, PartialEq, Eq, Structural)]
pub enum CollisionEvent {
    Started(Collider, Collider),
    Stopped(Collider, Collider),
}

/// What a participant turns out to be once it is looked up.
#[derive(Clone, Copy, Debug, PartialEq, Eq, Structural)]
pub enum Kind {
    /// A player of the registry.
    Player(PlayerIndex),
    /// A projectile of the registry.
    Projectile(u64),
    /// Terrain, or a record that is no longer there.
    Unclassified,
}

/// What the router hands back after a batch.
pub struct CollisionReport {
    /// What happened to players, in the order of the batch.
    pub events: Vec<PlayerEvent>,
    /// The projectiles that were removed, in the order of the batch.
    pub despawned: Vec<u64>,
}

/// The kind of `c`: a player or projectile only while its registry holds it.
pub open spec fn kind_of(
    c: Collider,
    players: Map<u64, PlayerBundle>,
    projectiles: Map<u64, ProjectileBundle>,
) -> Kind {
    match c {
        Collider::Player(i) => if players.dom().contains(key_of(i)) {
            Kind::Player(i)
        } else {
            Kind::Unclassified
        },
        Collider::Projectile(p) => if projectiles.dom().contains(p) {
            Kind::Projectile(p)
        } else {
            Kind::Unclassified
        },
        Collider::Terrain => Kind::Unclassified,
    }
}

/// Whether `e` reports that `index` starts touching something.
pub open spec fn names(e: CollisionEvent, index: PlayerIndex) -> bool {
    match e {
        CollisionEvent::Started(a, b) => a == Collider::Player(index) || b == Collider::Player(index),
        CollisionEvent::Stopped(_, _) => false,
    }
}

/// Whether some event of the batch reports that `index` starts touching something.
pub open spec fn touched(events: Seq<CollisionEvent>, index: PlayerIndex) -> bool {
    exists|t: int| 0 <= t < events.len() && names(#[trigger] events[t], index)
}

/// The players after the jump resets of a batch: whoever a contact start
/// names has its jumps refilled, whatever it touched.
pub open spec fn landed(rules: Rules, m: Map<u64, PlayerBundle>, events: Seq<CollisionEvent>) -> Map<
    u64,
    PlayerBundle,
> {
    Map::new(
        |k: u64| m.dom().contains(k),
        |k: u64|
            if touched(events, m[k].player_index) {
                m[k].grounded(rules)
            } else {
                m[k]
            },
    )
}

/// The state that the damage pass of the router threads through a batch.
pub struct Arena {
    pub players: Map<u64, PlayerBundle>,
    pub projectiles: Map<u64, ProjectileBundle>,
    /// What happened to players so far.
    pub events: Seq<PlayerEvent>,
    /// The projectiles removed so far.
    pub despawned: Seq<u64>,
    /// The hits dealt so far: who was hit, and by which projectile.
    pub hits: Seq<(PlayerIndex, u64)>,
}

/// The state before the first event of a batch.
pub open spec fn arena(players: Map<u64, PlayerBundle>, projectiles: Map<u64, ProjectileBundle>) -> Arena {
    Arena { players, projectiles, events: Seq::empty(), despawned: Seq::empty(), hits: Seq::empty() }
}

/// The projectile `p` hits the player `index`: the player takes the hit
/// damage; where it survives, it is knocked away from the projectile with
/// the strength of its accumulated damage; the projectile is removed.
pub open spec fn strike(rules: Rules, s: Arena, index: PlayerIndex, p: u64) -> Arena {
    let k = key_of(index);
    let outcome = damage_outcome(s.players, k, rules.hit_damage);
    let damaged = damage_map(rules, s.players, k, rules.hit_damage);
    let pushed = match outcome {
        DamageOutcome::Damaged(total) => {
            let (axis, positive) = contact_axis_spec(s.players[k].position, s.projectiles[p].position);
            adjust(
                damaged,
                k,
                |q: PlayerBundle| PlayerBundle { velocity: knockback_spec(total, axis, positive), ..q },
            )
        },
        _ => damaged,
    };
    Arena {
        players: pushed,
        projectiles: s.projectiles.remove(p),
        events: s.events + damage_events(index, outcome),
        despawned: s.despawned.push(p),
        hits: s.hits.push((index, p)),
    }
}

/// The projectile `p` touches terrain: it is removed where the rules say so.
pub open spec fn graze(rules: Rules, s: Arena, p: u64) -> Arena {
    if rules.despawn_on_terrain {
        Arena { projectiles: s.projectiles.remove(p), despawned: s.despawned.push(p), ..s }
    } else {
        s
    }
}

/// One event of the damage pass. Only contact starts count. A player and a
/// projectile that meet make a hit; a projectile that meets something
/// unclassified grazes terrain; every other pairing changes nothing.
pub open spec fn collide(rules: Rules, s: Arena, e: CollisionEvent) -> Arena {
    match e {
        CollisionEvent::Stopped(_, _) => s,
        CollisionEvent::Started(a, b) => {
            match (kind_of(a, s.players, s.projectiles), kind_of(b, s.players, s.projectiles)) {
                (Kind::Player(i), Kind::Projectile(p)) => strike(rules, s, i, p),
                (Kind::Projectile(p), Kind::Player(i)) => strike(rules, s, i, p),
                (Kind::Projectile(p), Kind::Unclassified) => graze(rules, s, p),
                (Kind::Unclassified, Kind::Projectile(p)) => graze(rules, s, p),
                _ => s,
            }
        },
    }
}

/// The damage pass over a batch, event by event in order.
pub open spec fn collided(rules: Rules, s: Arena, events: Seq<CollisionEvent>) -> Arena
    decreases events.len(),
{
    if events.len() == 0 {
        s
    } else {
        collide(rules, collided(rules, s, events.drop_last()), events.last())
    }
}

/// Looks `c` up in the two registries.
pub fn classify(c: Collider, players: &PlayerRegistry, projectiles: &ProjectileRegistry) -> (kind: Kind)
    requires
        players.wf(),
        projectiles.wf(),
    ensures
        kind == kind_of(c, players@, projectiles@),
{
    match c {
        Collider::Player(i) => {
            if players.contains(i) {
                Kind::Player(i)
            } else {
                Kind::Unclassified
            }
        },
        Collider::Projectile(p) => {
            if projectiles.contains(p) {
                Kind::Projectile(p)
            } else {
                Kind::Unclassified
            }
        },
        Collider::Terrain => Kind::Unclassified,
    }
}

/// Refills the jumps of `c` where it is a player.
fn land(c: Collider, players: &mut PlayerRegistry)
    requires
        old(players).wf(),
    ensures
        final(players).wf(),
        final(players).rules() == old(players).rules(),
        final(players).player_count() == old(players).player_count(),
        forall|k: u64| final(players)@.dom().contains(k) <==> old(players)@.dom().contains(k),
        forall|k: u64| #[trigger]
            final(players)@.dom().contains(k) ==> final(players)@[k] == (if c == Collider::Player(
                old(players)@[k].player_index,
            ) {
                old(players)@[k].grounded(old(players).rules())
            } else {
                old(players)@[k]
            }),
{
    match c {
        Collider::Player(i) => {
            players.reset_jumps(i);
        },
        _ => {},
    }
}

/// The ground-contact rule: every player that a contact start of the batch
/// names has its jumps refilled, whatever it touched. Contact stops are
/// ignored. No player ends with more jumps than the rules give.
pub fn reset_jumps(events: &Vec<CollisionEvent>, players: &mut PlayerRegistry)
    requires
        old(players).wf(),
    ensures
        final(players).wf(),
        final(players).rules() == old(players).rules(),
        final(players).player_count() == old(players).player_count(),
        final(players)@ == landed(old(players).rules(), old(players)@, events@),
        forall|k: u64| #[trigger]
            final(players)@.dom().contains(k) ==> final(players)@[k].available_jumps.0 <= old(
                players,
            ).rules().max_jumps,
{
    let ghost rules = players.rules();
    let ghost before = players@;
    let mut j: usize = 0;
    assert(players@ =~= landed(rules, before, events@.take(0)));
    while j < events.len()
        invariant
            players.wf(),
            players.rules() == rules,
            rules == old(players).rules(),
            before == old(players)@,
            players.player_count() == old(players).player_count(),
            j <= events@.len(),
            players@ == landed(rules, before, events@.take(j as int)),
        decreases events@.len() - j,
    {
        let ghost mid = players@;
        let ghost seen = events@.take(j as int);
        let ghost next = events@.take(j + 1);
        match events[j] {
            CollisionEvent::Started(a, b) => {
                land(a, players);
                land(b, players);
            },
            CollisionEvent::Stopped(_, _) => {},
        }
        proof {
            assert forall|i: PlayerIndex| touched(next, i) == (touched(seen, i) || names(
                events@[j as int],
                i,
            )) by {
                if touched(seen, i) {
                    let t = choose|t: int| 0 <= t < seen.len() && names(#[trigger] seen[t], i);
                    assert(names(next[t], i));
                }
                if names(events@[j as int], i) {
                    assert(names(next[j as int], i));
                }
                if touched(next, i) {
                    let t = choose|t: int| 0 <= t < next.len() && names(#[trigger] next[t], i);
                    if t < j {
                        assert(names(seen[t], i));
                    }
                }
            }
            assert(players@ =~= landed(rules, before, next));
        }
        j = j + 1;
    }
    assert(events@.take(events@.len() as int) =~= events@);
}

/// The projectile `p` hits the player `index`; both are in their registries.
fn hit(
    players: &mut PlayerRegistry,
    projectiles: &mut ProjectileRegistry,
    report: &mut CollisionReport,
    index: PlayerIndex,
    p: u64,
    Ghost(s): Ghost<Arena>,
)
    requires
        old(players).wf(),
        old(projectiles).wf(),
        old(players)@.dom().contains(key_of(index)),
        old(projectiles)@.dom().contains(p),
        s.players == old(players)@,
        s.projectiles == old(projectiles)@,
        s.events == old(report).events@,
        s.despawned == old(report).despawned@,
    ensures
        final(players).wf(),
        final(projectiles).wf(),
        final(players).rules() == old(players).rules(),
        final(players).player_count() == old(players).player_count(),
        final(projectiles).rules() == old(projectiles).rules(),
        final(projectiles).next_id() == old(projectiles).next_id(),
        final(players)@ == strike(old(players).rules(), s, index, p).players,
        final(projectiles)@ == strike(old(players).rules(), s, index, p).projectiles,
        final(report).events@ == strike(old(players).rules(), s, index, p).events,
        final(report).despawned@ == strike(old(players).rules(), s, index, p).despawned,
{
    let rules = players.rules();
    let target = players.get(index).unwrap().position;
    let source = projectiles.get(p).unwrap().position;
    let outcome = players.apply_damage(index, rules.hit_damage);
    match outcome {
        DamageOutcome::Damaged(total) => {
            let (axis, positive) = contact_axis(target, source);
            players.set_velocity(index, knockback(total, axis, positive));
        },
        _ => {},
    }
    projectiles.despawn(p);
    report.despawned.push(p);
    push_damage_events(&mut report.events, index, outcome);
}

/// The damage pass of the router over the collision batch of one tick, in
/// the order of the batch. Only contact starts count, and each participant
/// is looked up when its event is reached. Where a player and a projectile
/// meet, the player takes the hit damage of the players' rules, is knocked
/// back where it survives, and the projectile is removed: a second report
/// of the same pair, either way round, then finds no projectile and deals
/// no damage. Where a projectile meets something unclassified, it is
/// removed if the rules say so.
pub fn projectile_collided(
    events: &Vec<CollisionEvent>,
    players: &mut PlayerRegistry,
    projectiles: &mut ProjectileRegistry,
) -> (report: CollisionReport)
    requires
        old(players).wf(),
        old(projectiles).wf(),
    ensures
        final(players).wf(),
        final(projectiles).wf(),
        final(players).rules() == old(players).rules(),
        final(players).player_count() == old(players).player_count(),
        final(projectiles).rules() == old(projectiles).rules(),
        final(projectiles).next_id() == old(projectiles).next_id(),
        ({
            let end = collided(
                old(players).rules(),
                arena(old(players)@, old(projectiles)@),
                events@,
            );
            &&& final(players)@ == end.players
            &&& final(projectiles)@ == end.projectiles
            &&& report.events@ == end.events
            &&& report.despawned@ == end.despawned
        }),
{
    let rules = players.rules();
    let ghost start = arena(players@, projectiles@);
    let mut report = CollisionReport { events: Vec::new(), despawned: Vec::new() };
    let mut j: usize = 0;
    assert(events@.take(0) =~= Seq::<CollisionEvent>::empty());
    while j < events.len()
        invariant
            players.wf(),
            projectiles.wf(),
            players.rules() == rules,
            rules == old(players).rules(),
            start == arena(old(players)@, old(projectiles)@),
            players.player_count() == old(players).player_count(),
            projectiles.rules() == old(projectiles).rules(),
            projectiles.next_id() == old(projectiles).next_id(),
            j <= events@.len(),
            players@ == collided(rules, start, events@.take(j as int)).players,
            projectiles@ == collided(rules, start, events@.take(j as int)).projectiles,
            report.events@ == collided(rules, start, events@.take(j as int)).events,
            report.despawned@ == collided(rules, start, events@.take(j as int)).despawned,
        decreases events@.len() - j,
    {
        let ghost s = collided(rules, start, events@.take(j as int));
        assert(events@.take(j + 1).drop_last() =~= events@.take(j as int));
        match events[j] {
            CollisionEvent::Started(a, b) => {
                let ka = classify(a, players, projectiles);
                let kb = classify(b, players, projectiles);
                match (ka, kb) {
                    (Kind::Player(i), Kind::Projectile(p)) => {
                        hit(players, projectiles, &mut report, i, p, Ghost(s));
                    },
                    (Kind::Projectile(p), Kind::Player(i)) => {
                        hit(players, projectiles, &mut report, i, p, Ghost(s));
                    },
                    (Kind::Projectile(p), Kind::Unclassified) => {
                        if rules.despawn_on_terrain {
                            projectiles.despawn(p);
                            report.despawned.push(p);
                        }
                    },
                    (Kind::Unclassified, Kind::Projectile(p)) => {
                        if rules.despawn_on_terrain {
                            projectiles.despawn(p);
                            report.despawned.push(p);
                        }
                    },
                    _ => {},
                }
            },
            CollisionEvent::Stopped(_, _) => {},
        }
        j = j + 1;
    }
    assert(events@.take(events@.len() as int) =~= events@);
    report
}

/// The router for one tick: first the jump resets of the whole batch, then
/// its damage pass.
pub fn route_collisions(
    events: &Vec<CollisionEvent>,
    players: &mut PlayerRegistry,
    projectiles: &mut ProjectileRegistry,
) -> (report: CollisionReport)
    requires
        old(players).wf(),
        old(projectiles).wf(),
    ensures
        final(players).wf(),
        final(projectiles).wf(),
        final(players).rules() == old(players).rules(),
        final(players).player_count() == old(players).player_count(),
        final(projectiles).rules() == old(projectiles).rules(),
        final(projectiles).next_id() == old(projectiles).next_id(),
        ({
            let rules = old(players).rules();
            let end = collided(
                rules,
                arena(landed(rules, old(players)@, events@), old(projectiles)@),
                events@,
            );
            &&& final(players)@ == end.players
            &&& final(projectiles)@ == end.projectiles
            &&& report.events@ == end.events
            &&& report.despawned@ == end.despawned
        }),
{
    reset_jumps(events, players);
    projectile_collided(events, players, projectiles)
}

} // verus!
