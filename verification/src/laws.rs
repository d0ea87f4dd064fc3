//! Laws of the lifecycle: facts that hold of every state and every batch,
//! stated over the same functions as the contracts of the operations.

use crate::collision::{arena, collide, collided, kind_of, Arena, Collider, CollisionEvent, Kind};
use crate::player::{
    damage_map, damage_outcome, death_map, death_outcome, key_of, valid_players, DamageOutcome,
    DeathOutcome, PlayerBundle, PlayerCount, PlayerIndex,
};
use crate::projectile::ProjectileBundle;
use crate::rules::Rules;
use vstd::prelude::*;

verus! {

/// The players after `n` hits of `amount` each on `k`, all within one tick.
pub open spec fn pelted(rules: Rules, m: Map<u64, PlayerBundle>, k: u64, amount: u32, n: nat) -> Map<
    u64,
    PlayerBundle,
>
    decreases n,
{
    if n == 0 {
        m
    } else {
        damage_map(rules, pelted(rules, m, k, amount, (n - 1) as nat), k, amount)
    }
}

/// Whether a hit was lethal.
pub open spec fn kills(outcome: DamageOutcome) -> bool {
    outcome is Respawned || outcome is Removed
}

/// How often the death trigger fires during `n` hits of `amount` each on `k`.
pub open spec fn deaths(rules: Rules, m: Map<u64, PlayerBundle>, k: u64, amount: u32, n: nat) -> nat
    decreases n,
{
    if n == 0 {
        0
    } else {
        let before = pelted(rules, m, k, amount, (n - 1) as nat);
        let fired: nat = if kills(damage_outcome(before, k, amount)) {
            1
        } else {
            0
        };
        deaths(rules, m, k, amount, (n - 1) as nat) + fired
    }
}

/// A run of equal hits on an active player kills it exactly once, with the
/// hit that brings the damage of the run up to the health the player had,
/// and never before: while the damage of the run stays below that health
/// the player only loses health, and from then on the death trigger has
/// fired once and the player is gone or waits to reappear.
pub proof fn lemma_death_fires_once(
    rules: Rules,
    count: PlayerCount,
    m: Map<u64, PlayerBundle>,
    index: PlayerIndex,
    amount: u32,
    n: nat,
)
    requires
        rules.wf(),
        valid_players(rules, count, m),
        m.dom().contains(key_of(index)),
        m[key_of(index)].alive,
        amount > 0,
    ensures
        n * amount < m[key_of(index)].health.0 ==> deaths(rules, m, key_of(index), amount, n) == 0
            && pelted(rules, m, key_of(index), amount, n) == m.insert(
            key_of(index),
            PlayerBundle {
                health: crate::player::Health((m[key_of(index)].health.0 - n * amount) as i32),
                damage_taken: crate::player::DamageTaken(
                    (m[key_of(index)].damage_taken.0 + n * amount) as u32,
                ),
                ..m[key_of(index)]
            },
        ),
        n * amount >= m[key_of(index)].health.0 ==> deaths(rules, m, key_of(index), amount, n) == 1
            && pelted(rules, m, key_of(index), amount, n) == death_map(rules, m, key_of(index)),
    decreases n,
{
    let k = key_of(index);
    let h = m[k].health.0 as int;
    if n == 0 {
        assert(0 * amount == 0) by (nonlinear_arith);
        assert(m =~= m.insert(k, m[k]));
    } else {
        let prev = (n - 1) as nat;
        lemma_death_fires_once(rules, count, m, index, amount, prev);
        assert(n * amount == prev * amount + amount) by (nonlinear_arith)
            requires
                n == prev + 1,
        ;
        assert(0 <= prev * amount) by (nonlinear_arith)
            requires
                0 <= prev,
                0 <= amount,
        ;
        let before = pelted(rules, m, k, amount, prev);
        if prev * amount < h {
            assert(before[k].alive);
            assert(before[k].health.0 == h - prev * amount);
            if n * amount < h {
                assert(pelted(rules, m, k, amount, n) =~= m.insert(
                    k,
                    PlayerBundle {
                        health: crate::player::Health((h - n * amount) as i32),
                        damage_taken: crate::player::DamageTaken(
                            (m[k].damage_taken.0 + n * amount) as u32,
                        ),
                        ..m[k]
                    },
                ));
            } else {
                assert(before[k].lethal(amount));
                assert(pelted(rules, m, k, amount, n) =~= death_map(rules, m, k));
            }
        } else {
            assert(before == death_map(rules, m, k));
            assert(!kills(damage_outcome(before, k, amount)));
        }
    }
}

/// A second death trigger for the same player within one tick does
/// nothing, whichever of the two triggers comes first: a trigger from
/// leaving the arena and one from a lethal hit are the same trigger.
pub proof fn lemma_death_is_idempotent(rules: Rules, m: Map<u64, PlayerBundle>, index: PlayerIndex, amount: u32)
    ensures
        death_map(rules, death_map(rules, m, key_of(index)), key_of(index)) == death_map(
            rules,
            m,
            key_of(index),
        ),
        death_outcome(death_map(rules, m, key_of(index)), key_of(index)) == DeathOutcome::Ignored,
        damage_map(rules, death_map(rules, m, key_of(index)), key_of(index), amount) == death_map(
            rules,
            m,
            key_of(index),
        ),
        damage_outcome(death_map(rules, m, key_of(index)), key_of(index), amount)
            == DamageOutcome::Ignored,
        kills(damage_outcome(m, key_of(index), amount)) ==> death_map(
            rules,
            damage_map(rules, m, key_of(index), amount),
            key_of(index),
        ) == damage_map(rules, m, key_of(index), amount) && death_outcome(
            damage_map(rules, m, key_of(index), amount),
            key_of(index),
        ) == DeathOutcome::Ignored,
{
}

/// Removing a projectile twice is removing it once: the second removal
/// finds nothing and changes nothing.
pub proof fn lemma_despawn_is_idempotent(m: Map<u64, ProjectileBundle>, id: u64)
    ensures
        !m.remove(id).dom().contains(id),
        m.remove(id).remove(id) == m.remove(id),
{
    assert(m.remove(id).remove(id) =~= m.remove(id));
}

/// No projectile that has dealt a hit is still in the registry, and no
/// projectile has dealt two.
pub open spec fn spent(s: Arena) -> bool {
    &&& forall|a: int| 0 <= a < s.hits.len() ==> !s.projectiles.dom().contains((#[trigger] s.hits[a]).1)
    &&& forall|a: int, b: int|
        0 <= a < b < s.hits.len() ==> (#[trigger] s.hits[a]).1 != (#[trigger] s.hits[b]).1
}

/// One event keeps `spent`.
proof fn lemma_collide_spent(rules: Rules, s: Arena, e: CollisionEvent)
    requires
        spent(s),
    ensures
        spent(collide(rules, s, e)),
{
    let t = collide(rules, s, e);
    assert forall|a: int| 0 <= a < t.hits.len() implies !t.projectiles.dom().contains(
        (#[trigger] t.hits[a]).1,
    ) by {
        if a < s.hits.len() {
            assert(t.hits[a] == s.hits[a]);
        }
    }
    assert forall|a: int, b: int| 0 <= a < b < t.hits.len() implies (#[trigger] t.hits[a]).1 != (
    #[trigger] t.hits[b]).1 by {
        assert(t.hits[a] == s.hits[a]);
        if b < s.hits.len() {
            assert(t.hits[b] == s.hits[b]);
        }
    }
}

/// Within one batch a projectile deals at most one hit, whatever the batch
/// holds: however often a pair of player and projectile is reported, and
/// whichever way round, the player is hit by that projectile at most once.
pub proof fn lemma_one_hit_per_projectile(rules: Rules, s: Arena, events: Seq<CollisionEvent>)
    requires
        spent(s),
    ensures
        spent(collided(rules, s, events)),
    decreases events.len(),
{
    if events.len() > 0 {
        lemma_one_hit_per_projectile(rules, s, events.drop_last());
        lemma_collide_spent(rules, collided(rules, s, events.drop_last()), events.last());
    }
}

/// A batch that reports one pair of player and projectile twice, once each
/// way round or twice the same way, deals exactly one hit, and ends as the
/// batch that reports it once.
pub proof fn lemma_mirrored_pair_hits_once(
    rules: Rules,
    players: Map<u64, PlayerBundle>,
    projectiles: Map<u64, ProjectileBundle>,
    index: PlayerIndex,
    p: u64,
    first_mirrored: bool,
    second_mirrored: bool,
)
    requires
        players.dom().contains(key_of(index)),
        projectiles.dom().contains(p),
    ensures
        ({
            let one = |mirrored: bool|
                if mirrored {
                    CollisionEvent::Started(Collider::Projectile(p), Collider::Player(index))
                } else {
                    CollisionEvent::Started(Collider::Player(index), Collider::Projectile(p))
                };
            let twice = collided(
                rules,
                arena(players, projectiles),
                seq![one(first_mirrored), one(second_mirrored)],
            );
            let once = collided(rules, arena(players, projectiles), seq![one(first_mirrored)]);
            &&& twice.hits == seq![(index, p)]
            &&& twice == once
        }),
{
    let one = |mirrored: bool|
        if mirrored {
            CollisionEvent::Started(Collider::Projectile(p), Collider::Player(index))
        } else {
            CollisionEvent::Started(Collider::Player(index), Collider::Projectile(p))
        };
    let s = arena(players, projectiles);
    let e1 = one(first_mirrored);
    let e2 = one(second_mirrored);
    let both = seq![e1, e2];
    let single = seq![e1];
    assert(single.drop_last() =~= Seq::<CollisionEvent>::empty());
    assert(both.drop_last() =~= single);
    assert(collided(rules, s, Seq::<CollisionEvent>::empty()) == s);
    let once = collided(rules, s, single);
    assert(once == collide(rules, s, e1));
    assert(kind_of(Collider::Player(index), s.players, s.projectiles) == Kind::Player(index));
    assert(kind_of(Collider::Projectile(p), s.players, s.projectiles) == Kind::Projectile(p));
    assert(!once.projectiles.dom().contains(p));
    assert(kind_of(Collider::Projectile(p), once.players, once.projectiles) == Kind::Unclassified);
    let twice = collided(rules, s, both);
    assert(twice == collide(rules, once, e2));
    assert(once.hits =~= seq![(index, p)]);
}

} // verus!
