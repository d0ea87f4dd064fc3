//! Players: their records, the registry that owns them, and the lifecycle
//! transitions between active, waiting to respawn, and removed.

use crate::geometry::{saturate, saturate_i64, ArenaBounds, Vec2};
use crate::input::Gamepad;
use crate::rules::{Rules, TIME_STEP};
use crate::table::{sorted_keys, Table};
use vstd::prelude::*;

verus! {

/// The input device that controls a player.
#[derive(Clone, Copy, Debug, PartialEq, Eq, Structural)]
pub struct PlayerGamepad(pub Gamepad);

/// Jumps a player can still make before touching something.
#[derive(Clone, Copy, Debug, PartialEq, Eq, Structural)]
pub struct AvailableJumps(pub u32);

/// Lives a player has left, the current one included.
#[derive(Clone, Copy, Debug, PartialEq, Eq, Structural)]
pub struct Lives(pub u32);

/// Health left in the current life.
#[derive(Clone, Copy, Debug, PartialEq, Eq, Structural)]
pub struct Health(pub i32);

/// An amount of damage: that of one hit, or the total taken in a life.
#[derive(Clone, Copy, Debug, PartialEq, Eq, Structural)]
pub struct DamageTaken(pub u32);

/// The last horizontal stick deflection that moved the player.
#[derive(Clone, Copy, Debug, PartialEq, Eq, Structural)]
pub struct Speed(pub i32);

/// The stable identity of a player: assigned in rising order, never reused.
#[derive(Clone, Copy, Debug, PartialEq, Eq, Structural)]
pub struct PlayerIndex(pub u32);

/// The number of indices handed out so far, which is the next free index.
#[derive(Clone, Copy, Debug, PartialEq, Eq, Structural)]
pub struct PlayerCount(pub u32);

/// Everything the simulation keeps about one player.
#[derive(Clone, Copy, Debug, PartialEq, Eq, Structural)]
pub struct PlayerBundle {
    pub gamepad: PlayerGamepad,
    pub player_index: PlayerIndex,
    pub available_jumps: AvailableJumps,
    pub lives: Lives,
    pub damage_taken: DamageTaken,
    pub speed: Speed,
    pub health: Health,
    pub position: Vec2,
    pub velocity: Vec2,
    /// Whether the sprite is mirrored to face left.
    pub flip_x: bool,
    /// False from the moment the player dies until the next tick begins.
    pub alive: bool,
}

/// A player took damage; the second field is the total of its current life.
#[derive(Clone, Copy, Debug, PartialEq, Eq, Structural)]
pub struct PlayerDamageEvent(pub PlayerIndex, pub DamageTaken);

/// A player lost a life and will reappear at the spawn origin.
#[derive(Clone, Copy, Debug, PartialEq, Eq, Structural)]
pub struct PlayerDeathEvent(pub PlayerIndex);

/// A player left the registry for good.
#[derive(Clone, Copy, Debug, PartialEq, Eq, Structural)]
pub struct PlayerRemovedEvent(pub PlayerIndex);

/// A player joined, bound to a device.
#[derive(Clone, Copy, Debug, PartialEq, Eq, Structural)]
pub struct PlayerAddedEvent(pub PlayerIndex, pub Gamepad);

/// What a death trigger did.
#[derive(Clone, Copy, Debug, PartialEq, Eq, Structural)]
pub enum DeathOutcome {
    /// The player is unknown, or has already died during this tick.
    Ignored,
    /// The player lost a life and waits to reappear.
    Respawned,
    /// The player lost its last life and was removed.
    Removed,
}

/// What a hit did. Each variant but `Ignored` carries the total damage of
/// the life in which the hit landed, the hit included.
#[derive(Clone, Copy, Debug, PartialEq, Eq, Structural)]
pub enum DamageOutcome {
    /// The player is unknown, or has already died during this tick.
    Ignored,
    /// The player survived.
    Damaged(DamageTaken),
    /// The hit was lethal; the player lost a life and waits to reappear.
    Respawned(DamageTaken),
    /// The hit was lethal and took the last life; the player was removed.
    Removed(DamageTaken),
}

/// What the registry tells the outside about a player, in the order in which
/// it happened.
#[derive(Clone, Copy, Debug, PartialEq, Eq, Structural)]
pub enum PlayerEvent {
    Added(PlayerAddedEvent),
    Damaged(PlayerDamageEvent),
    Died(PlayerDeathEvent),
    Removed(PlayerRemovedEvent),
}

/// The registry id under which a player is stored.
pub open spec fn key_of(index: PlayerIndex) -> u64 {
    index.0 as u64
}

/// Sum of two damage amounts, stopping at the top of the range.
pub open spec fn damage_sum(a: u32, b: u32) -> u32 {
    if a + b > u32::MAX {
        u32::MAX
    } else {
        (a + b) as u32
    }
}

impl PlayerBundle {
    /// The record of a player that has just joined.
    pub open spec fn fresh(rules: Rules, index: PlayerIndex, gamepad: Gamepad) -> PlayerBundle {
        PlayerBundle {
            gamepad: PlayerGamepad(gamepad),
            player_index: index,
            available_jumps: AvailableJumps(rules.max_jumps),
            lives: Lives(rules.max_lives),
            damage_taken: DamageTaken(0),
            speed: Speed(1000),
            health: Health(rules.max_health),
            position: rules.spawn_origin,
            velocity: Vec2::origin(),
            flip_x: false,
            alive: true,
        }
    }

    /// What the registry maintains of every record: health between one and
    /// the maximum, health and damage adding up to the maximum, at least one
    /// life, and no more jumps than the rules give.
    pub open spec fn valid(self, rules: Rules) -> bool {
        &&& 1 <= self.health.0 <= rules.max_health
        &&& self.health.0 + self.damage_taken.0 == rules.max_health
        &&& 1 <= self.lives.0 <= rules.max_lives
        &&& self.available_jumps.0 <= rules.max_jumps
    }

    /// Whether a hit of `amount` ends the current life.
    pub open spec fn lethal(self, amount: u32) -> bool {
        amount >= self.health.0
    }

    /// The record after a hit that is not lethal.
    pub open spec fn hurt(self, amount: u32) -> PlayerBundle {
        PlayerBundle {
            health: Health((self.health.0 - amount) as i32),
            damage_taken: DamageTaken((self.damage_taken.0 + amount) as u32),
            ..self
        }
    }

    /// The record after a death that leaves lives: one life fewer, full
    /// health, no damage, at rest at the spawn origin, waiting for the next tick.
    pub open spec fn reborn(self, rules: Rules) -> PlayerBundle {
        PlayerBundle {
            lives: Lives((self.lives.0 - 1) as u32),
            health: Health(rules.max_health),
            damage_taken: DamageTaken(0),
            position: rules.spawn_origin,
            velocity: Vec2::origin(),
            alive: false,
            ..self
        }
    }

    /// The record with its jumps refilled.
    pub open spec fn grounded(self, rules: Rules) -> PlayerBundle {
        PlayerBundle { available_jumps: AvailableJumps(rules.max_jumps), ..self }
    }

    /// The record after a jump: one jump fewer, moving straight up.
    pub open spec fn jumped(self, rules: Rules) -> PlayerBundle {
        PlayerBundle {
            available_jumps: AvailableJumps((self.available_jumps.0 - 1) as u32),
            velocity: Vec2 { x: 0, y: rules.jump_speed },
            ..self
        }
    }

    /// The record after the stick was held at `x` for one tick: moved
    /// sideways by `x` times the time step, and, where `x` is not zero,
    /// mirrored unless the previous move went right, with `x` remembered
    /// as the last move.
    pub open spec fn steered(self, x: i32) -> PlayerBundle {
        let moved = Vec2 {
            x: saturate(self.position.x + x * TIME_STEP) as i32,
            y: self.position.y,
        };
        if x != 0 {
            PlayerBundle { position: moved, flip_x: !(self.speed.0 > 0), speed: Speed(x), ..self }
        } else {
            PlayerBundle { position: moved, ..self }
        }
    }

    /// The record of a player that has just joined under `rules`.
    pub fn new(rules: &Rules, index: PlayerIndex, gamepad: Gamepad) -> (p: PlayerBundle)
        ensures
            p == PlayerBundle::fresh(*rules, index, gamepad),
    {
        PlayerBundle {
            gamepad: PlayerGamepad(gamepad),
            player_index: index,
            available_jumps: AvailableJumps(rules.max_jumps),
            lives: Lives(rules.max_lives),
            damage_taken: DamageTaken(0),
            speed: Speed(1000),
            health: Health(rules.max_health),
            position: rules.spawn_origin,
            velocity: Vec2::zero(),
            flip_x: false,
            alive: true,
        }
    }
}

impl Default for PlayerBundle {
    /// The first player of a standard match, on device 1.
    fn default() -> (p: PlayerBundle)
        ensures
            p == PlayerBundle::fresh(Rules::standard(), PlayerIndex(0), Gamepad { id: 1 }),
    {
        let rules = Rules::default();
        PlayerBundle::new(&rules, PlayerIndex(0), Gamepad { id: 1 })
    }
}

/// Whether some player of `m` is bound to `gamepad`.
pub open spec fn bound(m: Map<u64, PlayerBundle>, gamepad: Gamepad) -> bool {
    exists|k: u64| #[trigger] m.dom().contains(k) && m[k].gamepad.0 == gamepad
}

/// What a registry maintains of its records: each is valid, is stored under
/// its own index, which is below the count, and no two share a device.
pub open spec fn valid_players(rules: Rules, count: PlayerCount, m: Map<u64, PlayerBundle>) -> bool {
    &&& forall|k: u64| #[trigger]
        m.dom().contains(k) ==> m[k].valid(rules) && key_of(m[k].player_index) == k && k < count.0
    &&& forall|a: u64, b: u64|
        #![trigger m.dom().contains(a), m.dom().contains(b)]
        m.dom().contains(a) && m.dom().contains(b) && a != b ==> m[a].gamepad != m[b].gamepad
}

/// The players after a death trigger for `k`: unchanged where `k` is unknown
/// or has already died during this tick; without `k` where it was on its
/// last life; otherwise with `k` reborn.
pub open spec fn death_map(rules: Rules, m: Map<u64, PlayerBundle>, k: u64) -> Map<u64, PlayerBundle> {
    if m.dom().contains(k) && m[k].alive {
        if m[k].lives.0 <= 1 {
            m.remove(k)
        } else {
            m.insert(k, m[k].reborn(rules))
        }
    } else {
        m
    }
}

/// What a death trigger for `k` reports.
pub open spec fn death_outcome(m: Map<u64, PlayerBundle>, k: u64) -> DeathOutcome {
    if m.dom().contains(k) && m[k].alive {
        if m[k].lives.0 <= 1 {
            DeathOutcome::Removed
        } else {
            DeathOutcome::Respawned
        }
    } else {
        DeathOutcome::Ignored
    }
}

/// The players after a hit of `amount` on `k`: unchanged where `k` is
/// unknown or has already died during this tick; as after a death trigger
/// where the hit is lethal; otherwise with `k` hurt.
pub open spec fn damage_map(rules: Rules, m: Map<u64, PlayerBundle>, k: u64, amount: u32) -> Map<
    u64,
    PlayerBundle,
> {
    if m.dom().contains(k) && m[k].alive {
        if m[k].lethal(amount) {
            death_map(rules, m, k)
        } else {
            m.insert(k, m[k].hurt(amount))
        }
    } else {
        m
    }
}

/// What a hit of `amount` on `k` reports.
pub open spec fn damage_outcome(m: Map<u64, PlayerBundle>, k: u64, amount: u32) -> DamageOutcome {
    if m.dom().contains(k) && m[k].alive {
        let total = DamageTaken(damage_sum(m[k].damage_taken.0, amount));
        if !m[k].lethal(amount) {
            DamageOutcome::Damaged(total)
        } else if m[k].lives.0 <= 1 {
            DamageOutcome::Removed(total)
        } else {
            DamageOutcome::Respawned(total)
        }
    } else {
        DamageOutcome::Ignored
    }
}

/// The events that a death trigger for `index` with the given outcome emits.
pub open spec fn death_events(index: PlayerIndex, outcome: DeathOutcome) -> Seq<PlayerEvent> {
    match outcome {
        DeathOutcome::Ignored => Seq::empty(),
        DeathOutcome::Respawned => seq![PlayerEvent::Died(PlayerDeathEvent(index))],
        DeathOutcome::Removed => seq![PlayerEvent::Removed(PlayerRemovedEvent(index))],
    }
}

/// The events that a hit on `index` with the given outcome emits: the damage
/// with the new total, then the death or the removal where the hit was lethal.
pub open spec fn damage_events(index: PlayerIndex, outcome: DamageOutcome) -> Seq<PlayerEvent> {
    match outcome {
        DamageOutcome::Ignored => Seq::empty(),
        DamageOutcome::Damaged(total) => seq![PlayerEvent::Damaged(PlayerDamageEvent(index, total))],
        DamageOutcome::Respawned(total) => seq![
            PlayerEvent::Damaged(PlayerDamageEvent(index, total)),
            PlayerEvent::Died(PlayerDeathEvent(index)),
        ],
        DamageOutcome::Removed(total) => seq![
            PlayerEvent::Damaged(PlayerDamageEvent(index, total)),
            PlayerEvent::Removed(PlayerRemovedEvent(index)),
        ],
    }
}

/// The players with the record of `k`, where there is one, replaced by `f` of it.
pub open spec fn adjust(
    m: Map<u64, PlayerBundle>,
    k: u64,
    f: spec_fn(PlayerBundle) -> PlayerBundle,
) -> Map<u64, PlayerBundle> {
    if m.dom().contains(k) {
        m.insert(k, f(m[k]))
    } else {
        m
    }
}

/// The players at the start of a tick: everyone who died during the last
/// one is active again.
pub open spec fn revived(m: Map<u64, PlayerBundle>) -> Map<u64, PlayerBundle> {
    Map::new(|k: u64| m.dom().contains(k), |k: u64| PlayerBundle { alive: true, ..m[k] })
}

/// The players after everyone outside `bounds` has met a death trigger.
pub open spec fn swept(rules: Rules, bounds: ArenaBounds, m: Map<u64, PlayerBundle>) -> Map<
    u64,
    PlayerBundle,
> {
    Map::new(
        |k: u64|
            m.dom().contains(k) && !(bounds.outside(m[k].position) && m[k].alive && m[k].lives.0
                <= 1),
        |k: u64|
            if bounds.outside(m[k].position) && m[k].alive {
                m[k].reborn(rules)
            } else {
                m[k]
            },
    )
}

/// The events of the death triggers for those of `keys` that are outside
/// `bounds`, in the order of `keys`.
pub open spec fn sweep_events(keys: Seq<u64>, bounds: ArenaBounds, m: Map<u64, PlayerBundle>) -> Seq<
    PlayerEvent,
>
    decreases keys.len(),
{
    if keys.len() == 0 {
        Seq::empty()
    } else {
        let k = keys.last();
        let rest = sweep_events(keys.drop_last(), bounds, m);
        if m.dom().contains(k) && bounds.outside(m[k].position) {
            rest + death_events(m[k].player_index, death_outcome(m, k))
        } else {
            rest
        }
    }
}

/// The registry of players.
pub struct PlayerRegistry {
    rules: Rules,
    count: PlayerCount,
    table: Table<PlayerBundle>,
}

impl PlayerRegistry {
    /// The players, by index.
    pub closed spec fn view(&self) -> Map<u64, PlayerBundle> {
        self.table@
    }

    /// The indices of the players, ascending.
    pub closed spec fn indices(&self) -> Seq<u64> {
        self.table.keys()
    }

    /// The rules the registry was made with.
    pub closed spec fn spec_rules(&self) -> Rules {
        self.rules
    }

    /// The next free index.
    pub closed spec fn spec_player_count(&self) -> PlayerCount {
        self.count
    }

    /// The storage is in order.
    pub closed spec fn stored(&self) -> bool {
        self.table.wf()
    }

    /// The invariant of the registry.
    pub open spec fn wf(&self) -> bool {
        &&& self.stored()
        &&& self.rules().wf()
        &&& valid_players(self.rules(), self.player_count(), self@)
    }

    /// A player can be added under `index` for `gamepad` when the index has
    /// never been handed out, is not the last of the range, and the device
    /// controls no player yet.
    pub open spec fn can_spawn(&self, index: PlayerIndex, gamepad: Gamepad) -> bool {
        &&& self.player_count().0 <= index.0 < u32::MAX
        &&& !bound(self@, gamepad)
    }

    /// `indices()` lists the players exactly once, in ascending order.
    pub proof fn lemma_indices(&self)
        requires
            self.wf(),
        ensures
            forall|i: int, j: int|
                0 <= i < j < self.indices().len() ==> #[trigger] self.indices()[i]
                    < #[trigger] self.indices()[j],
            forall|i: int|
                0 <= i < self.indices().len() ==> self@.dom().contains(#[trigger] self.indices()[i]),
            forall|k: u64| #[trigger] self@.dom().contains(k) ==> self.indices().contains(k),
            self.indices() == sorted_keys(self@.dom()),
    {
        self.table.lemma_keys();
    }

    /// An empty registry under `rules`, or nothing where the rules are not valid.
    pub fn new(rules: Rules) -> (r: Option<PlayerRegistry>)
        ensures
            r.is_some() == rules.wf(),
            r matches Some(reg) ==> reg.wf() && reg.rules() == rules && reg.player_count()
                == PlayerCount(0) && reg@ == Map::<u64, PlayerBundle>::empty(),
    {
        if rules.is_valid() {
            Some(PlayerRegistry { rules, count: PlayerCount(0), table: Table::new() })
        } else {
            None
        }
    }

    /// The rules the registry was made with.
    #[verifier::when_used_as_spec(spec_rules)]
    pub fn rules(&self) -> (r: Rules)
        ensures
            r == self.rules(),
    {
        self.rules
    }

    /// The number of indices handed out so far, which is the next free index.
    #[verifier::when_used_as_spec(spec_player_count)]
    pub fn player_count(&self) -> (c: PlayerCount)
        ensures
            c == self.player_count(),
    {
        self.count
    }

    /// Number of players in the registry.
    pub fn len(&self) -> (n: usize)
        ensures
            n == self.indices().len(),
            self.wf() ==> n == sorted_keys(self@.dom()).len(),
    {
        proof {
            if self.wf() {
                self.lemma_indices();
            }
        }
        self.table.len()
    }

    /// The index of the `i`-th player in ascending order.
    pub fn index_at(&self, i: usize) -> (index: PlayerIndex)
        requires
            self.wf(),
            i < self.indices().len(),
        ensures
            key_of(index) == self.indices()[i as int],
            self@.dom().contains(key_of(index)),
    {
        self.table.value_at(i).player_index
    }

    /// Whether `index` is in the registry.
    pub fn contains(&self, index: PlayerIndex) -> (r: bool)
        requires
            self.wf(),
        ensures
            r == self@.dom().contains(key_of(index)),
    {
        self.table.contains_key(index.0 as u64)
    }

    /// The record of `index`, where it is in the registry.
    pub fn get(&self, index: PlayerIndex) -> (r: Option<PlayerBundle>)
        requires
            self.wf(),
        ensures
            r == (if self@.dom().contains(key_of(index)) {
                Some(self@[key_of(index)])
            } else {
                None
            }),
    {
        match self.table.get(index.0 as u64) {
            Some(p) => Some(*p),
            None => None,
        }
    }

    /// The player that `gamepad` controls, where there is one.
    pub fn find_by_gamepad(&self, gamepad: Gamepad) -> (r: Option<PlayerIndex>)
        requires
            self.wf(),
        ensures
            match r {
                Some(index) => self@.dom().contains(key_of(index)) && self@[key_of(index)].gamepad.0
                    == gamepad,
                None => !bound(self@, gamepad),
            },
    {
        let n = self.table.len();
        let mut i: usize = 0;
        while i < n
            invariant
                self.wf(),
                n == self.indices().len(),
                i <= n,
                forall|j: int| 0 <= j < i ==> self@[#[trigger] self.indices()[j]].gamepad.0 != gamepad,
            decreases n - i,
        {
            let p = self.table.value_at(i);
            if p.gamepad.0 == gamepad {
                return Some(p.player_index);
            }
            i = i + 1;
        }
        proof {
            self.lemma_indices();
            assert forall|k: u64| #[trigger] self@.dom().contains(k) implies self@[k].gamepad.0
                != gamepad by {
                let j = choose|j: int| 0 <= j < self.indices().len() && self.indices()[j] == k;
                assert(self@[self.indices()[j]].gamepad.0 != gamepad);
            }
        }
        None
    }

    /// Adds a player with the defaults of the rules, at the spawn origin.
    /// Nothing happens unless `can_spawn` holds.
    pub fn spawn(&mut self, player_index: PlayerIndex, gamepad: Gamepad) -> (added: bool)
        requires
            old(self).wf(),
        ensures
            final(self).wf(),
            final(self).rules() == old(self).rules(),
            added == old(self).can_spawn(player_index, gamepad),
            added ==> final(self)@ == old(self)@.insert(
                key_of(player_index),
                PlayerBundle::fresh(old(self).rules(), player_index, gamepad),
            ) && final(self).player_count() == PlayerCount((player_index.0 + 1) as u32),
            !added ==> final(self)@ == old(self)@ && final(self).player_count() == old(
                self,
            ).player_count(),
    {
        if player_index.0 < self.count.0 || player_index.0 == u32::MAX {
            return false;
        }
        if self.find_by_gamepad(gamepad).is_some() {
            return false;
        }
        let p = PlayerBundle::new(&self.rules, player_index, gamepad);
        self.table.insert(player_index.0 as u64, p);
        self.count = PlayerCount(player_index.0 + 1);
        true
    }

    /// Takes `index` out of the registry at once, whatever its lives and health.
    pub fn remove(&mut self, index: PlayerIndex) -> (removed: bool)
        requires
            old(self).wf(),
        ensures
            final(self).wf(),
            final(self).rules() == old(self).rules(),
            final(self).player_count() == old(self).player_count(),
            final(self)@ == old(self)@.remove(key_of(index)),
            removed == old(self)@.dom().contains(key_of(index)),
    {
        self.table.remove(index.0 as u64).is_some()
    }

    /// The indices of the players, ascending.
    pub fn index_list(&self) -> (list: Vec<PlayerIndex>)
        requires
            self.wf(),
        ensures
            list@.len() == self.indices().len(),
            forall|i: int| 0 <= i < list@.len() ==> key_of(#[trigger] list@[i]) == self.indices()[i],
            list@.len() == sorted_keys(self@.dom()).len(),
            forall|i: int|
                0 <= i < list@.len() ==> key_of(#[trigger] list@[i]) == sorted_keys(self@.dom())[i],
    {
        proof {
            self.lemma_indices();
        }
        let n = self.table.len();
        let mut list: Vec<PlayerIndex> = Vec::new();
        let mut i: usize = 0;
        while i < n
            invariant
                self.wf(),
                n == self.indices().len(),
                i <= n,
                list@.len() == i,
                forall|j: int| 0 <= j < i ==> key_of(#[trigger] list@[j]) == self.indices()[j],
            decreases n - i,
        {
            list.push(self.table.value_at(i).player_index);
            i = i + 1;
        }
        list
    }

    /// Replaces the record of `key`, which is in the registry, by one that
    /// keeps its index and device.
    fn put(&mut self, key: u64, p: PlayerBundle)
        requires
            old(self).wf(),
            old(self)@.dom().contains(key),
            p.valid(old(self).rules()),
            p.player_index == old(self)@[key].player_index,
            p.gamepad == old(self)@[key].gamepad,
        ensures
            final(self).wf(),
            final(self).rules() == old(self).rules(),
            final(self).player_count() == old(self).player_count(),
            final(self).indices() == old(self).indices(),
            final(self)@ == old(self)@.insert(key, p),
    {
        self.table.insert(key, p);
    }

    /// A death trigger: the player loses a life. With no life left it is
    /// removed for good; otherwise it is reset to full health and no damage,
    /// at rest at the spawn origin. A player that has already died during
    /// this tick, or that is unknown, is left alone.
    pub fn handle_death(&mut self, player_index: PlayerIndex) -> (outcome: DeathOutcome)
        requires
            old(self).wf(),
        ensures
            final(self).wf(),
            final(self).rules() == old(self).rules(),
            final(self).player_count() == old(self).player_count(),
            final(self)@ == death_map(old(self).rules(), old(self)@, key_of(player_index)),
            outcome == death_outcome(old(self)@, key_of(player_index)),
    {
        let key = player_index.0 as u64;
        let p = match self.table.get(key) {
            Some(p) => *p,
            None => {
                return DeathOutcome::Ignored;
            },
        };
        if !p.alive {
            return DeathOutcome::Ignored;
        }
        if p.lives.0 <= 1 {
            self.table.remove(key);
            DeathOutcome::Removed
        } else {
            let q = PlayerBundle {
                lives: Lives(p.lives.0 - 1),
                health: Health(self.rules.max_health),
                damage_taken: DamageTaken(0),
                position: self.rules.spawn_origin,
                velocity: Vec2::zero(),
                alive: false,
                ..p
            };
            self.put(key, q);
            DeathOutcome::Respawned
        }
    }

    /// The player has left the arena: a death trigger, whatever health is left.
    pub fn handle_out_of_bounds(&mut self, player_index: PlayerIndex) -> (outcome: DeathOutcome)
        requires
            old(self).wf(),
        ensures
            final(self).wf(),
            final(self).rules() == old(self).rules(),
            final(self).player_count() == old(self).player_count(),
            final(self)@ == death_map(old(self).rules(), old(self)@, key_of(player_index)),
            outcome == death_outcome(old(self)@, key_of(player_index)),
    {
        self.handle_death(player_index)
    }

    /// A hit: health goes down and the damage total up by `amount`; where
    /// no health is left, the death trigger follows at once. A player that
    /// has already died during this tick, or that is unknown, is left alone.
    pub fn apply_damage(&mut self, player_index: PlayerIndex, amount: u32) -> (outcome: DamageOutcome)
        requires
            old(self).wf(),
        ensures
            final(self).wf(),
            final(self).rules() == old(self).rules(),
            final(self).player_count() == old(self).player_count(),
            final(self)@ == damage_map(old(self).rules(), old(self)@, key_of(player_index), amount),
            outcome == damage_outcome(old(self)@, key_of(player_index), amount),
    {
        let key = player_index.0 as u64;
        let p = match self.table.get(key) {
            Some(p) => *p,
            None => {
                return DamageOutcome::Ignored;
            },
        };
        if !p.alive {
            return DamageOutcome::Ignored;
        }
        let total = DamageTaken(p.damage_taken.0.saturating_add(amount));
        if amount as i64 >= p.health.0 as i64 {
            match self.handle_death(player_index) {
                DeathOutcome::Removed => DamageOutcome::Removed(total),
                _ => DamageOutcome::Respawned(total),
            }
        } else {
            let q = PlayerBundle {
                health: Health(p.health.0 - amount as i32),
                damage_taken: DamageTaken(p.damage_taken.0 + amount),
                ..p
            };
            self.put(key, q);
            DamageOutcome::Damaged(total)
        }
    }

    /// Refills the jumps of `player_index`. Returns whether the player is known.
    pub fn reset_jumps(&mut self, player_index: PlayerIndex) -> (known: bool)
        requires
            old(self).wf(),
        ensures
            final(self).wf(),
            final(self).rules() == old(self).rules(),
            final(self).player_count() == old(self).player_count(),
            known == old(self)@.dom().contains(key_of(player_index)),
            final(self)@ == adjust(
                old(self)@,
                key_of(player_index),
                |p: PlayerBundle| p.grounded(old(self).rules()),
            ),
            known ==> final(self)@[key_of(player_index)].available_jumps.0 == old(
                self,
            ).rules().max_jumps,
    {
        let key = player_index.0 as u64;
        let p = match self.table.get(key) {
            Some(p) => *p,
            None => {
                return false;
            },
        };
        let q = PlayerBundle { available_jumps: AvailableJumps(self.rules.max_jumps), ..p };
        self.put(key, q);
        true
    }

    /// Makes `player_index` jump where it has a jump left: its velocity
    /// becomes the launch speed straight up and it has one jump fewer.
    /// Returns whether it jumped.
    pub fn consume_jump(&mut self, player_index: PlayerIndex) -> (jumped: bool)
        requires
            old(self).wf(),
        ensures
            final(self).wf(),
            final(self).rules() == old(self).rules(),
            final(self).player_count() == old(self).player_count(),
            jumped == (old(self)@.dom().contains(key_of(player_index)) && old(self)@[key_of(
                player_index,
            )].available_jumps.0 > 0),
            final(self)@ == (if jumped {
                old(self)@.insert(
                    key_of(player_index),
                    old(self)@[key_of(player_index)].jumped(old(self).rules()),
                )
            } else {
                old(self)@
            }),
    {
        let key = player_index.0 as u64;
        let p = match self.table.get(key) {
            Some(p) => *p,
            None => {
                return false;
            },
        };
        if p.available_jumps.0 == 0 {
            return false;
        }
        let q = PlayerBundle {
            available_jumps: AvailableJumps(p.available_jumps.0 - 1),
            velocity: Vec2 { x: 0, y: self.rules.jump_speed },
            ..p
        };
        self.put(key, q);
        true
    }

    /// Records where the physics has moved `player_index` to. Returns
    /// whether the player is known.
    pub fn set_position(&mut self, player_index: PlayerIndex, position: Vec2) -> (known: bool)
        requires
            old(self).wf(),
        ensures
            final(self).wf(),
            final(self).rules() == old(self).rules(),
            final(self).player_count() == old(self).player_count(),
            known == old(self)@.dom().contains(key_of(player_index)),
            final(self)@ == adjust(
                old(self)@,
                key_of(player_index),
                |p: PlayerBundle| PlayerBundle { position, ..p },
            ),
    {
        let key = player_index.0 as u64;
        let p = match self.table.get(key) {
            Some(p) => *p,
            None => {
                return false;
            },
        };
        self.put(key, PlayerBundle { position, ..p });
        true
    }

    /// Prescribes the velocity of `player_index`. Returns whether the player
    /// is known.
    pub fn set_velocity(&mut self, player_index: PlayerIndex, velocity: Vec2) -> (known: bool)
        requires
            old(self).wf(),
        ensures
            final(self).wf(),
            final(self).rules() == old(self).rules(),
            final(self).player_count() == old(self).player_count(),
            known == old(self)@.dom().contains(key_of(player_index)),
            final(self)@ == adjust(
                old(self)@,
                key_of(player_index),
                |p: PlayerBundle| PlayerBundle { velocity, ..p },
            ),
    {
        let key = player_index.0 as u64;
        let p = match self.table.get(key) {
            Some(p) => *p,
            None => {
                return false;
            },
        };
        self.put(key, PlayerBundle { velocity, ..p });
        true
    }

    /// Moves `player_index` sideways for one tick with the stick held at
    /// `x`. Returns whether the player is known.
    pub fn steer(&mut self, player_index: PlayerIndex, x: i32) -> (known: bool)
        requires
            old(self).wf(),
        ensures
            final(self).wf(),
            final(self).rules() == old(self).rules(),
            final(self).player_count() == old(self).player_count(),
            known == old(self)@.dom().contains(key_of(player_index)),
            final(self)@ == adjust(old(self)@, key_of(player_index), |p: PlayerBundle| p.steered(x)),
    {
        let key = player_index.0 as u64;
        let p = match self.table.get(key) {
            Some(p) => *p,
            None => {
                return false;
            },
        };
        let moved = Vec2 {
            x: saturate_i64(p.position.x as i64 + x as i64 * TIME_STEP as i64),
            y: p.position.y,
        };
        let q = if x != 0 {
            PlayerBundle { position: moved, flip_x: !(p.speed.0 > 0), speed: Speed(x), ..p }
        } else {
            PlayerBundle { position: moved, ..p }
        };
        self.put(key, q);
        true
    }

    /// Starts a tick: every player that died during the last one is active again.
    pub fn begin_tick(&mut self)
        requires
            old(self).wf(),
        ensures
            final(self).wf(),
            final(self).rules() == old(self).rules(),
            final(self).player_count() == old(self).player_count(),
            final(self).indices() == old(self).indices(),
            final(self)@ == revived(old(self)@),
    {
        let n = self.table.len();
        let mut i: usize = 0;
        proof {
            self.lemma_indices();
        }
        while i < n
            invariant
                self.wf(),
                old(self).wf(),
                self.rules() == old(self).rules(),
                self.player_count() == old(self).player_count(),
                self.indices() == old(self).indices(),
                n == self.indices().len(),
                i <= n,
                forall|a: int, b: int|
                    0 <= a < b < n ==> #[trigger] self.indices()[a] < #[trigger] self.indices()[b],
                forall|k: u64| self@.dom().contains(k) <==> old(self)@.dom().contains(k),
                forall|j: int|
                    0 <= j < n ==> self@.dom().contains(#[trigger] self.indices()[j]) && self@[self.indices()[j]]
                        == (if j < i {
                        PlayerBundle { alive: true, ..old(self)@[self.indices()[j]] }
                    } else {
                        old(self)@[self.indices()[j]]
                    }),
            decreases n - i,
        {
            let key = self.table.key_at(i);
            let p = *self.table.value_at(i);
            let ghost before = self@;
            self.put(key, PlayerBundle { alive: true, ..p });
            assert forall|j: int| 0 <= j < n implies self@.dom().contains(
                #[trigger] self.indices()[j],
            ) && self@[self.indices()[j]] == (if j < i + 1 {
                PlayerBundle { alive: true, ..old(self)@[self.indices()[j]] }
            } else {
                old(self)@[self.indices()[j]]
            }) by {
                if j != i {
                    assert(self.indices()[j] != self.indices()[i as int]);
                    assert(before.dom().contains(self.indices()[j]));
                }
            }
            i = i + 1;
        }
        proof {
            old(self).lemma_indices();
            assert forall|k: u64| self@.dom().contains(k) implies #[trigger] self@[k] == revived(
                old(self)@,
            )[k] by {
                let j = choose|j: int| 0 <= j < self.indices().len() && self.indices()[j] == k;
                assert(self@.dom().contains(self.indices()[j]));
            }
            assert(self@ =~= revived(old(self)@));
        }
    }
}

/// Appends the events of a death trigger to `events`.
pub fn push_death_events(events: &mut Vec<PlayerEvent>, index: PlayerIndex, outcome: DeathOutcome)
    ensures
        final(events)@ == old(events)@ + death_events(index, outcome),
{
    match outcome {
        DeathOutcome::Ignored => {},
        DeathOutcome::Respawned => {
            events.push(PlayerEvent::Died(PlayerDeathEvent(index)));
        },
        DeathOutcome::Removed => {
            events.push(PlayerEvent::Removed(PlayerRemovedEvent(index)));
        },
    }
    assert(events@ =~= old(events)@ + death_events(index, outcome));
}

/// Appends the events of a hit to `events`.
pub fn push_damage_events(events: &mut Vec<PlayerEvent>, index: PlayerIndex, outcome: DamageOutcome)
    ensures
        final(events)@ == old(events)@ + damage_events(index, outcome),
{
    match outcome {
        DamageOutcome::Ignored => {},
        DamageOutcome::Damaged(total) => {
            events.push(PlayerEvent::Damaged(PlayerDamageEvent(index, total)));
        },
        DamageOutcome::Respawned(total) => {
            events.push(PlayerEvent::Damaged(PlayerDamageEvent(index, total)));
            events.push(PlayerEvent::Died(PlayerDeathEvent(index)));
        },
        DamageOutcome::Removed(total) => {
            events.push(PlayerEvent::Damaged(PlayerDamageEvent(index, total)));
            events.push(PlayerEvent::Removed(PlayerRemovedEvent(index)));
        },
    }
    assert(events@ =~= old(events)@ + damage_events(index, outcome));
}

/// The bounds check for players: every player whose position is outside the
/// arena meets a death trigger. The events come in ascending order of index.
pub fn respawn_players_who_leave_window(bounds: &ArenaBounds, players: &mut PlayerRegistry) -> (events:
    Vec<PlayerEvent>)
    requires
        old(players).wf(),
    ensures
        final(players).wf(),
        final(players).rules() == old(players).rules(),
        final(players).player_count() == old(players).player_count(),
        final(players)@ == swept(old(players).rules(), *bounds, old(players)@),
        events@ == sweep_events(sorted_keys(old(players)@.dom()), *bounds, old(players)@),
{
    let list = players.index_list();
    let n = list.len();
    let ghost keys = players.indices();
    let ghost before = players@;
    let ghost rules = players.rules();
    let mut events: Vec<PlayerEvent> = Vec::new();
    let mut j: usize = 0;
    proof {
        players.lemma_indices();
    }
    while j < n
        invariant
            players.wf(),
            players.rules() == rules,
            rules == old(players).rules(),
            players.player_count() == old(players).player_count(),
            keys == old(players).indices(),
            before == old(players)@,
            valid_players(rules, old(players).player_count(), before),
            n == list@.len(),
            n == keys.len(),
            j <= n,
            forall|t: int| 0 <= t < n ==> key_of(#[trigger] list@[t]) == keys[t],
            forall|a: int, b: int| 0 <= a < b < n ==> #[trigger] keys[a] < #[trigger] keys[b],
            forall|t: int| 0 <= t < n ==> before.dom().contains(#[trigger] keys[t]),
            forall|k: u64| #[trigger] players@.dom().contains(k) ==> before.dom().contains(k),
            forall|t: int|
                0 <= t < n ==> (if t < j {
                    players@.dom().contains(#[trigger] keys[t]) == swept(rules, *bounds, before).dom().contains(
                        keys[t],
                    ) && (players@.dom().contains(keys[t]) ==> players@[keys[t]] == swept(
                        rules,
                        *bounds,
                        before,
                    )[keys[t]])
                } else {
                    players@.dom().contains(keys[t]) && players@[keys[t]] == before[keys[t]]
                }),
            events@ == sweep_events(keys.take(j as int), *bounds, before),
        decreases n - j,
    {
        let index = list[j];
        let ghost k = keys[j as int];
        let ghost mid = players@;
        assert(key_of(list@[j as int]) == k);
        assert(mid.dom().contains(k) && mid[k] == before[k]);
        assert(before[k].player_index == index);
        let p = players.get(index);
        assert(keys.take(j + 1).drop_last() =~= keys.take(j as int));
        let outside = match p {
            Some(p) => bounds.is_outside(p.position),
            None => false,
        };
        if outside {
            let outcome = players.handle_death(index);
            push_death_events(&mut events, index, outcome);
        }
        assert forall|t: int| 0 <= t < n implies (if t < j + 1 {
            players@.dom().contains(#[trigger] keys[t]) == swept(rules, *bounds, before).dom().contains(
                keys[t],
            ) && (players@.dom().contains(keys[t]) ==> players@[keys[t]] == swept(
                rules,
                *bounds,
                before,
            )[keys[t]])
        } else {
            players@.dom().contains(keys[t]) && players@[keys[t]] == before[keys[t]]
        }) by {
            if t != j {
                assert(keys[t] != k);
                assert(mid.dom().contains(keys[t]) ==> players@.dom().contains(keys[t])
                    && players@[keys[t]] == mid[keys[t]]);
                assert(!mid.dom().contains(keys[t]) ==> !players@.dom().contains(keys[t]));
            }
        }
        j = j + 1;
    }
    proof {
        assert(keys.take(n as int) =~= keys);
        let goal = swept(rules, *bounds, before);
        assert forall|k: u64| players@.dom().contains(k) <==> goal.dom().contains(k) by {
            if before.dom().contains(k) {
                let t = choose|t: int| 0 <= t < keys.len() && keys[t] == k;
                assert(players@.dom().contains(keys[t]) == goal.dom().contains(keys[t]));
            }
        }
        assert forall|k: u64| players@.dom().contains(k) implies #[trigger] players@[k] == goal[k] by {
            let t = choose|t: int| 0 <= t < keys.len() && keys[t] == k;
            assert(players@.dom().contains(keys[t]) ==> players@[keys[t]] == goal[keys[t]]);
        }
        assert(players@ =~= goal);
    }
    events
}

/// The players after a batch of death triggers, taken in order.
pub open spec fn after_deaths(rules: Rules, m: Map<u64, PlayerBundle>, triggers: Seq<PlayerDeathEvent>) -> Map<
    u64,
    PlayerBundle,
>
    decreases triggers.len(),
{
    if triggers.len() == 0 {
        m
    } else {
        death_map(rules, after_deaths(rules, m, triggers.drop_last()), key_of(triggers.last().0))
    }
}

/// The events that a batch of death triggers emits, taken in order.
pub open spec fn death_notices(rules: Rules, m: Map<u64, PlayerBundle>, triggers: Seq<PlayerDeathEvent>) -> Seq<
    PlayerEvent,
>
    decreases triggers.len(),
{
    if triggers.len() == 0 {
        Seq::empty()
    } else {
        let before = after_deaths(rules, m, triggers.drop_last());
        death_notices(rules, m, triggers.drop_last()) + death_events(
            triggers.last().0,
            death_outcome(before, key_of(triggers.last().0)),
        )
    }
}

/// Takes a batch of death triggers in order. Each player dies at most once
/// per tick: a trigger for a player that has already died during this
/// tick, or that is unknown, does nothing.
pub fn handle_player_death_event(triggers: &Vec<PlayerDeathEvent>, players: &mut PlayerRegistry) -> (events:
    Vec<PlayerEvent>)
    requires
        old(players).wf(),
    ensures
        final(players).wf(),
        final(players).rules() == old(players).rules(),
        final(players).player_count() == old(players).player_count(),
        final(players)@ == after_deaths(old(players).rules(), old(players)@, triggers@),
        events@ == death_notices(old(players).rules(), old(players)@, triggers@),
{
    let ghost rules = players.rules();
    let ghost before = players@;
    let mut events: Vec<PlayerEvent> = Vec::new();
    let mut j: usize = 0;
    assert(triggers@.take(0) =~= Seq::<PlayerDeathEvent>::empty());
    while j < triggers.len()
        invariant
            players.wf(),
            players.rules() == rules,
            rules == old(players).rules(),
            before == old(players)@,
            players.player_count() == old(players).player_count(),
            j <= triggers@.len(),
            players@ == after_deaths(rules, before, triggers@.take(j as int)),
            events@ == death_notices(rules, before, triggers@.take(j as int)),
        decreases triggers@.len() - j,
    {
        assert(triggers@.take(j + 1).drop_last() =~= triggers@.take(j as int));
        let index = triggers[j].0;
        let outcome = players.handle_death(index);
        push_death_events(&mut events, index, outcome);
        j = j + 1;
    }
    assert(triggers@.take(triggers@.len() as int) =~= triggers@);
    events
}

} // verus!
