//! Projectiles: their records and the registry that spawns and removes them.

use crate::geometry::{
    floor_sqrt, isqrt, lemma_component_bound, norm2, rescale, rescale_component, saturate,
    saturate_i64, ArenaBounds, Vec2,
};
use crate::player::PlayerIndex;
use crate::rules::Rules;
use crate::table::{sorted_keys, Table};
use vstd::prelude::*;

verus! {

/// Everything the simulation keeps about one projectile.
#[derive(Clone, Copy, Debug, PartialEq, Eq)]
pub struct ProjectileBundle {
    /// The identity of the projectile: assigned in rising order, never reused.
    pub id: u64,
    pub position: Vec2,
    pub velocity: Vec2,
    /// The player that fired it, where one did.
    pub owner: Option<PlayerIndex>,
}

/// Whether an aim deflection of `direction` is far enough from the centre
/// of the stick to fire: its length exceeds the dead zone.
pub open spec fn aimed(rules: Rules, direction: Vec2) -> bool {
    norm2(direction.x as int, direction.y as int) > rules.dead_zone * rules.dead_zone
}

/// The velocity of a projectile fired along `direction`: the direction
/// rescaled to the projectile speed, each component rounded toward zero.
pub open spec fn muzzle_velocity(rules: Rules, direction: Vec2) -> Vec2 {
    let len = floor_sqrt(norm2(direction.x as int, direction.y as int));
    Vec2 {
        x: rescale(direction.x as int, rules.projectile_speed as int, len) as i32,
        y: rescale(direction.y as int, rules.projectile_speed as int, len) as i32,
    }
}

/// Where a projectile fired from `origin` along `direction` appears: the
/// muzzle offset times the deflection away from the origin.
pub open spec fn muzzle_position(rules: Rules, origin: Vec2, direction: Vec2) -> Vec2 {
    Vec2 {
        x: saturate(origin.x + direction.x * rules.muzzle_offset) as i32,
        y: saturate(origin.y + direction.y * rules.muzzle_offset) as i32,
    }
}

impl ProjectileBundle {
    /// The record of a projectile that has just been fired.
    pub open spec fn launched(
        rules: Rules,
        id: u64,
        origin: Vec2,
        direction: Vec2,
        owner: Option<PlayerIndex>,
    ) -> ProjectileBundle {
        ProjectileBundle {
            id,
            position: muzzle_position(rules, origin, direction),
            velocity: muzzle_velocity(rules, direction),
            owner,
        }
    }
}

impl Default for ProjectileBundle {
    /// A projectile at rest in the centre of the arena, fired by nobody.
    fn default() -> (p: ProjectileBundle)
        ensures
            p == (ProjectileBundle { id: 0, position: Vec2::origin(), velocity: Vec2::origin(), owner: None }),
    {
        ProjectileBundle { id: 0, position: Vec2::zero(), velocity: Vec2::zero(), owner: None }
    }
}

/// What a registry maintains of its records: each is stored under its own
/// id, which is below the next id to hand out.
pub open spec fn valid_projectiles(next_id: u64, m: Map<u64, ProjectileBundle>) -> bool {
    forall|k: u64| #[trigger] m.dom().contains(k) ==> m[k].id == k && k < next_id
}

/// Whether the projectile `k` of `m` is outside `bounds`.
pub open spec fn stray(bounds: ArenaBounds, m: Map<u64, ProjectileBundle>) -> spec_fn(u64) -> bool {
    |k: u64| m.dom().contains(k) && bounds.outside(m[k].position)
}

/// The projectiles of `m` that are not outside `bounds`.
pub open spec fn contained(bounds: ArenaBounds, m: Map<u64, ProjectileBundle>) -> Map<
    u64,
    ProjectileBundle,
> {
    Map::new(|k: u64| m.dom().contains(k) && !bounds.outside(m[k].position), |k: u64| m[k])
}

/// The registry of projectiles.
pub struct ProjectileRegistry {
    rules: Rules,
    next_id: u64,
    table: Table<ProjectileBundle>,
}

impl ProjectileRegistry {
    /// The projectiles, by id.
    pub closed spec fn view(&self) -> Map<u64, ProjectileBundle> {
        self.table@
    }

    /// The ids of the projectiles, ascending.
    pub closed spec fn ids(&self) -> Seq<u64> {
        self.table.keys()
    }

    /// The rules the registry was made with.
    pub closed spec fn spec_rules(&self) -> Rules {
        self.rules
    }

    /// The id that the next projectile gets.
    pub closed spec fn spec_next_id(&self) -> u64 {
        self.next_id
    }

    /// The storage is in order.
    pub closed spec fn stored(&self) -> bool {
        self.table.wf()
    }

    /// The invariant of the registry.
    pub open spec fn wf(&self) -> bool {
        &&& self.stored()
        &&& self.rules().wf()
        &&& valid_projectiles(self.next_id(), self@)
    }

    /// A shot along `direction` is fired when the aim is outside the dead
    /// zone and an id is left to give.
    pub open spec fn can_spawn(&self, direction: Vec2) -> bool {
        aimed(self.rules(), direction) && self.next_id() < u64::MAX
    }

    /// `ids()` lists the projectiles exactly once, in ascending order.
    pub proof fn lemma_ids(&self)
        requires
            self.wf(),
        ensures
            forall|i: int, j: int|
                0 <= i < j < self.ids().len() ==> #[trigger] self.ids()[i] < #[trigger] self.ids()[j],
            forall|i: int| 0 <= i < self.ids().len() ==> self@.dom().contains(#[trigger] self.ids()[i]),
            forall|k: u64| #[trigger] self@.dom().contains(k) ==> self.ids().contains(k),
            self.ids() == sorted_keys(self@.dom()),
    {
        self.table.lemma_keys();
    }

    /// An empty registry under `rules`, or nothing where the rules are not valid.
    pub fn new(rules: Rules) -> (r: Option<ProjectileRegistry>)
        ensures
            r.is_some() == rules.wf(),
            r matches Some(reg) ==> reg.wf() && reg.rules() == rules && reg.next_id() == 0 && reg@
                == Map::<u64, ProjectileBundle>::empty(),
    {
        if rules.is_valid() {
            Some(ProjectileRegistry { rules, next_id: 0, table: Table::new() })
        } else {
            None
        }
    }

    /// The rules the registry was made with.
    #[verifier::when_used_as_spec(spec_rules)]
    pub fn rules(&self) -> (r: Rules)
        ensures
            r == self.rules(),
    {
        self.rules
    }

    /// The id that the next projectile gets.
    #[verifier::when_used_as_spec(spec_next_id)]
    pub fn next_id(&self) -> (id: u64)
        ensures
            id == self.next_id(),
    {
        self.next_id
    }

    /// Number of projectiles in the registry.
    pub fn len(&self) -> (n: usize)
        ensures
            n == self.ids().len(),
            self.wf() ==> n == sorted_keys(self@.dom()).len(),
    {
        proof {
            if self.wf() {
                self.lemma_ids();
            }
        }
        self.table.len()
    }

    /// The ids of the projectiles, ascending.
    pub fn id_list(&self) -> (list: Vec<u64>)
        requires
            self.wf(),
        ensures
            list@ == self.ids(),
            list@ == sorted_keys(self@.dom()),
    {
        proof {
            self.lemma_ids();
        }
        let n = self.table.len();
        let mut list: Vec<u64> = Vec::new();
        let mut i: usize = 0;
        while i < n
            invariant
                n == self.ids().len(),
                i <= n,
                list@ == self.ids().take(i as int),
            decreases n - i,
        {
            list.push(self.table.key_at(i));
            assert(list@ =~= self.ids().take(i + 1));
            i = i + 1;
        }
        assert(self.ids().take(n as int) =~= self.ids());
        list
    }

    /// Whether `id` is in the registry.
    pub fn contains(&self, id: u64) -> (r: bool)
        requires
            self.wf(),
        ensures
            r == self@.dom().contains(id),
    {
        self.table.contains_key(id)
    }

    /// The record of `id`, where it is in the registry.
    pub fn get(&self, id: u64) -> (r: Option<ProjectileBundle>)
        requires
            self.wf(),
        ensures
            r == (if self@.dom().contains(id) {
                Some(self@[id])
            } else {
                None
            }),
    {
        match self.table.get(id) {
            Some(p) => Some(*p),
            None => None,
        }
    }

    /// Fires a projectile from `origin` along `direction`. A deflection
    /// inside the dead zone is rejected and nothing changes. Otherwise the
    /// projectile gets the next id, appears offset from the origin along
    /// the direction, and flies along it at the projectile speed. Returns
    /// the id of the new projectile.
    pub fn spawn(&mut self, origin: Vec2, direction: Vec2, owner: Option<PlayerIndex>) -> (r: Option<
        u64,
    >)
        requires
            old(self).wf(),
        ensures
            final(self).wf(),
            final(self).rules() == old(self).rules(),
            r.is_some() == old(self).can_spawn(direction),
            r matches Some(id) ==> id == old(self).next_id() && final(self).next_id() == id + 1
                && final(self)@ == old(self)@.insert(
                id,
                ProjectileBundle::launched(old(self).rules(), id, origin, direction, owner),
            ),
            r is None ==> final(self)@ == old(self)@ && final(self).next_id() == old(self).next_id(),
    {
        let m = direction.length_squared();
        let zone: u64 = self.rules.dead_zone as u64;
        assert(zone * zone <= 0x7fff_ffff * 0x7fff_ffff) by (nonlinear_arith)
            requires
                0 <= zone <= 0x7fff_ffff,
        ;
        if m <= zone * zone || self.next_id == u64::MAX {
            return None;
        }
        let len = isqrt(m);
        proof {
            lemma_component_bound(direction.x as int, direction.y as int, len as int);
        }
        let velocity = Vec2 {
            x: rescale_component(direction.x, self.rules.projectile_speed, len),
            y: rescale_component(direction.y, self.rules.projectile_speed, len),
        };
        assert(-0x8000_0000 * 0x8000_0000 <= direction.x * self.rules.muzzle_offset <= 0x8000_0000
            * 0x8000_0000) by (nonlinear_arith)
            requires
                -0x8000_0000 <= direction.x <= 0x7fff_ffff,
                -0x8000_0000 <= self.rules.muzzle_offset <= 0x7fff_ffff,
        ;
        assert(-0x8000_0000 * 0x8000_0000 <= direction.y * self.rules.muzzle_offset <= 0x8000_0000
            * 0x8000_0000) by (nonlinear_arith)
            requires
                -0x8000_0000 <= direction.y <= 0x7fff_ffff,
                -0x8000_0000 <= self.rules.muzzle_offset <= 0x7fff_ffff,
        ;
        let position = Vec2 {
            x: saturate_i64(origin.x as i64 + direction.x as i64 * self.rules.muzzle_offset as i64),
            y: saturate_i64(origin.y as i64 + direction.y as i64 * self.rules.muzzle_offset as i64),
        };
        let id = self.next_id;
        self.table.insert(id, ProjectileBundle { id, position, velocity, owner });
        self.next_id = id + 1;
        Some(id)
    }

    /// Removes `id` where it is in the registry. A second call for the same
    /// id finds nothing to remove and changes nothing.
    pub fn despawn(&mut self, id: u64) -> (removed: bool)
        requires
            old(self).wf(),
        ensures
            final(self).wf(),
            final(self).rules() == old(self).rules(),
            final(self).next_id() == old(self).next_id(),
            final(self)@ == old(self)@.remove(id),
            removed == old(self)@.dom().contains(id),
    {
        self.table.remove(id).is_some()
    }

    /// Records where the physics has moved `id` to. Returns whether the
    /// projectile is known.
    pub fn set_position(&mut self, id: u64, position: Vec2) -> (known: bool)
        requires
            old(self).wf(),
        ensures
            final(self).wf(),
            final(self).rules() == old(self).rules(),
            final(self).next_id() == old(self).next_id(),
            known == old(self)@.dom().contains(id),
            final(self)@ == (if known {
                old(self)@.insert(id, ProjectileBundle { position, ..old(self)@[id] })
            } else {
                old(self)@
            }),
    {
        let p = match self.table.get(id) {
            Some(p) => *p,
            None => {
                return false;
            },
        };
        self.table.insert(id, ProjectileBundle { position, ..p });
        true
    }

    /// The bounds check for projectiles: every projectile whose position is
    /// outside the arena is removed. Returns the removed ids, ascending.
    pub fn tick_bounds_check(&mut self, bounds: &ArenaBounds) -> (removed: Vec<u64>)
        requires
            old(self).wf(),
        ensures
            final(self).wf(),
            final(self).rules() == old(self).rules(),
            final(self).next_id() == old(self).next_id(),
            final(self)@ == contained(*bounds, old(self)@),
            removed@ == sorted_keys(old(self)@.dom()).filter(stray(*bounds, old(self)@)),
    {
        let list = self.id_list();
        let n = list.len();
        let ghost keys = self.ids();
        let ghost before = self@;
        let mut removed: Vec<u64> = Vec::new();
        let mut j: usize = 0;
        proof {
            self.lemma_ids();
            reveal(Seq::filter);
        }
        assert(keys.take(0).filter(stray(*bounds, before)) =~= Seq::<u64>::empty());
        while j < n
            invariant
                self.wf(),
                self.rules() == old(self).rules(),
                self.next_id() == old(self).next_id(),
                keys == old(self).ids(),
                before == old(self)@,
                list@ == keys,
                n == keys.len(),
                j <= n,
                forall|a: int, b: int| 0 <= a < b < n ==> #[trigger] keys[a] < #[trigger] keys[b],
                forall|t: int| 0 <= t < n ==> before.dom().contains(#[trigger] keys[t]),
                forall|k: u64| #[trigger] self@.dom().contains(k) ==> before.dom().contains(k),
                forall|t: int|
                    0 <= t < n ==> (if t < j {
                        self@.dom().contains(#[trigger] keys[t]) == !bounds.outside(
                            before[keys[t]].position,
                        )
                    } else {
                        self@.dom().contains(keys[t])
                    }),
                forall|k: u64| #[trigger] self@.dom().contains(k) ==> self@[k] == before[k],
                removed@ == keys.take(j as int).filter(stray(*bounds, before)),
            decreases n - j,
        {
            let id = list[j];
            let ghost mid = self@;
            let p = self.get(id);
            proof {
                assert(keys.take(j + 1) =~= keys.take(j as int).push(id));
                keys.take(j as int).lemma_filter_push(id, stray(*bounds, before));
            }
            let outside = match p {
                Some(p) => bounds.is_outside(p.position),
                None => false,
            };
            if outside {
                self.despawn(id);
                removed.push(id);
            }
            assert forall|t: int| 0 <= t < n implies (if t < j + 1 {
                self@.dom().contains(#[trigger] keys[t]) == !bounds.outside(before[keys[t]].position)
            } else {
                self@.dom().contains(keys[t])
            }) by {
                if t != j {
                    assert(keys[t] != id);
                    assert(mid.dom().contains(keys[t]) == self@.dom().contains(keys[t]));
                }
            }
            j = j + 1;
        }
        proof {
            assert(keys.take(n as int) =~= keys);
            let goal = contained(*bounds, before);
            assert forall|k: u64| self@.dom().contains(k) <==> goal.dom().contains(k) by {
                if before.dom().contains(k) {
                    let t = choose|t: int| 0 <= t < keys.len() && keys[t] == k;
                    assert(self@.dom().contains(keys[t]) == !bounds.outside(before[keys[t]].position));
                }
            }
            assert(self@ =~= goal);
        }
        removed
    }
}

/// The bounds check for projectiles, as a system: removes every projectile
/// outside `bounds` and returns the removed ids, ascending.
pub fn clean_up_offscreen_projectiles(bounds: &ArenaBounds, projectiles: &mut ProjectileRegistry) -> (removed:
    Vec<u64>)
    requires
        old(projectiles).wf(),
    ensures
        final(projectiles).wf(),
        final(projectiles).rules() == old(projectiles).rules(),
        final(projectiles).next_id() == old(projectiles).next_id(),
        final(projectiles)@ == contained(*bounds, old(projectiles)@),
        removed@ == sorted_keys(old(projectiles)@.dom()).filter(stray(*bounds, old(projectiles)@)),
{
    projectiles.tick_bounds_check(bounds)
}

} // verus!
