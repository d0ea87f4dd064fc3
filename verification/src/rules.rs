//! The tunable constants of a match.

use crate::geometry::Vec2;
use vstd::prelude::*;

verus! {

/// Health of a player at the start of each life.
pub const MAX_HEALTH: i32 = 20;

/// Lives of a player when it joins.
pub const MAX_LIVES: u32 = 2;

/// Jumps a player can make before touching something again.
pub const MAX_JUMPS: u32 = 2;

/// Damage dealt by one projectile hit.
pub const HIT_DAMAGE: u32 = 10;

/// Upward speed given by a jump.
pub const JUMP_SPEED: i32 = 400_000;

/// Aim deflection at or below which a shot is not fired.
pub const DEAD_ZONE: i32 = 500;

/// Speed of a projectile.
pub const PROJECTILE_SPEED: i32 = 1_000_000;

/// A projectile appears this many stick deflections away from its owner.
pub const MUZZLE_OFFSET: i32 = 20;

/// Horizontal distance covered per tick at full stick deflection, in units.
pub const TIME_STEP: i32 = 3;

/// The constants that govern a match.
#[derive(Clone, Copy, Debug, PartialEq, Eq, Structural)]
pub struct Rules {
    /// Health at the start of each life.
    pub max_health: i32,
    /// Lives at spawn.
    pub max_lives: u32,
    /// Jumps available after a contact.
    pub max_jumps: u32,
    /// Damage of one projectile hit.
    pub hit_damage: u32,
    /// Upward speed given by a jump.
    pub jump_speed: i32,
    /// Aim deflection at or below which a shot is not fired.
    pub dead_zone: i32,
    /// Speed of a projectile.
    pub projectile_speed: i32,
    /// Multiplier from aim deflection to the distance at which a projectile appears.
    pub muzzle_offset: i32,
    /// Whether a projectile that touches terrain is removed.
    pub despawn_on_terrain: bool,
    /// Where players appear and reappear.
    pub spawn_origin: Vec2,
}

impl Rules {
    /// The values a registry accepts: at least one point of health and one
    /// life, and no negative dead zone or projectile speed.
    pub open spec fn wf(self) -> bool {
        &&& 1 <= self.max_health
        &&& 1 <= self.max_lives
        &&& 0 <= self.dead_zone
        &&& 0 <= self.projectile_speed
    }

    /// The rules of a standard match.
    pub open spec fn standard() -> Rules {
        Rules {
            max_health: MAX_HEALTH,
            max_lives: MAX_LIVES,
            max_jumps: MAX_JUMPS,
            hit_damage: HIT_DAMAGE,
            jump_speed: JUMP_SPEED,
            dead_zone: DEAD_ZONE,
            projectile_speed: PROJECTILE_SPEED,
            muzzle_offset: MUZZLE_OFFSET,
            despawn_on_terrain: false,
            spawn_origin: Vec2::origin(),
        }
    }

    /// Whether the rules are acceptable to a registry.
    pub fn is_valid(&self) -> (r: bool)
        ensures
            r == self.wf(),
    {
        1 <= self.max_health && 1 <= self.max_lives && 0 <= self.dead_zone && 0
            <= self.projectile_speed
    }
}

impl Default for Rules {
    fn default() -> (r: Rules)
        ensures
            r == Rules::standard(),
            r.wf(),
    {
        Rules {
            max_health: MAX_HEALTH,
            max_lives: MAX_LIVES,
            max_jumps: MAX_JUMPS,
            hit_damage: HIT_DAMAGE,
            jump_speed: JUMP_SPEED,
            dead_zone: DEAD_ZONE,
            projectile_speed: PROJECTILE_SPEED,
            muzzle_offset: MUZZLE_OFFSET,
            despawn_on_terrain: false,
            spawn_origin: Vec2::zero(),
        }
    }
}

} // verus!
