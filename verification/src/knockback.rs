//! The knockback resolver: how hard and in which direction a hit pushes a
//! player.

use crate::geometry::{abs, lemma_square_monotone, saturate, Vec2, UNIT};
use crate::player::DamageTaken;
use vstd::prelude::*;

verus! {

/// The axis along which a hit pushes.
#[derive(Clone, Copy, Debug, PartialEq, Eq, Structural)]
pub enum KnockAxis {
    Horizontal,
    Vertical,
}

/// The strength of the push after `damage` has accumulated: the square of
/// the damage in whole units, which is `UNIT` times the square in the
/// thousandths that a velocity counts, as far as a velocity component can
/// hold it.
pub open spec fn knockback_magnitude(damage: DamageTaken) -> int {
    saturate(damage.0 * damage.0 * UNIT)
}

/// The push after `damage` has accumulated, along `axis`, toward the
/// positive end of the axis or the negative one.
pub open spec fn knockback_spec(damage: DamageTaken, axis: KnockAxis, positive: bool) -> Vec2 {
    let signed = if positive {
        knockback_magnitude(damage)
    } else {
        -knockback_magnitude(damage)
    };
    match axis {
        KnockAxis::Horizontal => Vec2 { x: signed as i32, y: 0 },
        KnockAxis::Vertical => Vec2 { x: 0, y: signed as i32 },
    }
}

/// The axis and direction that lead from `contact` away to `player`: the
/// axis along which the two are farther apart (the horizontal one when they
/// are equally far), and whether the player is on its positive side.
pub open spec fn contact_axis_spec(player: Vec2, contact: Vec2) -> (KnockAxis, bool) {
    let dx = player.x - contact.x;
    let dy = player.y - contact.y;
    if abs(dx) >= abs(dy) {
        (KnockAxis::Horizontal, dx >= 0)
    } else {
        (KnockAxis::Vertical, dy >= 0)
    }
}

/// The push grows, or stays, as damage accumulates.
pub proof fn lemma_knockback_monotone(less: DamageTaken, more: DamageTaken)
    requires
        less.0 <= more.0,
    ensures
        0 <= knockback_magnitude(less) <= knockback_magnitude(more),
{
    lemma_square_monotone(less.0 as int, more.0 as int);
    lemma_square_monotone(0, less.0 as int);
    let a = less.0 * less.0;
    let b = more.0 * more.0;
    assert(0 <= a * UNIT <= b * UNIT) by (nonlinear_arith)
        requires
            0 <= a <= b,
            UNIT == 1000,
    ;
}

/// The velocity that a hit gives to a player whose damage has accumulated
/// to `damage` (the hit included): of magnitude `damage` squared units,
/// along `axis`, in the positive direction or the negative one.
pub fn knockback(damage: DamageTaken, axis: KnockAxis, positive: bool) -> (v: Vec2)
    ensures
        v == knockback_spec(damage, axis, positive),
{
    let d: u64 = damage.0 as u64;
    assert(d * d <= 0xffff_ffff * 0xffff_ffff) by (nonlinear_arith)
        requires
            0 <= d <= 0xffff_ffff,
    ;
    let square: u64 = d * d;
    // Beyond this square the product with `UNIT` no longer fits.
    let magnitude: i32 = if square > 2_147_483u64 {
        2147483647i32
    } else {
        (square * 1000) as i32
    };
    let signed: i32 = if positive {
        magnitude
    } else {
        -magnitude
    };
    match axis {
        KnockAxis::Horizontal => Vec2 { x: signed, y: 0 },
        KnockAxis::Vertical => Vec2 { x: 0, y: signed },
    }
}

/// The axis and direction that lead from `contact` away to `player`.
pub fn contact_axis(player: Vec2, contact: Vec2) -> (r: (KnockAxis, bool))
    ensures
        r == contact_axis_spec(player, contact),
{
    let dx: i64 = player.x as i64 - contact.x as i64;
    let dy: i64 = player.y as i64 - contact.y as i64;
    let ax: i64 = if dx < 0 { -dx } else { dx };
    let ay: i64 = if dy < 0 { -dy } else { dy };
    if ax >= ay {
        (KnockAxis::Horizontal, dx >= 0)
    } else {
        (KnockAxis::Vertical, dy >= 0)
    }
}

} // verus!
