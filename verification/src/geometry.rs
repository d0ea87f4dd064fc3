//! Fixed-point planar vectors, integer square roots and the arena rectangle.
//!
//! Every length, position, velocity and stick deflection in the crate is an
//! integer number of thousandths: a stick pushed fully to the right reads
//! `1000`, one pixel is `1000`.

use vstd::prelude::*;

verus! {

/// One unit (one pixel, one point of speed, a full stick deflection) in
/// the thousandths in which the crate counts.
pub const UNIT: i32 = 1000;

/// A planar vector whose components are thousandths of a unit.
#[derive(Clone, Copy, Debug, PartialEq, Eq, Structural)]
pub struct Vec2 {
    pub x: i32,
    pub y: i32,
}

/// The rectangle in which the simulation takes place, centred on the origin.
#[derive(Clone, Copy, Debug, PartialEq, Eq, Structural)]
pub struct ArenaBounds {
    pub half_width: i32,
    pub half_height: i32,
}

/// Absolute value of a mathematical integer.
pub open spec fn abs(v: int) -> int {
    if v < 0 {
        -v
    } else {
        v
    }
}

/// The value of `i32` nearest to `v`.
pub open spec fn saturate(v: int) -> int {
    if v < i32::MIN {
        i32::MIN as int
    } else if v > i32::MAX {
        i32::MAX as int
    } else {
        v
    }
}

/// Squared Euclidean length of the vector `(x, y)`.
pub open spec fn norm2(x: int, y: int) -> int {
    x * x + y * y
}

/// `r` is the square root of `n`, rounded down.
pub open spec fn is_floor_sqrt(n: int, r: int) -> bool {
    0 <= r && r * r <= n < (r + 1) * (r + 1)
}

/// The square root of `n`, rounded down.
pub open spec fn floor_sqrt(n: int) -> int {
    choose|r: int| is_floor_sqrt(n, r)
}

/// `c * speed / len`, rounded toward zero: one component of a direction of
/// length `len` rescaled to length `speed`.
pub open spec fn rescale(c: int, speed: int, len: int) -> int {
    if c >= 0 {
        (c * speed) / len
    } else {
        -(((-c) * speed) / len)
    }
}

/// Squares are monotone on the naturals.
pub proof fn lemma_square_monotone(a: int, b: int)
    requires
        0 <= a <= b,
    ensures
        a * a <= b * b,
{
    assert(a * a <= b * b) by (nonlinear_arith)
        requires
            0 <= a <= b,
    ;
}

/// A natural whose square is below the square of `b` is itself below `b`.
pub proof fn lemma_square_strict(a: int, b: int)
    requires
        0 <= a,
        0 <= b,
        a * a < b * b,
    ensures
        a < b,
{
    if a >= b {
        lemma_square_monotone(b, a);
    }
}

/// A number has at most one rounded-down square root, and `floor_sqrt` is it.
pub proof fn lemma_floor_sqrt(n: int, r: int)
    requires
        is_floor_sqrt(n, r),
    ensures
        floor_sqrt(n) == r,
{
    let s = floor_sqrt(n);
    assert(is_floor_sqrt(n, s));
    if s < r {
        lemma_square_monotone(s + 1, r);
    } else if r < s {
        lemma_square_monotone(r + 1, s);
    }
}

/// A component of a vector is no longer than the vector.
pub proof fn lemma_component_bound(x: int, y: int, len: int)
    requires
        is_floor_sqrt(norm2(x, y), len),
    ensures
        abs(x) <= len,
        abs(y) <= len,
{
    assert(abs(x) * abs(x) == x * x && abs(y) * abs(y) == y * y) by (nonlinear_arith);
    assert(0 <= x * x && 0 <= y * y) by (nonlinear_arith);
    lemma_square_strict(abs(x), len + 1);
    lemma_square_strict(abs(y), len + 1);
}

/// Rescaling a component that is no longer than `len` gives one that is no
/// longer than `speed`.
pub proof fn lemma_rescale_bound(c: int, speed: int, len: int)
    requires
        abs(c) <= len,
        0 < len,
        0 <= speed,
    ensures
        abs(rescale(c, speed, len)) <= speed,
        c >= 0 ==> rescale(c, speed, len) >= 0,
        c <= 0 ==> rescale(c, speed, len) <= 0,
{
    let a = abs(c);
    assert(0 <= (a * speed) / len <= speed) by (nonlinear_arith)
        requires
            0 <= a <= len,
            0 < len,
            0 <= speed,
    ;
    assert((0 * speed) / len == 0) by (nonlinear_arith)
        requires
            0 < len,
    ;
}

/// Narrows `v` to `i32`, stopping at the ends of the range.
pub fn saturate_i64(v: i64) -> (r: i32)
    ensures
        r == saturate(v as int),
{
    if v < -2147483648i64 {
        -2147483648i32
    } else if v > 2147483647i64 {
        2147483647i32
    } else {
        v as i32
    }
}

/// Magnitude of `v` as a 64-bit value.
pub fn abs_i32(v: i32) -> (r: i64)
    ensures
        r == abs(v as int),
{
    if v < 0 {
        -(v as i64)
    } else {
        v as i64
    }
}

/// Square root of `n`, rounded down.
pub fn isqrt(n: u64) -> (r: u64)
    ensures
        is_floor_sqrt(n as int, r as int),
        r == floor_sqrt(n as int),
        r < 0x1_0000_0000,
{
    let mut lo: u64 = 0;
    let mut hi: u64 = 0x1_0000_0000;
    assert(n < hi * hi) by (nonlinear_arith)
        requires
            n <= 0xffff_ffff_ffff_ffff,
            hi == 0x1_0000_0000,
    ;
    while hi - lo > 1
        invariant
            lo < hi <= 0x1_0000_0000,
            lo * lo <= n < hi * hi,
        decreases hi - lo,
    {
        let mid: u64 = lo + (hi - lo) / 2;
        assert(mid * mid <= 0xffff_ffff * 0xffff_ffff) by (nonlinear_arith)
            requires
                0 <= mid <= 0xffff_ffff,
        ;
        if mid * mid <= n {
            lo = mid;
        } else {
            hi = mid;
        }
    }
    proof {
        lemma_floor_sqrt(n as int, lo as int);
    }
    lo
}

/// One component of a direction of length `len` rescaled to length `speed`.
pub fn rescale_component(c: i32, speed: i32, len: u64) -> (r: i32)
    requires
        abs(c as int) <= len,
        0 < len < 0x1_0000_0000,
        0 <= speed,
    ensures
        r == rescale(c as int, speed as int, len as int),
{
    proof {
        lemma_rescale_bound(c as int, speed as int, len as int);
    }
    let a: i64 = abs_i32(c);
    assert(0 <= a * speed <= 0x8000_0000 * 0x7fff_ffff) by (nonlinear_arith)
        requires
            0 <= a <= 0x8000_0000,
            0 <= speed <= 0x7fff_ffff,
    ;
    let q: i64 = (a * speed as i64) / (len as i64);
    if c >= 0 {
        q as i32
    } else {
        (-q) as i32
    }
}

impl Vec2 {
    /// The zero vector.
    pub open spec fn origin() -> Vec2 {
        Vec2 { x: 0, y: 0 }
    }

    /// The zero vector.
    pub fn zero() -> (v: Vec2)
        ensures
            v == Vec2::origin(),
    {
        Vec2 { x: 0, y: 0 }
    }

    /// Squared length of the vector.
    pub open spec fn length_squared_spec(self) -> int {
        norm2(self.x as int, self.y as int)
    }

    /// Squared length of the vector.
    pub fn length_squared(&self) -> (r: u64)
        ensures
            r == self.length_squared_spec(),
    {
        let ax: u64 = abs_i32(self.x) as u64;
        let ay: u64 = abs_i32(self.y) as u64;
        assert(ax * ax <= 0x8000_0000 * 0x8000_0000 && ax * ax == self.x * self.x) by (nonlinear_arith)
            requires
                ax == abs(self.x as int),
                0 <= ax <= 0x8000_0000,
        ;
        assert(ay * ay <= 0x8000_0000 * 0x8000_0000 && ay * ay == self.y * self.y) by (nonlinear_arith)
            requires
                ay == abs(self.y as int),
                0 <= ay <= 0x8000_0000,
        ;
        ax * ax + ay * ay
    }
}

impl ArenaBounds {
    /// A position is outside when it is farther from the centre than the
    /// half extent on either axis. Points on the border are inside.
    pub open spec fn outside(self, p: Vec2) -> bool {
        abs(p.x as int) > self.half_width || abs(p.y as int) > self.half_height
    }

    /// Whether `p` lies outside the arena.
    pub fn is_outside(&self, p: Vec2) -> (r: bool)
        ensures
            r == self.outside(p),
    {
        abs_i32(p.x) > self.half_width as i64 || abs_i32(p.y) > self.half_height as i64
    }
}

} // verus!
