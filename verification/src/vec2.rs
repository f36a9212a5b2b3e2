//! Saturating fixed-point plane vectors.
//!
//! All world coordinates are `i64` fixed-point values; the unit scale is the
//! caller's choice. Arithmetic saturates at the ends of the `i64` range, so
//! every operation is total: a huge time delta produces a clamped value, not
//! a panic (simulation instability is an accepted numerical edge case).

use vstd::prelude::*;

verus! {

/// Clamp an unbounded integer into the representable coordinate range.
pub open spec fn sat(v: int) -> int {
    if v < i64::MIN as int {
        i64::MIN as int
    } else if v > i64::MAX as int {
        i64::MAX as int
    } else {
        v
    }
}

/// A plane vector; `y` grows downward, as in screen coordinates.
#[derive(Clone, Copy, PartialEq, Eq, Structural, Debug)]
pub struct Vec2 {
    pub x: i64,
    pub y: i64,
}

/// Componentwise saturating sum.
pub open spec fn v_add(a: Vec2, b: Vec2) -> Vec2 {
    Vec2 { x: sat(a.x + b.x) as i64, y: sat(a.y + b.y) as i64 }
}

/// Componentwise saturating scaling by an integer factor.
pub open spec fn v_scale(a: Vec2, k: int) -> Vec2 {
    Vec2 { x: sat(a.x * k) as i64, y: sat(a.y * k) as i64 }
}

/// Saturating `i64` addition.
pub fn sat_add(a: i64, b: i64) -> (r: i64)
    ensures
        r == sat(a + b),
{
    if b >= 0 {
        if a > i64::MAX - b {
            i64::MAX
        } else {
            a + b
        }
    } else {
        if a < i64::MIN - b {
            i64::MIN
        } else {
            a + b
        }
    }
}

/// Saturating `i64` subtraction.
pub fn sat_sub(a: i64, b: i64) -> (r: i64)
    ensures
        r == sat(a - b),
{
    if b >= 0 {
        if a < i64::MIN + b {
            i64::MIN
        } else {
            a - b
        }
    } else {
        if a > i64::MAX + b {
            i64::MAX
        } else {
            a - b
        }
    }
}

/// Saturating `i64` multiplication, computed without loss in `i128`.
pub fn sat_mul(a: i64, b: i64) -> (r: i64)
    ensures
        r == sat(a * b),
{
    proof {
        lemma_i64_product_in_i128(a as int, b as int);
    }
    let p: i128 = (a as i128) * (b as i128);
    if p > i64::MAX as i128 {
        i64::MAX
    } else if p < i64::MIN as i128 {
        i64::MIN
    } else {
        p as i64
    }
}

/// The product of two `i64` values always fits in an `i128`.
proof fn lemma_i64_product_in_i128(a: int, b: int)
    requires
        i64::MIN as int <= a <= i64::MAX as int,
        i64::MIN as int <= b <= i64::MAX as int,
    ensures
        i128::MIN as int <= a * b <= i128::MAX as int,
{
    assert(i128::MIN as int <= a * b <= i128::MAX as int) by (nonlinear_arith)
        requires
            -0x8000_0000_0000_0000 <= a <= 0x7fff_ffff_ffff_ffff,
            -0x8000_0000_0000_0000 <= b <= 0x7fff_ffff_ffff_ffff,
    ;
}

impl Vec2 {
    /// The zero vector.
    pub fn zero() -> (r: Vec2)
        ensures
            r == (Vec2 { x: 0i64, y: 0i64 }),
    {
        Vec2 { x: 0, y: 0 }
    }

    /// Saturating vector sum.
    pub fn add(self, o: Vec2) -> (r: Vec2)
        ensures
            r == v_add(self, o),
    {
        Vec2 { x: sat_add(self.x, o.x), y: sat_add(self.y, o.y) }
    }

    /// Saturating scaling by an integer factor.
    pub fn scale(self, k: i64) -> (r: Vec2)
        ensures
            r == v_scale(self, k as int),
    {
        Vec2 { x: sat_mul(self.x, k), y: sat_mul(self.y, k) }
    }
}

} // verus!
