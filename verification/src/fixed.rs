//! Exact fixed-point scalar arithmetic.
//!
//! Scalars are `i64` values interpreted as multiples of `1 / FP_ONE`.  All
//! operations are exact integer computations with floor rounding, so every
//! result is a pure function of its inputs and chunk generation is
//! bit-reproducible across runs and machines.

use vstd::prelude::*;

verus! {

/// Number of fixed-point steps per whole unit.
pub const FP_ONE: i64 = 1024;

/// Floor division of `a` by a positive divisor `b`.
///
/// In specifications `/` on `int` is Euclidean division, which coincides
/// with floor division whenever the divisor is positive.
pub open spec fn fdiv(a: int, b: int) -> int {
    a / b
}

/// `a * b` scaled back down by `FP_ONE`, the fixed-point product.
pub open spec fn spec_fp_mul(a: int, b: int) -> int {
    fdiv(a * b, FP_ONE as int)
}

/// Clamp `v` into the interval `[lo, hi]`.
pub open spec fn spec_clamp(v: int, lo: int, hi: int) -> int {
    if v < lo {
        lo
    } else if v > hi {
        hi
    } else {
        v
    }
}

/// The smoothstep fade `3t^2 - 2t^3` over fixed-point `t` in `[0, FP_ONE]`.
pub open spec fn spec_fade(t: int) -> int {
    fdiv(t * t * (3 * FP_ONE - 2 * t), FP_ONE as int * FP_ONE as int)
}

/// Linear interpolation from `a` to `b` by fixed-point weight `w` in `[0, FP_ONE]`.
pub open spec fn spec_lerp(a: int, b: int, w: int) -> int {
    a + fdiv((b - a) * w, FP_ONE as int)
}

/// Floor division, executable; divisor must be positive.
pub fn div_floor(a: i64, b: i64) -> (r: i64)
    requires
        b > 0,
        a > i64::MIN,
    ensures
        r == fdiv(a as int, b as int),
{
    if a >= 0 {
        let q: i64 = ((a as u64) / (b as u64)) as i64;
        assert(q == fdiv(a as int, b as int)) by {
            vstd::arithmetic::div_mod::lemma_div_is_ordered(0, a as int, b as int);
        };
        q
    } else {
        let na: u64 = (-a) as u64;
        let bu: u64 = b as u64;
        let q: u64 = na / bu;
        let rem: u64 = na % bu;
        proof {
            vstd::arithmetic::div_mod::lemma_fundamental_div_mod(na as int, bu as int);
            assert(q * bu <= na) by (nonlinear_arith)
                requires
                    na == q * bu + rem,
                    rem >= 0,
            {}
        }
        let neg: i64 = if rem == 0 { -(q as i64) } else { -(q as i64) - 1 };
        assert(neg == fdiv(a as int, b as int)) by {
            if rem == 0 {
                assert(a as int == (-(q as int)) * (b as int) + 0) by (nonlinear_arith)
                    requires
                        na == q * bu + rem,
                        rem == 0,
                        a as int == -(na as int),
                        bu == b,
                {}
                vstd::arithmetic::div_mod::lemma_fundamental_div_mod_converse(
                    a as int, b as int, -(q as int), 0);
            } else {
                assert(a as int == (-(q as int) - 1) * (b as int) + ((b - rem) as int))
                    by (nonlinear_arith)
                    requires
                        na == q * bu + rem,
                        a as int == -(na as int),
                        bu == b,
                {}
                vstd::arithmetic::div_mod::lemma_fundamental_div_mod_converse(
                    a as int, b as int, -(q as int) - 1, (b - rem) as int);
            }
        };
        neg
    }
}

/// Floor division bounds: the quotient of a bounded dividend by a positive
/// divisor lies between the floor quotients of the interval ends.
pub proof fn lemma_fdiv_bounds(a: int, b: int, lo: int, hi: int)
    requires
        b > 0,
        lo <= a <= hi,
    ensures
        fdiv(lo, b) <= fdiv(a, b) <= fdiv(hi, b),
{
    vstd::arithmetic::div_mod::lemma_div_is_ordered(lo, a, b);
    vstd::arithmetic::div_mod::lemma_div_is_ordered(a, hi, b);
}

/// The product of two bounded factors is bounded by the product of the
/// bounds.
pub proof fn lemma_abs_mul_le(x: int, y: int, mx: int, my: int)
    requires
        -mx <= x <= mx,
        -my <= y <= my,
        0 <= mx,
        0 <= my,
    ensures
        -(mx * my) <= x * y <= mx * my,
{
    assert(-(mx * my) <= x * y <= mx * my) by (nonlinear_arith)
        requires
            -mx <= x <= mx,
            -my <= y <= my,
            0 <= mx,
            0 <= my,
    {}
}

/// Fixed-point multiplication with floor rounding.
pub fn fp_mul(a: i64, b: i64) -> (r: i64)
    requires
        i64::MIN < a * b <= i64::MAX,
    ensures
        r == spec_fp_mul(a as int, b as int),
{
    let p: i64 = a * b;
    div_floor(p, FP_ONE)
}

/// Clamp `v` into `[lo, hi]`.
pub fn clamp_i64(v: i64, lo: i64, hi: i64) -> (r: i64)
    requires
        lo <= hi,
    ensures
        r == spec_clamp(v as int, lo as int, hi as int),
        lo <= r <= hi,
{
    if v < lo {
        lo
    } else if v > hi {
        hi
    } else {
        v
    }
}

/// The smoothstep fade curve; maps `[0, FP_ONE]` onto `[0, FP_ONE]`.
pub fn fade(t: i64) -> (r: i64)
    requires
        0 <= t <= FP_ONE,
    ensures
        r == spec_fade(t as int),
        0 <= r <= FP_ONE,
{
    proof {
        assert(0 <= t * t * (3 * FP_ONE - 2 * t)
            && t * t * (3 * FP_ONE - 2 * t) <= FP_ONE as int * FP_ONE as int * FP_ONE as int)
            by (nonlinear_arith)
            requires
                0 <= t <= FP_ONE,
                FP_ONE == 1024,
        {
            assert((FP_ONE - t) * (FP_ONE - t) * (FP_ONE + 2 * t) >= 0);
        }
        assert(0 <= t * t <= 1024 * 1024) by (nonlinear_arith)
            requires 0 <= t <= 1024,
        {}
    }
    let num: i64 = t * t * (3 * FP_ONE - 2 * t);
    let r: i64 = div_floor(num, FP_ONE * FP_ONE);
    proof {
        lemma_fdiv_bounds(num as int, FP_ONE as int * FP_ONE as int, 0,
            FP_ONE as int * FP_ONE as int * FP_ONE as int);
        assert(fdiv(FP_ONE as int * FP_ONE as int * FP_ONE as int,
            FP_ONE as int * FP_ONE as int) == FP_ONE as int);
        assert(fdiv(0, FP_ONE as int * FP_ONE as int) == 0);
    }
    r
}

/// Linear interpolation between `a` and `b`; the result stays between them.
pub fn lerp(a: i64, b: i64, w: i64) -> (r: i64)
    requires
        0 <= w <= FP_ONE,
        -0x4000_0000_0000 <= a <= 0x4000_0000_0000,
        -0x4000_0000_0000 <= b <= 0x4000_0000_0000,
    ensures
        r == spec_lerp(a as int, b as int, w as int),
        a <= b ==> a <= r <= b,
        b <= a ==> b <= r <= a,
{
    let d: i64 = b - a;
    proof {
        assert(d * w <= 0x8000_0000_0000 * 1024 && d * w >= -0x8000_0000_0000 * 1024)
            by (nonlinear_arith)
            requires
                -0x8000_0000_0000 <= d <= 0x8000_0000_0000,
                0 <= w <= 1024,
        {}
        if d >= 0 {
            assert(0 <= d * w <= d * 1024) by (nonlinear_arith)
                requires
                    d >= 0,
                    0 <= w <= 1024,
            {}
        } else {
            assert(d * 1024 <= d * w <= 0) by (nonlinear_arith)
                requires
                    d < 0,
                    0 <= w <= 1024,
            {}
        }
        lemma_fdiv_bounds(d as int * w as int, FP_ONE as int,
            if d >= 0 { 0 } else { d as int * 1024 },
            if d >= 0 { d as int * 1024 } else { 0 });
        assert(fdiv(d as int * 1024, 1024) == d as int) by {
            vstd::arithmetic::div_mod::lemma_div_multiples_vanish(d as int, 1024);
            assert(d as int * 1024 == 1024 * d as int);
        };
    }
    let step: i64 = div_floor(d * w, FP_ONE);
    a + step
}

/// Floor integer square root of `n`.
pub open spec fn is_isqrt(n: int, r: int) -> bool {
    0 <= r && r * r <= n && n < (r + 1) * (r + 1)
}

/// The floor square root, as a function.
pub open spec fn spec_isqrt(n: int) -> int {
    choose|r: int| is_isqrt(n, r)
}

/// The floor square root is unique.
pub proof fn lemma_isqrt_unique(n: int, a: int, b: int)
    requires
        is_isqrt(n, a),
        is_isqrt(n, b),
    ensures
        a == b,
{
    assert(a == b) by (nonlinear_arith)
        requires
            0 <= a && a * a <= n && n < (a + 1) * (a + 1),
            0 <= b && b * b <= n && n < (b + 1) * (b + 1),
    {}
}

/// Executable floor square root by bisection.
pub fn isqrt(n: u64) -> (r: u64)
    ensures
        is_isqrt(n as int, r as int),
        r as int == spec_isqrt(n as int),
        r <= 0xFFFF_FFFF,
{
    let mut lo: u64 = 0;
    let mut hi: u64 = 0x1_0000_0000;
    proof {
        assert((0x1_0000_0000 as int) * (0x1_0000_0000 as int) > u64::MAX as int);
    }
    while lo + 1 < hi
        invariant
            0 <= lo < hi <= 0x1_0000_0000,
            lo as int * lo as int <= n as int,
            hi as int * hi as int > n as int,
        decreases hi - lo,
    {
        let mid: u64 = lo + (hi - lo) / 2;
        proof {
            assert(mid as int * mid as int <= 0x1_0000_0000 * 0x1_0000_0000)
                by (nonlinear_arith)
                requires
                    0 <= mid <= 0x1_0000_0000,
            {}
        }
        let sq: u128 = (mid as u128) * (mid as u128);
        if sq <= n as u128 {
            lo = mid;
        } else {
            hi = mid;
        }
    }
    proof {
        assert(is_isqrt(n as int, lo as int));
        assert(is_isqrt(n as int, spec_isqrt(n as int))) by {
            assert(is_isqrt(n as int, lo as int));
        };
        lemma_isqrt_unique(n as int, lo as int, spec_isqrt(n as int));
    }
    lo
}

/// A two-dimensional fixed-point vector (horizontal plane coordinates).
#[derive(Clone, Copy, PartialEq, Eq, Structural, Debug)]
pub struct Vec2 {
    /// East-west coordinate, fixed point.
    pub x: i64,
    /// North-south coordinate, fixed point.
    pub z: i64,
}

impl Vec2 {
    /// Construct a vector from its two coordinates.
    pub fn new(x: i64, z: i64) -> (r: Vec2)
        ensures
            r.x == x && r.z == z,
    {
        Vec2 { x, z }
    }
}

/// Squared Euclidean distance between two points, as a specification.
pub open spec fn spec_dist2(a: Vec2, b: Vec2) -> int {
    (a.x - b.x) * (a.x - b.x) + (a.z - b.z) * (a.z - b.z)
}

/// Coordinate bound under which all geometric computations stay exact:
/// points handed to the geometry helpers are local to one chunk
/// neighbourhood.
pub const COORD_BOUND: i64 = 0x80_0000_0000;

/// Bound on the distance between two points that take part in one blend
/// query; sites of one partition lie within a few chunks of each other.
pub const DIFF_BOUND: i64 = 0x4000_0000;

/// Squared distance between two nearby points.
pub fn dist2(a: Vec2, b: Vec2) -> (r: u64)
    requires
        -DIFF_BOUND <= a.x - b.x <= DIFF_BOUND,
        -DIFF_BOUND <= a.z - b.z <= DIFF_BOUND,
    ensures
        r == spec_dist2(a, b),
{
    let dx: i64 = a.x - b.x;
    let dz: i64 = a.z - b.z;
    proof {
        assert(0 <= dx * dx <= 0x4000_0000 * 0x4000_0000 && 0 <= dz * dz <= 0x4000_0000
            * 0x4000_0000) by (nonlinear_arith)
            requires
                -0x4000_0000 <= dx <= 0x4000_0000,
                -0x4000_0000 <= dz <= 0x4000_0000,
        {}
    }
    (dx * dx) as u64 + (dz * dz) as u64
}

} // verus!
