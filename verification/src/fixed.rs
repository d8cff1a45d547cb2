//! Fixed-point scalars.
//!
//! Every quantity of the simulation (lengths, speeds, angles, times, scale
//! factors) is an `i64` counted in millionths of its unit. Sums and products
//! are exact in the integers and then clamped to the `i64` range, so no
//! operation can overflow and every result is a function of its operands.
use vstd::prelude::*;

verus! {

/// The fixed-point representation of 1.
pub const ONE: i64 = 1_000_000;

/// A full turn, 2π radians, rounded down to the fixed-point grid.
pub const TAU: i64 = 6_283_185;

/// `x` clamped to the range of `i64`.
pub open spec fn sat(x: int) -> int {
    if x < i64::MIN {
        i64::MIN as int
    } else if x > i64::MAX {
        i64::MAX as int
    } else {
        x
    }
}

/// `n / d` rounded toward zero, for a positive `d`.
pub open spec fn quot(n: int, d: int) -> int {
    if n >= 0 {
        n / d
    } else {
        -((-n) / d)
    }
}

/// The fixed-point product of `a` and `b`.
pub open spec fn product(a: int, b: int) -> int {
    sat(quot(a * b, ONE as int))
}

/// `a` turned around and halved, rounded toward zero.
pub open spec fn rebound(a: int) -> int {
    quot(-a, 2)
}

/// `a` moved toward zero by `step`, stopping at zero.
pub open spec fn toward_zero(a: int, step: int) -> int {
    if a >= 0 {
        if sat(a - step) > 0 { sat(a - step) } else { 0 }
    } else {
        if sat(a + step) < 0 { sat(a + step) } else { 0 }
    }
}

/// `x` limited to `[-limit, limit]`; where the bounds cross, the upper one wins.
pub open spec fn limited(x: int, limit: int) -> int {
    if x > limit {
        limit
    } else if x < sat(-limit) {
        sat(-limit)
    } else {
        x
    }
}

/// The least `r` whose square reaches `n`.
pub open spec fn is_root_up(n: int, r: int) -> bool {
    &&& 0 <= r
    &&& r * r >= n
    &&& (r == 0 || (r - 1) * (r - 1) < n)
}

/// The square root of `n`, rounded up.
pub open spec fn root_up(n: int) -> int {
    choose|r: int| is_root_up(n, r)
}

/// A rebound turns the sign around and halves the magnitude, rounding toward zero.
pub proof fn lemma_rebound(a: int)
    ensures
        a >= 0 ==> rebound(a) == -(a / 2),
        a <= 0 ==> rebound(a) == (-a) / 2,
{
}

/// Squaring is strictly monotonic on the non-negative integers.
pub proof fn lemma_square_monotonic(a: int, b: int)
    requires
        0 <= a < b,
    ensures
        a * a < b * b,
{
    assert(a * a < b * b) by (nonlinear_arith)
        requires
            0 <= a < b,
    ;
}

/// There is exactly one rounded-up square root.
pub proof fn lemma_root_up_unique(n: int, r: int)
    requires
        is_root_up(n, r),
    ensures
        root_up(n) == r,
{
    let s = root_up(n);
    assert(is_root_up(n, s));
    if s < r {
        if s < r - 1 {
            lemma_square_monotonic(s, r - 1);
        }
    } else if r < s {
        if r < s - 1 {
            lemma_square_monotonic(r, s - 1);
        }
    }
}

/// The product of two `i64` values fits comfortably in an `i128`.
pub proof fn lemma_wide_product(a: int, b: int)
    requires
        i64::MIN <= a <= i64::MAX,
        i64::MIN <= b <= i64::MAX,
    ensures
        -0x4000_0000_0000_0000_0000_0000_0000_0000 <= a * b
            <= 0x4000_0000_0000_0000_0000_0000_0000_0000,
{
    assert(-0x4000_0000_0000_0000_0000_0000_0000_0000 <= a * b
        <= 0x4000_0000_0000_0000_0000_0000_0000_0000) by (nonlinear_arith)
        requires
            -0x8000_0000_0000_0000 <= a <= 0x7fff_ffff_ffff_ffff,
            -0x8000_0000_0000_0000 <= b <= 0x7fff_ffff_ffff_ffff,
    ;
}

/// Clamps a wide intermediate result back into an `i64`.
pub fn narrow(x: i128) -> (r: i64)
    ensures
        r == sat(x as int),
{
    if x < -0x8000_0000_0000_0000i128 {
        i64::MIN
    } else if x > 0x7fff_ffff_ffff_ffffi128 {
        i64::MAX
    } else {
        x as i64
    }
}

/// Saturating sum.
pub fn fx_add(a: i64, b: i64) -> (r: i64)
    ensures
        r == sat(a + b),
{
    narrow(a as i128 + b as i128)
}

/// Saturating difference.
pub fn fx_sub(a: i64, b: i64) -> (r: i64)
    ensures
        r == sat(a - b),
{
    narrow(a as i128 - b as i128)
}

/// Saturating negation.
pub fn fx_neg(a: i64) -> (r: i64)
    ensures
        r == sat(-a),
{
    narrow(-(a as i128))
}

/// The exact product of two scalars, before it is brought back to scale.
pub fn wide_product(a: i64, b: i64) -> (p: i128)
    ensures
        p == a * b,
{
    proof {
        lemma_wide_product(a as int, b as int);
    }
    (a as i128) * (b as i128)
}

/// Fixed-point product: exact, rounded toward zero, then clamped.
pub fn fx_mul(a: i64, b: i64) -> (r: i64)
    ensures
        r == product(a as int, b as int),
{
    let p: i128 = wide_product(a, b);
    narrow(p / (ONE as i128))
}

/// Turns a quantity around and halves it, as a body does that bounces off a wall.
pub fn fx_rebound(a: i64) -> (r: i64)
    ensures
        r == rebound(a as int),
{
    let n: i128 = -(a as i128);
    (n / 2) as i64
}

/// Moves `a` toward zero by `step` without passing it.
pub fn fx_toward_zero(a: i64, step: i64) -> (r: i64)
    ensures
        r == toward_zero(a as int, step as int),
{
    if a >= 0 {
        let d: i64 = fx_sub(a, step);
        if d > 0 { d } else { 0 }
    } else {
        let d: i64 = fx_add(a, step);
        if d < 0 { d } else { 0 }
    }
}

/// Limits `x` to `[-limit, limit]`.
pub fn fx_limited(x: i64, limit: i64) -> (r: i64)
    ensures
        r == limited(x as int, limit as int),
{
    let low: i64 = fx_neg(limit);
    if x > limit {
        limit
    } else if x < low {
        low
    } else {
        x
    }
}

/// Brings an angle into `[0, TAU)`.
pub fn wrap_angle(a: i64) -> (r: i64)
    ensures
        r == (a as int) % (TAU as int),
        0 <= r < TAU,
{
    let m: i64 = a % TAU;
    if m < 0 {
        m + TAU
    } else {
        m
    }
}

/// The sum of two angles, brought into `[0, TAU)`.
pub fn angle_sum(a: i64, b: i64) -> (r: i64)
    ensures
        r == (a + b) % (TAU as int),
        0 <= r < TAU,
{
    let s: i128 = a as i128 + b as i128;
    let m: i128 = s % (TAU as i128);
    if m < 0 {
        (m + TAU as i128) as i64
    } else {
        m as i64
    }
}

/// The square root of `n`, rounded up.
pub fn sqrt_up(n: u128) -> (r: u64)
    requires
        n <= 0x8000_0000_0000_0000_0000_0000_0000_0000,
    ensures
        r == root_up(n as int),
        is_root_up(n as int, r as int),
{
    let mut lo: u128 = 0;
    let mut hi: u128 = 0xffff_ffff_ffff_ffff;
    assert(0xffff_ffff_ffff_ffffu128 * 0xffff_ffff_ffff_ffffu128 >= 0x8000_0000_0000_0000_0000_0000_0000_0000u128);
    while lo < hi
        invariant
            0 <= lo <= hi <= 0xffff_ffff_ffff_ffff,
            hi * hi >= n,
            lo == 0 || (lo - 1) * (lo - 1) < n,
        decreases hi - lo,
    {
        let mid: u128 = lo + (hi - lo) / 2;
        assert(mid * mid <= 0xffff_ffff_ffff_ffff * 0xffff_ffff_ffff_ffff) by (nonlinear_arith)
            requires
                0 <= mid <= 0xffff_ffff_ffff_ffff,
        ;
        if mid * mid >= n {
            hi = mid;
        } else {
            lo = mid + 1;
        }
    }
    proof {
        lemma_root_up_unique(n as int, lo as int);
    }
    lo as u64
}

} // verus!
