//! Two-dimensional fixed-point vectors.
use vstd::prelude::*;
use crate::fixed::{
    fx_add, fx_mul, fx_rebound, fx_sub, is_root_up, lemma_square_monotonic, narrow, product, quot,
    rebound, root_up, sat, sqrt_up, wide_product, ONE,
};

verus! {

/// A point or a displacement in the plane.
#[derive(Clone, Copy, Debug, PartialEq, Eq, Structural)]
pub struct Vec2 {
    pub x: i64,
    pub y: i64,
}

/// The component-wise saturating sum.
pub open spec fn v_sum(a: Vec2, b: Vec2) -> Vec2 {
    Vec2 { x: sat(a.x + b.x) as i64, y: sat(a.y + b.y) as i64 }
}

/// The component-wise saturating difference.
pub open spec fn v_diff(a: Vec2, b: Vec2) -> Vec2 {
    Vec2 { x: sat(a.x - b.x) as i64, y: sat(a.y - b.y) as i64 }
}

/// `v` with both components multiplied by the fixed-point factor `k`.
pub open spec fn v_scaled(v: Vec2, k: int) -> Vec2 {
    Vec2 { x: product(v.x as int, k) as i64, y: product(v.y as int, k) as i64 }
}

/// `v` turned around and halved.
pub open spec fn v_rebound(v: Vec2) -> Vec2 {
    Vec2 { x: rebound(v.x as int) as i64, y: rebound(v.y as int) as i64 }
}

/// The squared length of `v`, exact.
pub open spec fn len_sq(v: Vec2) -> int {
    v.x * v.x + v.y * v.y
}

/// The length of `v`, rounded up.
pub open spec fn length(v: Vec2) -> int {
    root_up(len_sq(v))
}

/// The direction of `v` as a vector no longer than `ONE`; the zero vector has
/// no direction and yields the zero vector.
pub open spec fn v_unit(v: Vec2) -> Vec2 {
    if length(v) == 0 {
        Vec2 { x: 0, y: 0 }
    } else {
        Vec2 {
            x: quot(v.x * ONE, length(v)) as i64,
            y: quot(v.y * ONE, length(v)) as i64,
        }
    }
}

/// `v` rotated by the angle whose cosine and sine are `dir.x` and `dir.y`.
pub open spec fn v_turned(v: Vec2, dir: Vec2) -> Vec2 {
    Vec2 {
        x: sat(quot(v.x * dir.x - v.y * dir.y, ONE as int)) as i64,
        y: sat(quot(v.x * dir.y + v.y * dir.x, ONE as int)) as i64,
    }
}

/// The squared distance between two points, exact.
pub open spec fn dist_sq(a: Vec2, b: Vec2) -> int {
    (a.x - b.x) * (a.x - b.x) + (a.y - b.y) * (a.y - b.y)
}

/// Whether `a` and `b` lie no further apart than `radius`.
pub open spec fn near(a: Vec2, b: Vec2, radius: int) -> bool {
    dist_sq(a, b) <= radius * radius
}

/// A number is no larger in magnitude than any root of a sum of squares that holds its square.
pub proof fn lemma_component_below_root(x: int, rest: int, r: int)
    requires
        0 <= rest,
        0 <= r,
        r * r >= x * x + rest,
    ensures
        -r <= x <= r,
{
    if x > r {
        lemma_square_monotonic(r, x);
    }
    if -x > r {
        lemma_square_monotonic(r, -x);
        assert((-x) * (-x) == x * x) by (nonlinear_arith);
    }
}

/// A square is never negative.
pub proof fn lemma_square_nonnegative(x: int)
    ensures
        0 <= x * x,
{
    assert(0 <= x * x) by (nonlinear_arith);
}

/// Scaling a quotient back up never exceeds the dividend: `quot(n, d)` lies
/// between zero and `n / d`.
pub proof fn lemma_quot_bound(n: int, d: int)
    requires
        d > 0,
    ensures
        n >= 0 ==> 0 <= quot(n, d) && quot(n, d) * d <= n,
        n <= 0 ==> quot(n, d) <= 0 && quot(n, d) * d >= n,
{
    if n >= 0 {
        assert(0 <= n / d && (n / d) * d <= n) by (nonlinear_arith)
            requires
                n >= 0,
                d > 0,
        ;
    }
    if n <= 0 {
        let m = -n;
        assert(0 <= m / d && (m / d) * d <= m) by (nonlinear_arith)
            requires
                m >= 0,
                d > 0,
        ;
        assert((-(m / d)) * d == -((m / d) * d)) by (nonlinear_arith);
    }
}

/// If `p * d <= a * m` for non-negative numbers, then `p² d² <= a² m²`.
proof fn lemma_square_of_bound(p: int, d: int, a: int, m: int)
    requires
        0 <= p,
        0 <= d,
        0 <= a,
        0 <= m,
        p * d <= a * m,
    ensures
        (p * p) * (d * d) <= (a * a) * (m * m),
{
    assert((p * d) * (p * d) <= (a * m) * (a * m)) by (nonlinear_arith)
        requires
            0 <= p * d <= a * m,
    ;
    assert((p * d) * (p * d) == (p * p) * (d * d)) by (nonlinear_arith);
    assert((a * m) * (a * m) == (a * a) * (m * m)) by (nonlinear_arith);
    assert(0 <= p * d) by (nonlinear_arith)
        requires
            0 <= p,
            0 <= d,
    ;
}

/// Shrinking both components of a vector by the factor `m / d`, rounding
/// toward zero, gives a vector no longer than `m` when the vector is no
/// longer than `d`.
pub proof fn lemma_shrunk_length(x: int, y: int, m: int, d: int)
    requires
        d > 0,
        m >= 0,
        x * x + y * y <= d * d,
    ensures
        quot(x * m, d) * quot(x * m, d) + quot(y * m, d) * quot(y * m, d) <= m * m,
{
    let ax = if x >= 0 { x } else { -x };
    let ay = if y >= 0 { y } else { -y };
    let p = quot(ax * m, d);
    let q = quot(ay * m, d);
    assert(ax * m >= 0 && ay * m >= 0) by (nonlinear_arith)
        requires
            ax >= 0,
            ay >= 0,
            m >= 0,
    ;
    lemma_quot_bound(ax * m, d);
    lemma_quot_bound(ay * m, d);
    lemma_square_of_bound(p, d, ax, m);
    lemma_square_of_bound(q, d, ay, m);
    assert(ax * ax == x * x && ay * ay == y * y) by (nonlinear_arith)
        requires
            ax == x || ax == -x,
            ay == y || ay == -y,
    ;
    let pp = p * p;
    let qq = q * q;
    let dd = d * d;
    let aa = ax * ax;
    let bb = ay * ay;
    let mm = m * m;
    assert(0 <= mm) by (nonlinear_arith)
        requires
            mm == m * m,
    ;
    assert(dd > 0) by (nonlinear_arith)
        requires
            dd == d * d,
            d > 0,
    ;
    assert((pp + qq) * dd == pp * dd + qq * dd) by (nonlinear_arith);
    assert((aa + bb) * mm == aa * mm + bb * mm) by (nonlinear_arith);
    assert((aa + bb) * mm <= dd * mm) by (nonlinear_arith)
        requires
            aa + bb <= dd,
            0 <= mm,
    ;
    assert(pp + qq <= mm) by (nonlinear_arith)
        requires
            (pp + qq) * dd <= dd * mm,
            dd > 0,
    ;
    // the quotients of the signed products differ from p and q by sign only
    assert(quot(x * m, d) == p || quot(x * m, d) == -p) by {
        if x < 0 {
            assert(x * m == -(ax * m)) by (nonlinear_arith)
                requires
                    ax == -x,
            ;
        }
    }
    assert(quot(y * m, d) == q || quot(y * m, d) == -q) by {
        if y < 0 {
            assert(y * m == -(ay * m)) by (nonlinear_arith)
                requires
                    ay == -y,
            ;
        }
    }
    assert(quot(x * m, d) * quot(x * m, d) == p * p) by (nonlinear_arith)
        requires
            quot(x * m, d) == p || quot(x * m, d) == -p,
    ;
    assert(quot(y * m, d) * quot(y * m, d) == q * q) by (nonlinear_arith)
        requires
            quot(y * m, d) == q || quot(y * m, d) == -q,
    ;
}

/// The rounded-up length exists for every vector and bounds both components.
pub proof fn lemma_length(v: Vec2)
    ensures
        is_root_up(len_sq(v), length(v)),
        -length(v) <= v.x <= length(v),
        -length(v) <= v.y <= length(v),
        0 <= length(v) <= 0xffff_ffff_ffff_ffff,
        length(v) == 0 <==> (v.x == 0 && v.y == 0),
{
    lemma_square_nonnegative(v.x as int);
    lemma_square_nonnegative(v.y as int);
    lemma_len_sq_bound(v);
    let n = len_sq(v);
    // a witness: the least r in [0, 2^64) whose square reaches n
    let top: int = 0xffff_ffff_ffff_ffff;
    assert(top * top >= n);
    let r = least_root(n, top);
    lemma_least_root(n, top);
    assert(is_root_up(n, r));
    let l = length(v);
    assert(is_root_up(n, l));
    crate::fixed::lemma_root_up_unique(n, r);
    lemma_component_below_root(v.x as int, v.y * v.y, l);
    lemma_component_below_root(v.y as int, v.x * v.x, l);
    if l == 0 {
        assert(v.x == 0 && v.y == 0);
    }
    if v.x == 0 && v.y == 0 {
        assert(v.x * v.x == 0 && v.y * v.y == 0) by (nonlinear_arith)
            requires
                v.x == 0,
                v.y == 0,
        ;
        assert(n == 0);
        assert(is_root_up(n, 0));
        crate::fixed::lemma_root_up_unique(n, 0);
    }
}

/// The squared length of a vector of `i64` components is below 2^127.
pub proof fn lemma_len_sq_bound(v: Vec2)
    ensures
        0 <= len_sq(v) <= 0x8000_0000_0000_0000_0000_0000_0000_0000,
{
    crate::fixed::lemma_wide_product(v.x as int, v.x as int);
    crate::fixed::lemma_wide_product(v.y as int, v.y as int);
    lemma_square_nonnegative(v.x as int);
    lemma_square_nonnegative(v.y as int);
}

/// The least `r` in `[0, top]` whose square reaches `n`, found by counting down.
spec fn least_root(n: int, top: int) -> int
    decreases top,
{
    if top <= 0 {
        0
    } else if (top - 1) * (top - 1) >= n {
        least_root(n, top - 1)
    } else {
        top
    }
}

proof fn lemma_least_root(n: int, top: int)
    requires
        0 <= top,
        top * top >= n,
    ensures
        is_root_up(n, least_root(n, top)),
        0 <= least_root(n, top) <= top,
    decreases top,
{
    if top > 0 && (top - 1) * (top - 1) >= n {
        lemma_least_root(n, top - 1);
    }
}

/// The unit vector of any vector is no longer than `ONE`.
pub proof fn lemma_unit_bounded(v: Vec2)
    ensures
        len_sq(v_unit(v)) <= ONE * ONE,
        -ONE <= v_unit(v).x <= ONE,
        -ONE <= v_unit(v).y <= ONE,
        v_unit(v).x == (if length(v) == 0 { 0 } else { quot(v.x * ONE, length(v)) }),
        v_unit(v).y == (if length(v) == 0 { 0 } else { quot(v.y * ONE, length(v)) }),
{
    lemma_length(v);
    let l = length(v);
    if l != 0 {
        lemma_shrunk_length(v.x as int, v.y as int, ONE as int, l);
        let ux = quot(v.x * ONE, l);
        let uy = quot(v.y * ONE, l);
        lemma_square_nonnegative(ux);
        lemma_square_nonnegative(uy);
        lemma_component_below_root(ux, uy * uy, ONE as int);
        lemma_component_below_root(uy, ux * ux, ONE as int);
    }
}

/// A vector no longer than `ONE`, scaled by a non-negative factor `m`, is no longer than `m`.
pub proof fn lemma_scaled_unit_length(u: Vec2, m: int)
    requires
        len_sq(u) <= ONE * ONE,
        0 <= m <= i64::MAX,
    ensures
        len_sq(v_scaled(u, m)) <= m * m,
{
    lemma_shrunk_length(u.x as int, u.y as int, m, ONE as int);
    let px = quot(u.x * m, ONE as int);
    let py = quot(u.y * m, ONE as int);
    lemma_square_nonnegative(px);
    lemma_square_nonnegative(py);
    lemma_component_below_root(px, py * py, m);
    lemma_component_below_root(py, px * px, m);
}

/// The magnitude of a wide integer.
fn magnitude(a: i128) -> (r: u128)
    requires
        a > i128::MIN,
    ensures
        r == (if a < 0 { -a } else { a as int }),
{
    if a < 0 {
        (-a) as u128
    } else {
        a as u128
    }
}

/// The sum of two wide products, brought back to scale and clamped.
fn scaled_sum(p: i128, q: i128) -> (r: i64)
    requires
        -0x4000_0000_0000_0000_0000_0000_0000_0000 <= p <= 0x4000_0000_0000_0000_0000_0000_0000_0000,
        -0x4000_0000_0000_0000_0000_0000_0000_0000 <= q <= 0x4000_0000_0000_0000_0000_0000_0000_0000,
    ensures
        r == sat(quot(p + q, ONE as int)),
{
    if p > 0 && q > i128::MAX - p {
        i64::MAX
    } else {
        narrow((p + q) / (ONE as i128))
    }
}

impl Vec2 {
    pub fn new(x: i64, y: i64) -> (v: Vec2)
        ensures
            v == (Vec2 { x, y }),
    {
        Vec2 { x, y }
    }

    pub fn zero() -> (v: Vec2)
        ensures
            v == (Vec2 { x: 0, y: 0 }),
    {
        Vec2 { x: 0, y: 0 }
    }

    pub fn plus(self, other: Vec2) -> (v: Vec2)
        ensures
            v == v_sum(self, other),
    {
        Vec2 { x: fx_add(self.x, other.x), y: fx_add(self.y, other.y) }
    }

    pub fn minus(self, other: Vec2) -> (v: Vec2)
        ensures
            v == v_diff(self, other),
    {
        Vec2 { x: fx_sub(self.x, other.x), y: fx_sub(self.y, other.y) }
    }

    pub fn scaled(self, k: i64) -> (v: Vec2)
        ensures
            v == v_scaled(self, k as int),
    {
        Vec2 { x: fx_mul(self.x, k), y: fx_mul(self.y, k) }
    }

    pub fn rebound(self) -> (v: Vec2)
        ensures
            v == v_rebound(self),
    {
        Vec2 { x: fx_rebound(self.x), y: fx_rebound(self.y) }
    }

    /// The squared length, exact.
    pub fn length_squared(self) -> (n: u128)
        ensures
            n == len_sq(self),
    {
        proof {
            lemma_len_sq_bound(self);
            lemma_square_nonnegative(self.x as int);
            lemma_square_nonnegative(self.y as int);
            crate::fixed::lemma_wide_product(self.x as int, self.x as int);
            crate::fixed::lemma_wide_product(self.y as int, self.y as int);
        }
        let xx: i128 = wide_product(self.x, self.x);
        let yy: i128 = wide_product(self.y, self.y);
        xx as u128 + yy as u128
    }

    /// The length, rounded up.
    pub fn length(self) -> (l: u64)
        ensures
            l == length(self),
    {
        proof {
            lemma_len_sq_bound(self);
        }
        sqrt_up(self.length_squared())
    }

    /// The direction of the vector; zero for the zero vector.
    pub fn unit(self) -> (u: Vec2)
        ensures
            u == v_unit(self),
    {
        let l: u64 = self.length();
        proof {
            lemma_length(self);
            lemma_unit_bounded(self);
        }
        if l == 0 {
            Vec2 { x: 0, y: 0 }
        } else {
            let nx: i128 = wide_product(self.x, ONE);
            let ny: i128 = wide_product(self.y, ONE);
            Vec2 { x: (nx / (l as i128)) as i64, y: (ny / (l as i128)) as i64 }
        }
    }

    /// Rotation by the angle whose cosine and sine are the components of `dir`.
    pub fn turned(self, dir: Vec2) -> (v: Vec2)
        ensures
            v == v_turned(self, dir),
    {
        let xc: i128 = wide_product(self.x, dir.x);
        let ys: i128 = wide_product(self.y, dir.y);
        let xs: i128 = wide_product(self.x, dir.y);
        let yc: i128 = wide_product(self.y, dir.x);
        proof {
            crate::fixed::lemma_wide_product(self.x as int, dir.x as int);
            crate::fixed::lemma_wide_product(self.y as int, dir.y as int);
            crate::fixed::lemma_wide_product(self.x as int, dir.y as int);
            crate::fixed::lemma_wide_product(self.y as int, dir.x as int);
        }
        Vec2 { x: scaled_sum(xc, -ys), y: scaled_sum(xs, yc) }
    }

    /// The squared distance to `other` where it lies within `radius` of this
    /// point, and nothing where it lies further off.
    pub fn reach(self, other: Vec2, radius: i64) -> (d: Option<u128>)
        ensures
            d is Some <==> near(self, other, radius as int),
            d matches Some(sq) ==> sq == dist_sq(self, other),
    {
        let r: u128 = magnitude(radius as i128);
        let dx: u128 = magnitude(self.x as i128 - other.x as i128);
        let dy: u128 = magnitude(self.y as i128 - other.y as i128);
        proof {
            let rr = radius as int;
            let ex = self.x - other.x;
            let ey = self.y - other.y;
            assert(r * r == rr * rr) by (nonlinear_arith)
                requires
                    r == rr || r == -rr,
            ;
            assert(dx * dx == ex * ex) by (nonlinear_arith)
                requires
                    dx == ex || dx == -ex,
            ;
            assert(dy * dy == ey * ey) by (nonlinear_arith)
                requires
                    dy == ey || dy == -ey,
            ;
            lemma_square_nonnegative(ex);
            lemma_square_nonnegative(ey);
            if dx > r {
                lemma_square_monotonic(r as int, dx as int);
            }
            if dy > r {
                lemma_square_monotonic(r as int, dy as int);
            }
        }
        if dx > r || dy > r {
            None
        } else {
            assert(dx * dx <= r * r && dy * dy <= r * r && r * r <= 0x4000_0000_0000_0000_0000_0000_0000_0000)
                by (nonlinear_arith)
                requires
                    0 <= dx <= r,
                    0 <= dy <= r,
                    r <= 0x8000_0000_0000_0000,
            ;
            let sq: u128 = dx * dx + dy * dy;
            if sq <= r * r {
                Some(sq)
            } else {
                None
            }
        }
    }

    /// Whether `other` lies within `radius` of this point.
    pub fn is_near(self, other: Vec2, radius: i64) -> (b: bool)
        ensures
            b == near(self, other, radius as int),
    {
        self.reach(other, radius).is_some()
    }
}

} // verus!
