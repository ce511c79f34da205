//! Fixed-point 3-vector and 3x3-matrix arithmetic.
//!
//! All coordinates are signed fixed-point numbers with `UNIT` (2^16) standing
//! for one world unit.  Every executable operation mirrors, exactly, a spec
//! function over unbounded integers, so the geometric queries built on top of
//! this module can state their results as equations rather than estimates.
use vstd::prelude::*;

verus! {

/// One world unit in fixed-point scale (16 fractional bits).
pub const UNIT: i64 = 65536;

/// Cap on the magnitude of shape coordinates (centers, extents, radii):
/// 2^24, i.e. 256 world units.
pub const SHAPE_B: i64 = 16777216;

/// Cap on the magnitude of a rotation-matrix entry: 2 * UNIT.
pub const ROT_B: i64 = 131072;

/// Cap on the magnitude of a world-space point derived from a shape
/// (a box corner, a support point): 2^28.
pub const POINT_B: i64 = 268435456;

/// Cap on the magnitude of a Minkowski-difference point: 2^29.
pub const MINK_B: i64 = 536870912;

/// Cap accepted by `vcross` and `try_normalize`: 2^30.
pub const CROSS_B: i64 = 1073741824;

/// Cap accepted by the generic vector helpers: 2^61.
pub const WIDE_B: i64 = 2305843009213693952;

/// An exact world-space vector in fixed-point coordinates.
#[derive(Clone, Copy, Debug, PartialEq, Eq, Structural)]
pub struct Vec3 {
    pub x: i64,
    pub y: i64,
    pub z: i64,
}

/// A 3x3 matrix whose fields are its columns, as a rotation basis.
#[derive(Clone, Copy, Debug, PartialEq, Eq, Structural)]
pub struct Mat3 {
    pub x_axis: Vec3,
    pub y_axis: Vec3,
    pub z_axis: Vec3,
}

/// The mathematical value of a vector: a triple of unbounded integers.
pub ghost struct V3 {
    pub x: int,
    pub y: int,
    pub z: int,
}

pub open spec fn v3(v: Vec3) -> V3 {
    V3 { x: v.x as int, y: v.y as int, z: v.z as int }
}

pub open spec fn zero3() -> V3 {
    V3 { x: 0, y: 0, z: 0 }
}

pub open spec fn dot3(a: V3, b: V3) -> int {
    a.x * b.x + a.y * b.y + a.z * b.z
}

pub open spec fn cross3(a: V3, b: V3) -> V3 {
    V3 { x: a.y * b.z - a.z * b.y, y: a.z * b.x - a.x * b.z, z: a.x * b.y - a.y * b.x }
}

pub open spec fn sub3(a: V3, b: V3) -> V3 {
    V3 { x: a.x - b.x, y: a.y - b.y, z: a.z - b.z }
}

pub open spec fn add3(a: V3, b: V3) -> V3 {
    V3 { x: a.x + b.x, y: a.y + b.y, z: a.z + b.z }
}

pub open spec fn neg3(a: V3) -> V3 {
    V3 { x: -a.x, y: -a.y, z: -a.z }
}

pub open spec fn norm2_3(a: V3) -> int {
    dot3(a, a)
}

pub open spec fn abs_i(a: int) -> int {
    if a >= 0 {
        a
    } else {
        -a
    }
}

/// Truncating (toward-zero) division, the rounding used by every fixed-point
/// scaling step in this crate.
pub open spec fn tdivs(a: int, b: int) -> int {
    if a >= 0 {
        a / b
    } else {
        -((-a) / b)
    }
}

/// The floor of the square root, as chosen by its defining inequalities.
pub open spec fn sqrt_floor(n: int) -> int {
    choose|r: int| 0 <= r && #[trigger] (r * r) <= n && n < (r + 1) * (r + 1)
}

/// Componentwise magnitude bound.
pub open spec fn in_b(v: Vec3, b: int) -> bool {
    &&& -b <= v.x <= b
    &&& -b <= v.y <= b
    &&& -b <= v.z <= b
}

pub open spec fn in_b3(v: V3, b: int) -> bool {
    &&& -b <= v.x <= b
    &&& -b <= v.y <= b
    &&& -b <= v.z <= b
}

/// The dot product is symmetric in its arguments.
pub proof fn lemma_dot3_comm(a: V3, b: V3)
    by (nonlinear_arith)
    ensures
        dot3(a, b) == dot3(b, a),
{
}

/// Negating one argument negates the dot product.
pub proof fn lemma_dot3_neg(a: V3, b: V3)
    by (nonlinear_arith)
    ensures
        dot3(neg3(a), b) == -dot3(a, b),
        dot3(a, neg3(b)) == -dot3(a, b),
{
}

/// The cross product is antisymmetric.
pub proof fn lemma_cross3_antisym(a: V3, b: V3)
    by (nonlinear_arith)
    ensures
        cross3(a, b) == neg3(cross3(b, a)),
{
}

pub proof fn lemma_mul_le(a: int, b: int, aa: int, bb: int)
    by (nonlinear_arith)
    requires
        -aa <= a <= aa,
        -bb <= b <= bb,
        0 <= aa,
        0 <= bb,
    ensures
        -(aa * bb) <= a * b <= aa * bb,
{
}

proof fn lemma_sqrt_exists(n: int)
    requires
        n >= 0,
    ensures
        exists|r: int| 0 <= r && #[trigger] (r * r) <= n && n < (r + 1) * (r + 1),
    decreases n,
{
    if n == 0 {
        assert(((0int) + 1) * ((0int) + 1) == 1) by (nonlinear_arith);
        assert((0int) * (0int) <= n);
        assert(n < ((0int) + 1) * ((0int) + 1));
    } else {
        lemma_sqrt_exists(n - 1);
        let p = choose|r: int| 0 <= r && #[trigger] (r * r) <= n - 1 && n - 1 < (r + 1) * (r + 1);
        if n < (p + 1) * (p + 1) {
            assert(p * p <= n);
        } else {
            assert(n == (p + 1) * (p + 1));
            assert((p + 1) * (p + 1) <= n);
            assert(n < ((p + 1) + 1) * ((p + 1) + 1)) by (nonlinear_arith)
                requires
                    n == (p + 1) * (p + 1),
                    p >= 0,
            ;
        }
    }
}

/// The defining inequalities of `sqrt_floor`, available whenever `n >= 0`.
pub proof fn lemma_sqrt_floor_props(n: int)
    requires
        n >= 0,
    ensures
        0 <= sqrt_floor(n),
        sqrt_floor(n) * sqrt_floor(n) <= n,
        n < (sqrt_floor(n) + 1) * (sqrt_floor(n) + 1),
{
    lemma_sqrt_exists(n);
}

/// `sqrt_floor` is the unique value satisfying its inequalities.
pub proof fn lemma_sqrt_floor_is(n: int, r: int)
    requires
        0 <= r,
        r * r <= n,
        n < (r + 1) * (r + 1),
    ensures
        sqrt_floor(n) == r,
{
    let s = sqrt_floor(n);
    lemma_sqrt_floor_props(n);
    if s < r {
        assert((s + 1) * (s + 1) <= r * r) by (nonlinear_arith)
            requires
                0 <= s,
                s < r,
        ;
    }
    if r < s {
        assert((r + 1) * (r + 1) <= s * s) by (nonlinear_arith)
            requires
                0 <= r,
                r < s,
        ;
    }
}

/// A value whose square bounds `n` from above bounds `sqrt_floor(n)` too.
pub proof fn lemma_sqrt_floor_le_sq(n: int, r: int)
    requires
        0 <= n,
        0 <= r,
        n <= r * r,
    ensures
        sqrt_floor(n) <= r,
{
    lemma_sqrt_floor_props(n);
    let s = sqrt_floor(n);
    if r < s {
        assert((r + 1) * (r + 1) <= s * s) by (nonlinear_arith)
            requires
                0 <= r,
                r < s,
        ;
        assert(r * r < (r + 1) * (r + 1)) by (nonlinear_arith)
            requires
                0 <= r,
        ;
    }
}

/// Any value whose square is at most `n` is at most `sqrt_floor(n)`.
pub proof fn lemma_sqrt_floor_ge(a: int, n: int)
    requires
        0 <= a,
        a * a <= n,
    ensures
        a <= sqrt_floor(n),
{
    lemma_sqrt_floor_props(n);
    let s = sqrt_floor(n);
    if s < a {
        assert((s + 1) * (s + 1) <= a * a) by (nonlinear_arith)
            requires
                0 <= s,
                s < a,
        ;
    }
}

/// Truncating division shrinks magnitudes: `|x| <= d * c` gives `|x / d| <= c`.
pub proof fn lemma_tdivs_bound(x: int, d: int, c: int)
    requires
        d >= 1,
        c >= 0,
        -(d * c) <= x <= d * c,
    ensures
        -c <= tdivs(x, d) <= c,
{
    if x >= 0 {
        assert(x / d <= c) by (nonlinear_arith)
            requires
                d >= 1,
                c >= 0,
                0 <= x <= d * c,
        ;
        assert(x / d >= 0) by (nonlinear_arith)
            requires
                d >= 1,
                x >= 0,
        ;
    } else {
        assert((-x) / d <= c) by (nonlinear_arith)
            requires
                d >= 1,
                c >= 0,
                0 <= -x <= d * c,
        ;
        assert((-x) / d >= 0) by (nonlinear_arith)
            requires
                d >= 1,
                -x >= 0,
        ;
    }
}

/// Truncating division is odd: dividing the negation negates the quotient.
pub proof fn lemma_tdivs_neg(x: int, d: int)
    requires
        d >= 1,
    ensures
        tdivs(-x, d) == -tdivs(x, d),
{
}

/// Truncating signed division of `i64` values.
pub fn tdiv64(a: i64, b: i64) -> (r: i64)
    requires
        b > 0,
        a > i64::MIN,
    ensures
        r == tdivs(a as int, b as int),
        -abs_i(a as int) <= r <= abs_i(a as int),
{
    proof {
        assert((b as int) * abs_i(a as int) >= abs_i(a as int)) by (nonlinear_arith)
            requires
                (b as int) >= 1,
                abs_i(a as int) >= 0,
        ;
        lemma_tdivs_bound(a as int, b as int, abs_i(a as int));
    }
    if a >= 0 {
        ((a as u64) / (b as u64)) as i64
    } else {
        let m: i64 = -a;
        -(((m as u64) / (b as u64)) as i64)
    }
}

/// Truncating signed division of `i128` values.
pub fn tdiv128(a: i128, b: i128) -> (r: i128)
    requires
        b > 0,
        a > i128::MIN,
    ensures
        r == tdivs(a as int, b as int),
        -abs_i(a as int) <= r <= abs_i(a as int),
{
    proof {
        assert((b as int) * abs_i(a as int) >= abs_i(a as int)) by (nonlinear_arith)
            requires
                (b as int) >= 1,
                abs_i(a as int) >= 0,
        ;
        lemma_tdivs_bound(a as int, b as int, abs_i(a as int));
    }
    if a >= 0 {
        ((a as u128) / (b as u128)) as i128
    } else {
        let m: i128 = -a;
        -(((m as u128) / (b as u128)) as i128)
    }
}

/// Floor of the square root of a 62-bit value, by bisection.
pub fn isqrt64(n: u64) -> (r: u64)
    requires
        n < 4611686018427387904,
    ensures
        r * r <= n < (r + 1) * (r + 1),
        r == sqrt_floor(n as int),
        r <= 2147483647,
{
    let mut lo: u64 = 0;
    let mut hi: u64 = 2147483648;
    proof {
        assert((2147483648u64 as int) * (2147483648u64 as int) == 4611686018427387904);
    }
    while lo + 1 < hi
        invariant
            lo < hi,
            hi <= 2147483648,
            (lo * lo) <= n,
            n < (hi * hi),
        decreases hi - lo,
    {
        let mid: u64 = lo + (hi - lo) / 2;
        proof {
            lemma_mul_le(mid as int, mid as int, 2147483648, 2147483648);
        }
        if mid * mid <= n {
            lo = mid;
        } else {
            hi = mid;
        }
    }
    proof {
        lemma_sqrt_floor_is(n as int, lo as int);
    }
    lo
}

/// The square of an `i64`, widened to `i128`.
pub fn sqr(a: i64) -> (r: i128)
    requires
        -WIDE_B <= a <= WIDE_B,
    ensures
        r == (a as int) * (a as int),
        r >= 0,
{
    proof {
        lemma_mul_le(a as int, a as int, WIDE_B as int, WIDE_B as int);
        assert((a as int) * (a as int) >= 0) by (nonlinear_arith);
    }
    (a as i128) * (a as i128)
}

/// Componentwise difference.
pub fn vsub(a: &Vec3, b: &Vec3) -> (r: Vec3)
    requires
        in_b(*a, WIDE_B as int),
        in_b(*b, WIDE_B as int),
    ensures
        v3(r) == sub3(v3(*a), v3(*b)),
        in_b(r, 2 * (WIDE_B as int)),
{
    Vec3 { x: a.x - b.x, y: a.y - b.y, z: a.z - b.z }
}

/// Componentwise negation.
pub fn vneg(a: &Vec3) -> (r: Vec3)
    requires
        in_b(*a, WIDE_B as int),
    ensures
        v3(r) == neg3(v3(*a)),
        in_b(r, WIDE_B as int),
{
    Vec3 { x: -a.x, y: -a.y, z: -a.z }
}

/// Exact dot product, widened to `i128`.
pub fn vdot(a: &Vec3, b: &Vec3) -> (r: i128)
    requires
        in_b(*a, WIDE_B as int),
        in_b(*b, WIDE_B as int),
    ensures
        r == dot3(v3(*a), v3(*b)),
{
    proof {
        lemma_mul_le(a.x as int, b.x as int, WIDE_B as int, WIDE_B as int);
        lemma_mul_le(a.y as int, b.y as int, WIDE_B as int, WIDE_B as int);
        lemma_mul_le(a.z as int, b.z as int, WIDE_B as int, WIDE_B as int);
    }
    (a.x as i128) * (b.x as i128) + (a.y as i128) * (b.y as i128) + (a.z as i128) * (b.z as i128)
}

/// Exact cross product of vectors below `CROSS_B`.
pub fn vcross(a: &Vec3, b: &Vec3) -> (r: Vec3)
    requires
        in_b(*a, CROSS_B as int),
        in_b(*b, CROSS_B as int),
    ensures
        v3(r) == cross3(v3(*a), v3(*b)),
        in_b(r, 2 * (CROSS_B as int) * (CROSS_B as int)),
{
    proof {
        lemma_mul_le(a.y as int, b.z as int, CROSS_B as int, CROSS_B as int);
        lemma_mul_le(a.z as int, b.y as int, CROSS_B as int, CROSS_B as int);
        lemma_mul_le(a.z as int, b.x as int, CROSS_B as int, CROSS_B as int);
        lemma_mul_le(a.x as int, b.z as int, CROSS_B as int, CROSS_B as int);
        lemma_mul_le(a.x as int, b.y as int, CROSS_B as int, CROSS_B as int);
        lemma_mul_le(a.y as int, b.x as int, CROSS_B as int, CROSS_B as int);
    }
    Vec3 {
        x: a.y * b.z - a.z * b.y,
        y: a.z * b.x - a.x * b.z,
        z: a.x * b.y - a.y * b.x,
    }
}

/// The deterministic scale-down applied before normalising: if some component
/// exceeds `CROSS_B`, all three are divided by the same quotient.
pub open spec fn shrink3(v: V3) -> V3 {
    let m = if abs_i(v.x) >= abs_i(v.y) && abs_i(v.x) >= abs_i(v.z) {
        abs_i(v.x)
    } else if abs_i(v.y) >= abs_i(v.z) {
        abs_i(v.y)
    } else {
        abs_i(v.z)
    };
    if m <= CROSS_B {
        v
    } else {
        let q = m / (CROSS_B as int) + 1;
        V3 { x: tdivs(v.x, q), y: tdivs(v.y, q), z: tdivs(v.z, q) }
    }
}

/// Scale a vector down so each component fits below `CROSS_B`, keeping its
/// direction to within one part in 2^30.
pub fn shrink(v: &Vec3) -> (r: Vec3)
    requires
        in_b(*v, WIDE_B as int),
    ensures
        v3(r) == shrink3(v3(*v)),
        in_b(r, CROSS_B as int),
{
    let ax: i64 = if v.x >= 0 { v.x } else { -v.x };
    let ay: i64 = if v.y >= 0 { v.y } else { -v.y };
    let az: i64 = if v.z >= 0 { v.z } else { -v.z };
    let m: i64 = if ax >= ay && ax >= az {
        ax
    } else if ay >= az {
        ay
    } else {
        az
    };
    if m <= CROSS_B {
        *v
    } else {
        let q: i64 = ((m as u64) / (CROSS_B as u64)) as i64 + 1;
        proof {
            assert((m as int) <= (q as int) * (CROSS_B as int)) by (nonlinear_arith)
                requires
                    q == (m as int) / (CROSS_B as int) + 1,
                    m >= 0,
                    (CROSS_B as int) >= 1,
            ;
            lemma_tdivs_bound(v.x as int, q as int, CROSS_B as int);
            lemma_tdivs_bound(v.y as int, q as int, CROSS_B as int);
            lemma_tdivs_bound(v.z as int, q as int, CROSS_B as int);
        }
        Vec3 { x: tdiv64(v.x, q), y: tdiv64(v.y, q), z: tdiv64(v.z, q) }
    }
}

/// The fixed-point unit vector in the direction of `v` (undefined for zero).
pub open spec fn normalize3(v: V3) -> V3 {
    let l = sqrt_floor(norm2_3(v));
    V3 {
        x: tdivs(v.x * (UNIT as int), l),
        y: tdivs(v.y * (UNIT as int), l),
        z: tdivs(v.z * (UNIT as int), l),
    }
}

pub proof fn lemma_norm2_zero(a: V3)
    requires
        norm2_3(a) == 0,
    ensures
        a == zero3(),
{
    assert(a.x * a.x >= 0 && a.y * a.y >= 0 && a.z * a.z >= 0) by (nonlinear_arith);
    assert(a.x * a.x == 0 ==> a.x == 0) by (nonlinear_arith);
    assert(a.y * a.y == 0 ==> a.y == 0) by (nonlinear_arith);
    assert(a.z * a.z == 0 ==> a.z == 0) by (nonlinear_arith);
}

/// Scale `v` to length `UNIT` (one world unit), or report that it is zero.
pub fn try_normalize(v: &Vec3) -> (r: Option<Vec3>)
    requires
        in_b(*v, CROSS_B as int),
    ensures
        r is Some <==> v3(*v) != zero3(),
        r matches Some(u) ==> v3(u) == normalize3(v3(*v)) && in_b(u, UNIT as int),
{
    let n2: i128 = vdot(v, v);
    proof {
        lemma_mul_le(v.x as int, v.x as int, CROSS_B as int, CROSS_B as int);
        lemma_mul_le(v.y as int, v.y as int, CROSS_B as int, CROSS_B as int);
        lemma_mul_le(v.z as int, v.z as int, CROSS_B as int, CROSS_B as int);
        assert(v.x as int * (v.x as int) >= 0) by (nonlinear_arith);
        assert(v.y as int * (v.y as int) >= 0) by (nonlinear_arith);
        assert(v.z as int * (v.z as int) >= 0) by (nonlinear_arith);
    }
    let l: i64 = isqrt64(n2 as u64) as i64;
    if l == 0 {
        proof {
            assert(((0int) + 1) * ((0int) + 1) == 1) by (nonlinear_arith);
            assert(n2 == 0);
            lemma_norm2_zero(v3(*v));
        }
        None
    } else {
        proof {
            assert(v3(*v) != zero3()) by {
                if v3(*v) == zero3() {
                    assert(norm2_3(v3(*v)) == 0);
                    assert(((0int) + 1) * ((0int) + 1) == 1) by (nonlinear_arith);
                    assert((0int) * (0int) <= 0);
                    lemma_sqrt_floor_is(0, 0);
                }
            }
            assert(v.x as int * (v.x as int) <= n2 as int);
            assert(v.y as int * (v.y as int) <= n2 as int);
            assert(v.z as int * (v.z as int) <= n2 as int);
            assert((-(v.x as int)) * (-(v.x as int)) == (v.x as int) * (v.x as int))
                by (nonlinear_arith);
            assert((-(v.y as int)) * (-(v.y as int)) == (v.y as int) * (v.y as int))
                by (nonlinear_arith);
            assert((-(v.z as int)) * (-(v.z as int)) == (v.z as int) * (v.z as int))
                by (nonlinear_arith);
            lemma_sqrt_floor_ge(abs_i(v.x as int), n2 as int);
            lemma_sqrt_floor_ge(abs_i(v.y as int), n2 as int);
            lemma_sqrt_floor_ge(abs_i(v.z as int), n2 as int);
            lemma_mul_le(v.x as int, UNIT as int, CROSS_B as int, UNIT as int);
            lemma_mul_le(v.y as int, UNIT as int, CROSS_B as int, UNIT as int);
            lemma_mul_le(v.z as int, UNIT as int, CROSS_B as int, UNIT as int);
            assert(abs_i(v.x as int) * (UNIT as int) <= (l as int) * (UNIT as int))
                by (nonlinear_arith)
                requires
                    abs_i(v.x as int) <= l as int,
                    (UNIT as int) > 0,
            ;
            assert(abs_i(v.y as int) * (UNIT as int) <= (l as int) * (UNIT as int))
                by (nonlinear_arith)
                requires
                    abs_i(v.y as int) <= l as int,
                    (UNIT as int) > 0,
            ;
            assert(abs_i(v.z as int) * (UNIT as int) <= (l as int) * (UNIT as int))
                by (nonlinear_arith)
                requires
                    abs_i(v.z as int) <= l as int,
                    (UNIT as int) > 0,
            ;
            assert(v.x as int * (UNIT as int) <= abs_i(v.x as int) * (UNIT as int)
                && -(abs_i(v.x as int) * (UNIT as int)) <= v.x as int * (UNIT as int))
                by (nonlinear_arith)
                requires
                    (UNIT as int) > 0,
            ;
            assert(v.y as int * (UNIT as int) <= abs_i(v.y as int) * (UNIT as int)
                && -(abs_i(v.y as int) * (UNIT as int)) <= v.y as int * (UNIT as int))
                by (nonlinear_arith)
                requires
                    (UNIT as int) > 0,
            ;
            assert(v.z as int * (UNIT as int) <= abs_i(v.z as int) * (UNIT as int)
                && -(abs_i(v.z as int) * (UNIT as int)) <= v.z as int * (UNIT as int))
                by (nonlinear_arith)
                requires
                    (UNIT as int) > 0,
            ;
            lemma_tdivs_bound(v.x as int * (UNIT as int), l as int, UNIT as int);
            lemma_tdivs_bound(v.y as int * (UNIT as int), l as int, UNIT as int);
            lemma_tdivs_bound(v.z as int * (UNIT as int), l as int, UNIT as int);
        }
        let ux: i64 = tdiv64(v.x * UNIT, l);
        let uy: i64 = tdiv64(v.y * UNIT, l);
        let uz: i64 = tdiv64(v.z * UNIT, l);
        Some(Vec3 { x: ux, y: uy, z: uz })
    }
}

} // verus!
