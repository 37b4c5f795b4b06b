//! Fixed-point plane geometry shared by every stage of the tick.
//!
//! Coordinates are integers: one world unit is `SUBUNITS` steps, and the
//! playing field is the square whose half side is `WORLD_EDGE` steps.
use vstd::prelude::*;

verus! {

/// Number of coordinate steps in one world unit.
pub const SUBUNITS: i64 = 1000;

/// Largest coordinate magnitude of a point on the playing field.
pub const WORLD_EDGE: i64 = 1_000_000_000_000;

/// A point or a vector of the plane, in coordinate steps.
#[derive(Clone, Copy, Debug, PartialEq, Eq, Structural)]
pub struct Point {
    pub x: i64,
    pub y: i64,
}

/// The point lies on the playing field.
pub open spec fn in_world(p: Point) -> bool {
    -WORLD_EDGE <= p.x <= WORLD_EDGE && -WORLD_EDGE <= p.y <= WORLD_EDGE
}

/// `n / d` rounded toward zero (for `d > 0`), as integer division does.
pub open spec fn div_trunc(n: int, d: int) -> int {
    if n >= 0 {
        n / d
    } else {
        -((-n) / d)
    }
}

/// `r` is the integer square root of `n`, rounded down.
pub open spec fn is_floor_sqrt(n: int, r: int) -> bool {
    0 <= r && r * r <= n < (r + 1) * (r + 1)
}

/// The integer square root of `n`, rounded down.
pub open spec fn floor_sqrt(n: int) -> int {
    choose|r: int| is_floor_sqrt(n, r)
}

/// Squared Euclidean length of the vector `(x, y)`.
pub open spec fn norm_sq(x: int, y: int) -> int {
    x * x + y * y
}

/// Size to which `rescaled` magnifies a vector before taking its length.
pub const MAGNIFIED: i64 = 1_099_511_627_776;

/// Magnitude of an integer.
pub open spec fn abs_of(v: int) -> int {
    if v >= 0 { v } else { -v }
}

/// The factor that brings the longer coordinate of a non-zero vector `(x, y)`
/// to at least `MAGNIFIED / 2`; a vector at least that long is kept as it is.
pub open spec fn magnifier(x: int, y: int) -> int {
    let m = if abs_of(x) >= abs_of(y) { abs_of(x) } else { abs_of(y) };
    if m >= MAGNIFIED { 1 } else { (MAGNIFIED as int) / m }
}

/// The vector `(x, y)` rescaled to length `l`, each coordinate rounded toward
/// zero. The vector is first magnified by `magnifier(x, y)`, so that its
/// rounded-down length (`floor_sqrt` of its squared length) is at least
/// `MAGNIFIED / 2` and misses the true length by less than one part in 2^39:
/// short vectors are rescaled as accurately as long ones. The zero vector has
/// no direction and stays zero.
pub open spec fn rescaled(x: int, y: int, l: int) -> (int, int) {
    if x == 0 && y == 0 {
        (0, 0)
    } else {
        let k = magnifier(x, y);
        let len = floor_sqrt(norm_sq(x * k, y * k));
        (div_trunc((x * k) * l, len), div_trunc((y * k) * l, len))
    }
}

/// Largest argument accepted by `isqrt`.
pub const SQRT_INPUT_MAX: u128 = 1_000_000_000_000_000_000_000_000_000_000;

proof fn lemma_floor_sqrt_unique(n: int, r1: int, r2: int)
    requires
        is_floor_sqrt(n, r1),
        is_floor_sqrt(n, r2),
    ensures
        r1 == r2,
{
    if r1 < r2 {
        assert((r1 + 1) * (r1 + 1) <= r2 * r2) by (nonlinear_arith)
            requires
                0 <= r1,
                r1 + 1 <= r2,
        ;
    } else if r2 < r1 {
        assert((r2 + 1) * (r2 + 1) <= r1 * r1) by (nonlinear_arith)
            requires
                0 <= r2,
                r2 + 1 <= r1,
        ;
    }
}

/// Any witness of the rounded-down root is the one `floor_sqrt` names.
pub proof fn lemma_floor_sqrt_is(n: int, r: int)
    requires
        is_floor_sqrt(n, r),
    ensures
        floor_sqrt(n) == r,
{
    let c = floor_sqrt(n);
    assert(is_floor_sqrt(n, c));
    lemma_floor_sqrt_unique(n, r, c);
}

/// A number whose square does not exceed `n` is at most its rounded-down root.
pub proof fn lemma_le_floor_sqrt(n: int, r: int, a: int)
    requires
        is_floor_sqrt(n, r),
        0 <= a,
        a * a <= n,
    ensures
        a <= r,
{
    if a > r {
        assert((r + 1) * (r + 1) <= a * a) by (nonlinear_arith)
            requires
                0 <= r,
                r + 1 <= a,
        ;
    }
}

/// Integer square root, rounded down.
pub fn isqrt(n: u128) -> (r: u128)
    requires
        n <= SQRT_INPUT_MAX,
    ensures
        is_floor_sqrt(n as int, r as int),
        r as int == floor_sqrt(n as int),
        r <= 1_000_000_000_000_000,
{
    let mut lo: u128 = 0;
    let mut hi: u128 = 1_000_000_000_000_001;
    assert(n < hi * hi) by (nonlinear_arith)
        requires
            n <= SQRT_INPUT_MAX,
            hi == 1_000_000_000_000_001u128,
    ;
    while hi - lo > 1
        invariant
            lo < hi <= 1_000_000_000_000_001,
            lo * lo <= n,
            n < hi * hi,
        decreases hi - lo,
    {
        let mid: u128 = lo + (hi - lo) / 2;
        assert(mid * mid <= 1_000_000_000_000_001u128 * 1_000_000_000_000_001u128) by (nonlinear_arith)
            requires
                mid <= 1_000_000_000_000_001u128,
        ;
        if mid * mid <= n {
            lo = mid;
        } else {
            hi = mid;
        }
    }
    assert(hi == lo + 1);
    proof {
        lemma_floor_sqrt_is(n as int, lo as int);
    }
    lo
}

/// Largest coordinate magnitude of a vector handed to `rescale`.
pub const VECTOR_MAX: i64 = 8_000_000_000_000;

/// Largest magnitude of a numerator handed to `div_toward_zero`.
pub const NUMERATOR_MAX: i128 = 100_000_000_000_000_000_000_000_000;

/// `n / d` rounded toward zero.
pub fn div_toward_zero(n: i128, d: u128) -> (q: i128)
    requires
        0 < d,
        -NUMERATOR_MAX <= n <= NUMERATOR_MAX,
    ensures
        q as int == div_trunc(n as int, d as int),
        n >= 0 ==> 0 <= q <= n,
        n < 0 ==> n <= q <= 0,
{
    if n >= 0 {
        let m: u128 = n as u128;
        assert(m / d <= m) by (nonlinear_arith)
            requires
                0 < d,
        ;
        (m / d) as i128
    } else {
        let m: u128 = (-n) as u128;
        assert(m / d <= m) by (nonlinear_arith)
            requires
                0 < d,
        ;
        -((m / d) as i128)
    }
}

/// A coordinate never exceeds the rounded-down length of its vector.
pub proof fn lemma_coord_le_length(x: int, y: int)
    ensures
        x * x <= norm_sq(x, y),
        y * y <= norm_sq(x, y),
        -floor_sqrt(norm_sq(x, y)) <= x <= floor_sqrt(norm_sq(x, y)),
        -floor_sqrt(norm_sq(x, y)) <= y <= floor_sqrt(norm_sq(x, y)),
        (x != 0 || y != 0) ==> floor_sqrt(norm_sq(x, y)) >= 1,
{
    let n = norm_sq(x, y);
    assert(x * x >= 0 && y * y >= 0 && (-x) * (-x) == x * x && (-y) * (-y) == y * y) by (nonlinear_arith);
    assert(x != 0 ==> x * x >= 1) by (nonlinear_arith);
    assert(y != 0 ==> y * y >= 1) by (nonlinear_arith);
    assert(exists|r: int| is_floor_sqrt(n, r)) by {
        lemma_floor_sqrt_exists(n);
    }
    let r = floor_sqrt(n);
    if x >= 0 {
        lemma_le_floor_sqrt(n, r, x);
    } else {
        lemma_le_floor_sqrt(n, r, -x);
    }
    if y >= 0 {
        lemma_le_floor_sqrt(n, r, y);
    } else {
        lemma_le_floor_sqrt(n, r, -y);
    }
    if x != 0 || y != 0 {
        if r == 0 {
            assert(false);
        }
    }
}

/// Every non-negative integer has a rounded-down square root.
pub proof fn lemma_floor_sqrt_exists(n: int)
    requires
        0 <= n,
    ensures
        is_floor_sqrt(n, floor_sqrt(n)),
    decreases n,
{
    if n == 0 {
        assert(is_floor_sqrt(0, 0));
    } else {
        lemma_floor_sqrt_exists(n - 1);
        let r = floor_sqrt(n - 1);
        if (r + 1) * (r + 1) <= n {
            assert((r + 1) * (r + 1) == n) by (nonlinear_arith)
                requires
                    r * r <= n - 1 < (r + 1) * (r + 1),
                    (r + 1) * (r + 1) <= n,
            ;
            assert((r + 2) * (r + 2) > n) by (nonlinear_arith)
                requires
                    (r + 1) * (r + 1) == n,
                    0 <= r,
            ;
            assert(is_floor_sqrt(n, r + 1));
        } else {
            assert(is_floor_sqrt(n, r));
        }
    }
}

/// Magnitude of a coordinate no larger than `VECTOR_MAX`.
fn magnitude_of(v: i64) -> (r: u64)
    requires
        -VECTOR_MAX <= v <= VECTOR_MAX,
    ensures
        r as int == abs_of(v as int),
{
    if v >= 0 {
        v as u64
    } else {
        (-v) as u64
    }
}

/// A magnified coordinate stays within `VECTOR_MAX`.
proof fn lemma_magnified_bounded(c: int, m: int, k: int)
    requires
        abs_of(c) <= m <= VECTOR_MAX,
        0 < m,
        k == (if m >= MAGNIFIED { 1 } else { (MAGNIFIED as int) / m }),
    ensures
        -VECTOR_MAX <= c * k <= VECTOR_MAX,
        k >= 1,
{
    if m >= MAGNIFIED {
        assert(c * k == c);
    } else {
        let p = MAGNIFIED as int;
        assert(m * (p / m) <= p) by (nonlinear_arith)
            requires
                0 < m,
                0 < p,
        ;
        assert(p / m >= 1) by (nonlinear_arith)
            requires
                0 < m < p,
        ;
        assert(abs_of(c) * k <= m * k) by (nonlinear_arith)
            requires
                0 <= abs_of(c) <= m,
                k >= 1,
        ;
        assert(c * k == abs_of(c) * k || c * k == -(abs_of(c) * k)) by (nonlinear_arith)
            requires
                abs_of(c) == (if c >= 0 { c } else { -c }),
        ;
    }
}

/// The vector `v` rescaled to length `l`, rounding toward zero (see
/// `rescaled`).
pub fn rescale(v: Point, l: i64) -> (r: Point)
    requires
        -VECTOR_MAX <= v.x <= VECTOR_MAX,
        -VECTOR_MAX <= v.y <= VECTOR_MAX,
        0 <= l <= WORLD_EDGE,
    ensures
        r.x as int == rescaled(v.x as int, v.y as int, l as int).0,
        r.y as int == rescaled(v.x as int, v.y as int, l as int).1,
        -l <= r.x <= l,
        -l <= r.y <= l,
{
    if v.x == 0 && v.y == 0 {
        return v;
    }
    let ax: u64 = magnitude_of(v.x);
    let ay: u64 = magnitude_of(v.y);
    let m: u64 = if ax >= ay { ax } else { ay };
    let k: i64 = if m >= MAGNIFIED as u64 { 1 } else { (MAGNIFIED as u64 / m) as i64 };
    proof {
        lemma_magnified_bounded(v.x as int, m as int, k as int);
        lemma_magnified_bounded(v.y as int, m as int, k as int);
    }
    let x: i128 = (v.x as i128) * (k as i128);
    let y: i128 = (v.y as i128) * (k as i128);
    assert(x != 0 || y != 0) by (nonlinear_arith)
        requires
            v.x != 0 || v.y != 0,
            k >= 1,
            x == v.x * k,
            y == v.y * k,
    ;
    assert(x * x <= 64_000_000_000_000_000_000_000_000 && y * y <= 64_000_000_000_000_000_000_000_000) by (nonlinear_arith)
        requires
            -8_000_000_000_000 <= x <= 8_000_000_000_000,
            -8_000_000_000_000 <= y <= 8_000_000_000_000,
    ;
    proof {
        lemma_coord_le_length(x as int, y as int);
    }
    let n: u128 = (x * x + y * y) as u128;
    let len: u128 = isqrt(n);
    let li: i128 = l as i128;
    assert(-NUMERATOR_MAX <= x * li <= NUMERATOR_MAX && -NUMERATOR_MAX <= y * li <= NUMERATOR_MAX) by (nonlinear_arith)
        requires
            -8_000_000_000_000 <= x <= 8_000_000_000_000,
            -8_000_000_000_000 <= y <= 8_000_000_000_000,
            0 <= li <= 1_000_000_000_000,
    ;
    let lx: i128 = x * li;
    let ly: i128 = y * li;
    let qx: i128 = div_toward_zero(lx, len);
    let qy: i128 = div_toward_zero(ly, len);
    proof {
        lemma_quotient_bounded(x as int, l as int, len as int);
        lemma_quotient_bounded(y as int, l as int, len as int);
    }
    Point { x: qx as i64, y: qy as i64 }
}

/// `c * l / len` rounded toward zero stays within `l` when `|c| <= len`.
pub proof fn lemma_quotient_bounded(c: int, l: int, len: int)
    requires
        0 <= l,
        0 < len,
        -len <= c <= len,
    ensures
        -l <= div_trunc(c * l, len) <= l,
{
    if c >= 0 {
        assert((c * l) / len <= l) by (nonlinear_arith)
            requires
                0 <= c <= len,
                0 <= l,
                0 < len,
        ;
        assert(c * l >= 0) by (nonlinear_arith)
            requires
                0 <= c,
                0 <= l,
        ;
        assert((c * l) / len >= 0) by (nonlinear_arith)
            requires
                c * l >= 0,
                0 < len,
        ;
    } else {
        assert(-(c * l) == (-c) * l) by (nonlinear_arith);
        assert(((-c) * l) / len <= l) by (nonlinear_arith)
            requires
                0 <= -c <= len,
                0 <= l,
                0 < len,
        ;
        assert((-c) * l >= 0) by (nonlinear_arith)
            requires
                0 <= -c,
                0 <= l,
        ;
        assert(((-c) * l) / len >= 0) by (nonlinear_arith)
            requires
                (-c) * l >= 0,
                0 < len,
        ;
        if c * l >= 0 {
            assert(c * l == 0);
        }
    }
}

} // verus!
