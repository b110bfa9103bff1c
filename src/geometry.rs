//! Fixed-point 2D geometry. World coordinates are integers in thousandths of
//! a world unit, bounded in magnitude by `LIMIT`.
use vstd::prelude::*;

verus! {

/// Fixed-point units per world unit.
pub const SCALE: i64 = 1000;

/// Largest magnitude that any coordinate or velocity component may take.
pub const LIMIT: i64 = 1_000_000_000_000;

/// A point or vector in the plane, in fixed-point units.
#[derive(Clone, Copy, Debug, PartialEq, Eq, Structural)]
pub struct Point {
    pub x: i64,
    pub y: i64,
}

pub open spec fn bounded(v: int) -> bool {
    -LIMIT <= v <= LIMIT
}

pub open spec fn point_bounded(p: Point) -> bool {
    bounded(p.x as int) && bounded(p.y as int)
}

/// Saturates `v` into `[-LIMIT, LIMIT]`.
pub open spec fn clamp(v: int) -> int {
    if v < -LIMIT {
        -LIMIT as int
    } else if v > LIMIT {
        LIMIT as int
    } else {
        v
    }
}

/// Integer division of `a` by a positive `b`, rounding toward zero.
pub open spec fn div_trunc(a: int, b: int) -> int
    recommends
        b > 0,
{
    if a >= 0 {
        a / b
    } else {
        -((-a) / b)
    }
}

/// Squared Euclidean distance between two points.
pub open spec fn dist2(a: Point, b: Point) -> int {
    (a.x - b.x) * (a.x - b.x) + (a.y - b.y) * (a.y - b.y)
}

/// `r` is the integer square root of `n`.
pub open spec fn is_isqrt(n: int, r: int) -> bool {
    0 <= r && r * r <= n && n < (r + 1) * (r + 1)
}

/// The integer square root of a non-negative `n`.
pub open spec fn sqrt_floor(n: int) -> int {
    choose|r: int| is_isqrt(n, r)
}

/// The integer square root is unique.
pub proof fn lemma_isqrt_unique(n: int, r1: int, r2: int)
    requires
        is_isqrt(n, r1),
        is_isqrt(n, r2),
    ensures
        r1 == r2,
{
    if r1 < r2 {
        assert((r1 + 1) * (r1 + 1) <= r2 * r2) by (nonlinear_arith)
            requires
                0 <= r1 + 1 <= r2,
        ;
    } else if r2 < r1 {
        assert((r2 + 1) * (r2 + 1) <= r1 * r1) by (nonlinear_arith)
            requires
                0 <= r2 + 1 <= r1,
        ;
    }
}

/// A vector of magnitude about `k` pointing along `d`, each component rounded
/// toward zero; the zero vector where `d` is zero.
pub open spec fn pull_along(d: Point, len: int, k: int) -> Point {
    if d.x == 0 && d.y == 0 {
        Point { x: 0, y: 0 }
    } else {
        Point { x: div_trunc(d.x * k, len) as i64, y: div_trunc(d.y * k, len) as i64 }
    }
}

/// The vector of magnitude about `k` pointing from `from` toward `to`; zero
/// where the two points coincide.
pub open spec fn pull_toward(from: Point, to: Point, k: int) -> Point {
    pull_along(sub_spec(to, from), sqrt_floor(dist2(from, to)), k)
}

pub open spec fn sub_spec(a: Point, b: Point) -> Point {
    Point { x: (a.x - b.x) as i64, y: (a.y - b.y) as i64 }
}

pub open spec fn add_clamped_spec(a: Point, b: Point) -> Point {
    Point { x: clamp(a.x + b.x) as i64, y: clamp(a.y + b.y) as i64 }
}

/// Adds two bounded values, saturating at `LIMIT`.
pub fn add_clamped(a: i64, b: i64) -> (r: i64)
    requires
        bounded(a as int),
        bounded(b as int),
    ensures
        r == clamp(a + b),
        bounded(r as int),
{
    let s = a + b;
    if s < -LIMIT {
        -LIMIT
    } else if s > LIMIT {
        LIMIT
    } else {
        s
    }
}

/// Component-wise saturating sum of two bounded vectors.
pub fn add_points(a: Point, b: Point) -> (r: Point)
    requires
        point_bounded(a),
        point_bounded(b),
    ensures
        r == add_clamped_spec(a, b),
        point_bounded(r),
{
    Point { x: add_clamped(a.x, b.x), y: add_clamped(a.y, b.y) }
}

/// Difference `a - b` of two bounded points.
pub fn sub_points(a: Point, b: Point) -> (r: Point)
    requires
        point_bounded(a),
        point_bounded(b),
    ensures
        r == sub_spec(a, b),
{
    Point { x: a.x - b.x, y: a.y - b.y }
}

/// Squared distance between two bounded points.
pub fn distance_squared(a: Point, b: Point) -> (r: u128)
    requires
        point_bounded(a),
        point_bounded(b),
    ensures
        r == dist2(a, b),
        r <= 8 * LIMIT * LIMIT,
{
    let dx = (a.x as i128) - (b.x as i128);
    let dy = (a.y as i128) - (b.y as i128);
    assert(0 <= dx * dx <= 4 * LIMIT * LIMIT) by (nonlinear_arith)
        requires
            -2 * LIMIT <= dx <= 2 * LIMIT,
    ;
    assert(0 <= dy * dy <= 4 * LIMIT * LIMIT) by (nonlinear_arith)
        requires
            -2 * LIMIT <= dy <= 2 * LIMIT,
    ;
    let s = dx * dx + dy * dy;
    s as u128
}

/// Integer square root: the largest `r` with `r * r <= n`.
pub fn isqrt(n: u128) -> (r: u64)
    requires
        n < 0x4000_0000_0000_0000_0000_0000_0000_0000,
    ensures
        is_isqrt(n as int, r as int),
        r == sqrt_floor(n as int),
{
    let mut lo: u128 = 0;
    let mut hi: u128 = 0x8000_0000_0000_0000;
    assert(hi * hi == 0x4000_0000_0000_0000_0000_0000_0000_0000) by (nonlinear_arith)
        requires
            hi == 0x8000_0000_0000_0000,
    ;
    while hi - lo > 1
        invariant
            lo < hi <= 0x8000_0000_0000_0000,
            lo * lo <= n,
            n < hi * hi,
        decreases hi - lo,
    {
        let mid = lo + (hi - lo) / 2;
        assert(mid * mid < 0x4000_0000_0000_0000_0000_0000_0000_0000) by (nonlinear_arith)
            requires
                mid < 0x8000_0000_0000_0000,
        ;
        if mid * mid <= n {
            lo = mid;
        } else {
            hi = mid;
        }
    }
    proof {
        lemma_isqrt_unique(n as int, lo as int, sqrt_floor(n as int));
    }
    lo as u64
}

/// Largest pull factor accepted by `pull`.
pub const MAX_PULL: i64 = 1_000_000;

/// A component of a vector bounded by its length `len` stays within `k` once
/// scaled by `k / len`.
proof fn lemma_scaled_component(a: int, len: int, k: int)
    requires
        -len <= a <= len,
        len > 0,
        0 <= k,
    ensures
        -k <= div_trunc(a * k, len) <= k,
{
    if a >= 0 {
        assert(0 <= a * k <= len * k) by (nonlinear_arith)
            requires
                0 <= a <= len,
                0 <= k,
        ;
        assert((a * k) / len <= (len * k) / len) by (nonlinear_arith)
            requires
                0 <= a * k <= len * k,
                len > 0,
        ;
        assert((len * k) / len == k) by (nonlinear_arith)
            requires
                len > 0,
        ;
    } else {
        assert(0 <= (-a) * k <= len * k) by (nonlinear_arith)
            requires
                0 <= -a <= len,
                0 <= k,
        ;
        assert(((-a) * k) / len <= (len * k) / len) by (nonlinear_arith)
            requires
                0 <= (-a) * k <= len * k,
                len > 0,
        ;
        assert((len * k) / len == k) by (nonlinear_arith)
            requires
                len > 0,
        ;
        assert(-(a * k) == (-a) * k) by (nonlinear_arith);
    }
}

/// A component whose square is at most `n` is at most `sqrt_floor(n)`.
proof fn lemma_component_below_root(a: int, n: int, r: int)
    requires
        a * a <= n,
        is_isqrt(n, r),
    ensures
        -r <= a <= r,
{
    if a > r {
        assert((r + 1) * (r + 1) <= a * a) by (nonlinear_arith)
            requires
                0 <= r + 1 <= a,
        ;
    } else if a < -r {
        assert((r + 1) * (r + 1) <= a * a) by (nonlinear_arith)
            requires
                0 <= r + 1 <= -a,
        ;
    }
}

/// `a * k / b`, rounded toward zero.
fn scale_toward_zero(a: i64, k: i64, b: i64) -> (r: i64)
    requires
        -2 * LIMIT <= a <= 2 * LIMIT,
        0 <= k <= MAX_PULL,
        b > 0,
    ensures
        r == div_trunc(a * k, b as int),
{
    assert(-2 * LIMIT * MAX_PULL <= a * k <= 2 * LIMIT * MAX_PULL) by (nonlinear_arith)
        requires
            -2 * LIMIT <= a <= 2 * LIMIT,
            0 <= k <= MAX_PULL,
    ;
    let p = a * k;
    if p >= 0 {
        p / b
    } else {
        -((-p) / b)
    }
}

/// The vector of magnitude about `k` pointing from `from` toward `to`: the
/// direction normalised, then scaled by `k`. Coinciding points give zero.
pub fn pull(from: Point, to: Point, k: i64) -> (r: Point)
    requires
        point_bounded(from),
        point_bounded(to),
        0 <= k <= MAX_PULL,
    ensures
        r == pull_toward(from, to, k as int),
        -k <= r.x <= k,
        -k <= r.y <= k,
{
    let d = sub_points(to, from);
    if d.x == 0 && d.y == 0 {
        return Point { x: 0, y: 0 };
    }
    let n = distance_squared(from, to);
    let len = isqrt(n);
    proof {
        assert(dist2(from, to) == d.x * d.x + d.y * d.y) by (nonlinear_arith)
            requires
                d.x == to.x - from.x,
                d.y == to.y - from.y,
        ;
        assert(d.x * d.x >= 0 && d.y * d.y >= 0) by (nonlinear_arith);
        assert(d.x * d.x >= 1 || d.y * d.y >= 1) by (nonlinear_arith)
            requires
                d.x != 0 || d.y != 0,
        ;
        assert(0 < len <= 3 * LIMIT) by (nonlinear_arith)
            requires
                len * len <= n,
                n < (len + 1) * (len + 1),
                1 <= n <= 8 * LIMIT * LIMIT,
        ;
        lemma_component_below_root(d.x as int, n as int, len as int);
        lemma_component_below_root(d.y as int, n as int, len as int);
        lemma_scaled_component(d.x as int, len as int, k as int);
        lemma_scaled_component(d.y as int, len as int, k as int);
    }
    let x = scale_toward_zero(d.x, k, len as i64);
    let y = scale_toward_zero(d.y, k, len as i64);
    Point { x, y }
}

/// Euclidean distance between two bounded points, rounded down.
pub fn distance(a: Point, b: Point) -> (r: u64)
    requires
        point_bounded(a),
        point_bounded(b),
    ensures
        is_isqrt(dist2(a, b), r as int),
{
    isqrt(distance_squared(a, b))
}

/// Midpoint of two bounded points, each component rounded toward zero.
pub fn midpoint(a: Point, b: Point) -> (r: Point)
    requires
        point_bounded(a),
        point_bounded(b),
    ensures
        r.x == div_trunc(a.x + b.x, 2),
        r.y == div_trunc(a.y + b.y, 2),
        point_bounded(r),
{
    Point { x: halve(a.x + b.x), y: halve(a.y + b.y) }
}

fn halve(v: i64) -> (r: i64)
    requires
        -2 * LIMIT <= v <= 2 * LIMIT,
    ensures
        r == div_trunc(v as int, 2),
{
    if v >= 0 {
        v / 2
    } else {
        -((-v) / 2)
    }
}

} // verus!
