//! Fixed-point geometry: points in whole millimetres, and distances that
//! compare with whole thresholds as the true distances do.

use vstd::prelude::*;

verus! {

/// A point or displacement in space, each coordinate in millimetres.
#[derive(Clone, Copy, Debug, PartialEq, Eq, Structural)]
pub struct Vector3 {
    pub x: i32,
    pub y: i32,
    pub z: i32,
}

/// The square of the Euclidean distance between `a` and `b`.
pub open spec fn distance_squared(a: Vector3, b: Vector3) -> nat {
    ((a.x - b.x) * (a.x - b.x) + (a.y - b.y) * (a.y - b.y) + (a.z - b.z) * (a.z - b.z)) as nat
}

/// `r` is the integer square root of `n`: the largest integer whose square
/// does not exceed `n`.
pub open spec fn is_floor_sqrt(n: nat, r: nat) -> bool {
    r * r <= n < (r + 1) * (r + 1)
}

/// The integer square root of `n`.
pub open spec fn floor_sqrt(n: nat) -> nat {
    choose|r: nat| is_floor_sqrt(n, r)
}

/// Squaring is monotone on the naturals.
pub proof fn lemma_square_monotone(a: nat, b: nat)
    requires
        a <= b,
    ensures
        a * a <= b * b,
{
    assert(a * a <= b * b) by (nonlinear_arith)
        requires
            a <= b,
    ;
}

/// A natural number has at most one integer square root: whatever passes
/// for one is the one.
pub proof fn lemma_floor_sqrt_unique(n: nat, r: nat)
    requires
        is_floor_sqrt(n, r),
    ensures
        floor_sqrt(n) == r,
{
    let s = floor_sqrt(n);
    assert(is_floor_sqrt(n, s));
    if s < r {
        lemma_square_monotone(s + 1, r);
    } else if r < s {
        lemma_square_monotone(r + 1, s);
    }
}

/// Every natural number has an integer square root.
pub proof fn lemma_floor_sqrt_is_root(n: nat)
    ensures
        is_floor_sqrt(n, floor_sqrt(n)),
    decreases n,
{
    if n == 0 {
        assert(is_floor_sqrt(0, 0)) by (nonlinear_arith);
    } else {
        lemma_floor_sqrt_is_root((n - 1) as nat);
        let r = floor_sqrt((n - 1) as nat);
        if (r + 1) * (r + 1) <= n {
            assert((r + 1) * (r + 1) < (r + 1 + 1) * (r + 1 + 1)) by (nonlinear_arith);
            assert(is_floor_sqrt(n, r + 1));
        } else {
            assert(is_floor_sqrt(n, r));
        }
    }
}

/// Computes the integer square root of `n` by bisection.
pub fn isqrt(n: u128) -> (r: u64)
    ensures
        is_floor_sqrt(n as nat, r as nat),
        r == floor_sqrt(n as nat),
{
    let mut lo: u128 = 0;
    let mut hi: u128 = 0x1_0000_0000_0000_0000;
    assert(hi * hi > n) by (nonlinear_arith)
        requires
            hi == 0x1_0000_0000_0000_0000u128,
            n <= u128::MAX,
    ;
    while hi - lo > 1
        invariant
            lo < hi <= 0x1_0000_0000_0000_0000,
            lo * lo <= n < hi * hi,
        decreases hi - lo,
    {
        let mid: u128 = lo + (hi - lo) / 2;
        assert(mid * mid < 0x1_0000_0000_0000_0000_0000_0000_0000_0000) by (nonlinear_arith)
            requires
                mid < 0x1_0000_0000_0000_0000u128,
        ;
        if mid * mid <= n {
            lo = mid;
        } else {
            hi = mid;
        }
    }
    proof {
        lemma_floor_sqrt_unique(n as nat, lo as nat);
    }
    lo as u64
}

/// The square root of `n` rounded up: the smallest integer whose square is
/// at least `n`.
pub open spec fn ceil_sqrt(n: nat) -> nat {
    if floor_sqrt(n) * floor_sqrt(n) == n {
        floor_sqrt(n)
    } else {
        floor_sqrt(n) + 1
    }
}

/// A root rounded up exceeds a whole number exactly when the root itself
/// does, that is when `n` exceeds the square of that number.
pub proof fn lemma_ceil_sqrt_exceeds(n: nat, t: nat)
    ensures
        ceil_sqrt(n) > t <==> n > t * t,
{
    let r = floor_sqrt(n);
    lemma_floor_sqrt_is_root(n);
    if r < t {
        lemma_square_monotone(r + 1, t);
    } else {
        lemma_square_monotone(t, r);
        if r > t {
            lemma_square_monotone(t + 1, r);
            assert(t * t < (t + 1) * (t + 1)) by (nonlinear_arith);
        }
    }
}

/// The Euclidean distance between `a` and `b`, rounded up to a whole number
/// of millimetres.
pub open spec fn euclidean_distance(a: Vector3, b: Vector3) -> nat {
    ceil_sqrt(distance_squared(a, b))
}

/// The farthest apart that two points can be, in millimetres: the diagonal
/// of the whole space, rounded up.
pub const MAX_DISTANCE: u64 = 7_439_101_572;

/// A distance exceeds a whole threshold exactly when the true distance
/// does.
pub proof fn lemma_distance_exceeds(a: Vector3, b: Vector3, threshold: nat)
    ensures
        euclidean_distance(a, b) > threshold <==> distance_squared(a, b) > threshold * threshold,
{
    lemma_ceil_sqrt_exceeds(distance_squared(a, b), threshold);
}

/// No two points are farther apart than the diagonal of the space.
pub proof fn lemma_distance_bounded(a: Vector3, b: Vector3)
    ensures
        euclidean_distance(a, b) <= MAX_DISTANCE,
{
    let n = distance_squared(a, b);
    let r = euclidean_distance(a, b);
    let dx = a.x - b.x;
    let dy = a.y - b.y;
    let dz = a.z - b.z;
    assert(0 <= dx * dx <= 0xffff_ffff * 0xffff_ffff) by (nonlinear_arith)
        requires
            -0xffff_ffff <= dx <= 0xffff_ffff,
    ;
    assert(0 <= dy * dy <= 0xffff_ffff * 0xffff_ffff) by (nonlinear_arith)
        requires
            -0xffff_ffff <= dy <= 0xffff_ffff,
    ;
    assert(0 <= dz * dz <= 0xffff_ffff * 0xffff_ffff) by (nonlinear_arith)
        requires
            -0xffff_ffff <= dz <= 0xffff_ffff,
    ;
    assert(n == dx * dx + dy * dy + dz * dz);
    lemma_ceil_sqrt_exceeds(n, MAX_DISTANCE as nat);
    assert(MAX_DISTANCE * MAX_DISTANCE >= 3 * (0xffff_ffff * 0xffff_ffff)) by (nonlinear_arith)
        requires
            MAX_DISTANCE == 7_439_101_572,
    ;
}

/// The coordinate halfway between `a` and `b`, rounded towards negative
/// infinity.
pub open spec fn midpoint_coordinate(a: int, b: int) -> int {
    (a + b) / 2
}

/// The point halfway between `a` and `b`.
pub open spec fn midpoint(a: Vector3, b: Vector3) -> Vector3 {
    Vector3 {
        x: midpoint_coordinate(a.x as int, b.x as int) as i32,
        y: midpoint_coordinate(a.y as int, b.y as int) as i32,
        z: midpoint_coordinate(a.z as int, b.z as int) as i32,
    }
}

/// The square of the difference of two coordinates.
fn squared_difference(a: i32, b: i32) -> (s: u128)
    ensures
        s == (a - b) * (a - b),
        s <= 0xffff_ffff * 0xffff_ffff,
{
    let wide_a: i64 = a as i64;
    let wide_b: i64 = b as i64;
    let gap: u64 = if wide_a >= wide_b {
        (wide_a - wide_b) as u64
    } else {
        (wide_b - wide_a) as u64
    };
    assert(gap * gap == (a - b) * (a - b)) by (nonlinear_arith)
        requires
            gap == a - b || gap == b - a,
    ;
    assert(gap * gap <= 0xffff_ffff * 0xffff_ffff) by (nonlinear_arith)
        requires
            gap <= 0xffff_ffff,
    ;
    (gap as u128) * (gap as u128)
}

/// Measures the distance between two points in whole millimetres, rounded
/// up.
pub fn distance(a: Vector3, b: Vector3) -> (d: u64)
    ensures
        d == euclidean_distance(a, b),
        d <= MAX_DISTANCE,
{
    proof {
        lemma_distance_bounded(a, b);
    }
    let sum: u128 = squared_difference(a.x, b.x) + squared_difference(a.y, b.y)
        + squared_difference(a.z, b.z);
    let root: u64 = isqrt(sum);
    if (root as u128) * (root as u128) == sum {
        root
    } else {
        root + 1
    }
}

/// Computes the coordinate halfway between `a` and `b`.
fn halfway(a: i32, b: i32) -> (m: i32)
    ensures
        m == midpoint_coordinate(a as int, b as int),
{
    let sum: i64 = a as i64 + b as i64;
    let half: i64 = if sum >= 0 {
        sum / 2
    } else {
        -((1 - sum) / 2)
    };
    half as i32
}

/// Finds the point halfway between `a` and `b`.
pub fn midpoint_of(a: Vector3, b: Vector3) -> (m: Vector3)
    ensures
        m == midpoint(a, b),
{
    Vector3 { x: halfway(a.x, b.x), y: halfway(a.y, b.y), z: halfway(a.z, b.z) }
}

} // verus!
