//! Points in image space and the pixel length of a point sequence under the
//! absolute and the relative coordinate convention.
//!
//! Coordinates are integers in whatever fixed unit the caller chose (for
//! instance thousandths of a pixel). A segment's length is the floor of its
//! Euclidean length in that unit.
use vstd::prelude::*;

verus! {

/// Largest square root the length computations need: every squared segment
/// length of two `i32` points stays below `2^66`, so its root is at most `2^33`.
pub const MAX_SEGMENT: u128 = 0x2_0000_0000;

/// A point in image space.
#[derive(Clone, Copy, Debug, PartialEq, Eq)]
pub struct Point {
    pub x: i32,
    pub y: i32,
}

/// `r` is the integer square root of `n`: the largest `r` with `r * r <= n`.
pub open spec fn is_root(n: int, r: int) -> bool {
    0 <= r && r * r <= n && n < (r + 1) * (r + 1)
}

/// The integer square root of `n`.
pub open spec fn floor_sqrt(n: nat) -> nat {
    choose|r: nat| is_root(n as int, r as int)
}

/// Length of the vector `(dx, dy)`, rounded down.
pub open spec fn norm(dx: int, dy: int) -> nat {
    floor_sqrt((dx * dx + dy * dy) as nat)
}

/// Length contributed by a relative point: its own displacement.
pub open spec fn displacement_length(p: Point) -> nat {
    norm(p.x as int, p.y as int)
}

/// Distance between two absolute points.
pub open spec fn distance(a: Point, b: Point) -> nat {
    norm(a.x - b.x, a.y - b.y)
}

/// Relative convention: the first point is the start and adds nothing; each
/// later point adds the length of its own displacement.
pub open spec fn relative_length(pts: Seq<Point>) -> nat
    decreases pts.len(),
{
    if pts.len() <= 1 {
        0
    } else {
        relative_length(pts.drop_last()) + displacement_length(pts.last())
    }
}

/// Absolute convention: the sum of the distances between consecutive points.
pub open spec fn absolute_length(pts: Seq<Point>) -> nat
    decreases pts.len(),
{
    if pts.len() <= 1 {
        0
    } else {
        absolute_length(pts.drop_last()) + distance(pts[pts.len() - 2], pts.last())
    }
}

/// The integer square root is unique.
pub proof fn lemma_root_unique(n: int, a: int, b: int)
    requires
        is_root(n, a),
        is_root(n, b),
    ensures
        a == b,
{
    if a < b {
        assert((a + 1) * (a + 1) <= b * b) by (nonlinear_arith)
            requires
                0 <= a < b,
        ;
    } else if b < a {
        assert((b + 1) * (b + 1) <= a * a) by (nonlinear_arith)
            requires
                0 <= b < a,
        ;
    }
}

/// Once a root is found, `floor_sqrt` names it.
proof fn lemma_floor_sqrt_is(n: nat, r: nat)
    requires
        is_root(n as int, r as int),
    ensures
        floor_sqrt(n) == r,
{
    let c = floor_sqrt(n);
    assert(is_root(n as int, c as int));
    lemma_root_unique(n as int, r as int, c as int);
}

/// Integer square root by bisection.
pub fn isqrt(n: u128) -> (r: u128)
    requires
        n < 0x4_0000_0000_0000_0000,
    ensures
        r == floor_sqrt(n as nat),
        r <= MAX_SEGMENT,
{
    let mut lo: u128 = 0;
    let mut hi: u128 = 0x2_0000_0001;
    assert(n < hi * hi) by (nonlinear_arith)
        requires
            n < 0x4_0000_0000_0000_0000,
            hi == 0x2_0000_0001,
    ;
    while hi - lo > 1
        invariant
            lo < hi <= 0x2_0000_0001,
            lo * lo <= n,
            n < hi * hi,
        decreases hi - lo,
    {
        let mid: u128 = lo + (hi - lo) / 2;
        assert(mid * mid <= 0x2_0000_0001 * 0x2_0000_0001) by (nonlinear_arith)
            requires
                mid < 0x2_0000_0001,
        ;
        if mid * mid <= n {
            lo = mid;
        } else {
            hi = mid;
        }
    }
    assert(hi == lo + 1);
    proof {
        lemma_floor_sqrt_is(n as nat, lo as nat);
    }
    lo
}

/// Squared length of `(dx, dy)`, each coordinate difference of two `i32`.
fn square_sum(dx: i64, dy: i64) -> (r: u128)
    requires
        -0x1_0000_0000 <= dx <= 0x1_0000_0000,
        -0x1_0000_0000 <= dy <= 0x1_0000_0000,
    ensures
        r == dx * dx + dy * dy,
        r < 0x4_0000_0000_0000_0000,
{
    let ax: i128 = dx as i128;
    let ay: i128 = dy as i128;
    assert(ax * ax <= 0x1_0000_0000_0000_0000 && ay * ay <= 0x1_0000_0000_0000_0000
        && ax * ax >= 0 && ay * ay >= 0) by (nonlinear_arith)
        requires
            -0x1_0000_0000 <= ax <= 0x1_0000_0000,
            -0x1_0000_0000 <= ay <= 0x1_0000_0000,
    ;
    (ax * ax + ay * ay) as u128
}

/// Pixel length of a relative-convention point sequence. An empty or
/// one-point sequence has length 0.
pub fn points_pixel_distance_relative(points: &Vec<Point>) -> (d: u128)
    ensures
        d == relative_length(points@),
        points@.len() <= 1 ==> d == 0,
{
    let mut d: u128 = 0;
    if points.len() == 0 {
        return 0;
    }
    let mut i: usize = 1;
    while i < points.len()
        invariant
            1 <= i <= points.len(),
            d == relative_length(points@.subrange(0, i as int)),
            d <= (i - 1) * MAX_SEGMENT,
        decreases points.len() - i,
    {
        let p = points[i];
        let seg = isqrt(square_sum(p.x as i64, p.y as i64));
        proof {
            let s = points@.subrange(0, i + 1);
            assert(s.drop_last() =~= points@.subrange(0, i as int));
        }
        d = d + seg;
        i = i + 1;
    }
    assert(points@.subrange(0, i as int) =~= points@);
    d
}

/// Pixel length of an absolute-convention point sequence. Such a path
/// needs a start and at least one more point: `None` when it has fewer.
pub fn points_pixel_distance_absolute(points: &Vec<Point>) -> (d: Option<u128>)
    ensures
        points@.len() < 2 <==> d is None,
        d matches Some(v) ==> v == absolute_length(points@),
{
    if points.len() < 2 {
        return None;
    }
    let mut d: u128 = 0;
    let mut prev = points[0];
    let mut i: usize = 1;
    assert(points@.subrange(0, 1).len() == 1);
    while i < points.len()
        invariant
            1 <= i <= points.len(),
            prev == points@[i - 1],
            d == absolute_length(points@.subrange(0, i as int)),
            d <= (i - 1) * MAX_SEGMENT,
        decreases points.len() - i,
    {
        let p = points[i];
        let dx: i64 = prev.x as i64 - p.x as i64;
        let dy: i64 = prev.y as i64 - p.y as i64;
        let seg = isqrt(square_sum(dx, dy));
        proof {
            let s = points@.subrange(0, i + 1);
            assert(s.drop_last() =~= points@.subrange(0, i as int));
        }
        d = d + seg;
        prev = p;
        i = i + 1;
    }
    assert(points@.subrange(0, i as int) =~= points@);
    Some(d)
}

} // verus!
