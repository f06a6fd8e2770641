//! Integer plane geometry: positions are in milli-pixels, velocities in
//! milli-pixels per millisecond (that is, pixels per second).
use vstd::arithmetic::div_mod::{lemma_div_by_multiple, lemma_div_is_ordered};
use vstd::prelude::*;

verus! {

/// Largest coordinate magnitude any live entity may have (2^40).
pub const POS_LIMIT: i64 = 1_099_511_627_776;

/// Largest velocity-component magnitude any entity may have (2^28).
pub const SPEED_LIMIT: i64 = 268_435_456;

/// A point or a vector in the plane.
#[derive(Clone, Copy, Debug, PartialEq, Eq, Structural)]
pub struct Point {
    pub x: i64,
    pub y: i64,
}

impl Point {
    pub open spec fn bounded(self) -> bool {
        &&& -POS_LIMIT <= self.x <= POS_LIMIT
        &&& -POS_LIMIT <= self.y <= POS_LIMIT
    }

    pub open spec fn slow(self) -> bool {
        &&& -SPEED_LIMIT <= self.x <= SPEED_LIMIT
        &&& -SPEED_LIMIT <= self.y <= SPEED_LIMIT
    }

    pub fn new(x: i64, y: i64) -> (p: Point)
        ensures
            p.x == x,
            p.y == y,
    {
        Point { x, y }
    }
}

/// Squared Euclidean distance between two points.
pub open spec fn dist2(a: Point, b: Point) -> int {
    (a.x - b.x) * (a.x - b.x) + (a.y - b.y) * (a.y - b.y)
}

/// `a` and `b` are strictly closer than `r`.
pub open spec fn near(a: Point, b: Point, r: int) -> bool {
    dist2(a, b) < r * r
}

/// `r` is the integer square root of `n`.
pub open spec fn is_root(n: int, r: int) -> bool {
    0 <= r && r * r <= n < (r + 1) * (r + 1)
}

/// The integer square root of a non-negative number.
pub open spec fn root(n: int) -> int {
    choose|r: int| is_root(n, r)
}

/// Component `d` of a direction of length `len`, rescaled to length `speed`,
/// truncated toward zero; a zero-length direction stays zero.
pub open spec fn rescale(d: int, speed: int, len: int) -> int {
    if len == 0 {
        0
    } else if d >= 0 {
        d * speed / len
    } else {
        -((-d) * speed / len)
    }
}

/// The velocity of length `speed` pointing from `from` to `to`.
pub open spec fn aim_spec(from: Point, to: Point, speed: int) -> (int, int) {
    let len = root(dist2(to, from));
    (rescale(to.x - from.x, speed, len), rescale(to.y - from.y, speed, len))
}

proof fn lemma_square_bound(d: int, k: int)
    requires
        -k <= d <= k,
    ensures
        0 <= d * d <= k * k,
{
    assert(0 <= d * d <= k * k) by (nonlinear_arith)
        requires
            -k <= d <= k,
    ;
}

proof fn lemma_root_unique(n: int, r1: int, r2: int)
    requires
        is_root(n, r1),
        is_root(n, r2),
    ensures
        r1 == r2,
{
    if r1 < r2 {
        assert((r1 + 1) * (r1 + 1) <= r2 * r2) by (nonlinear_arith)
            requires
                0 <= r1 < r2,
        ;
    } else if r2 < r1 {
        assert((r2 + 1) * (r2 + 1) <= r1 * r1) by (nonlinear_arith)
            requires
                0 <= r2 < r1,
        ;
    }
}

/// Any coordinate difference is at most the root of the squared distance.
proof fn lemma_component_below_root(d: int, n: int, r: int)
    requires
        d * d <= n,
        is_root(n, r),
    ensures
        -r <= d <= r,
{
    if d > r {
        assert((r + 1) * (r + 1) <= d * d) by (nonlinear_arith)
            requires
                0 <= r < d,
        ;
    }
    if d < -r {
        assert((r + 1) * (r + 1) <= d * d) by (nonlinear_arith)
            requires
                0 <= r,
                d < -r,
        ;
    }
}

proof fn lemma_rescale_bound(d: int, speed: int, len: int)
    requires
        0 <= d <= len,
        0 < len,
        0 <= speed,
    ensures
        0 <= d * speed / len <= speed,
{
    assert(0 <= d * speed <= speed * len) by (nonlinear_arith)
        requires
            0 <= d <= len,
            0 <= speed,
    ;
    lemma_div_is_ordered(0, d * speed, len);
    lemma_div_is_ordered(d * speed, speed * len, len);
    lemma_div_by_multiple(speed, len);
}

/// Every non-negative number has an integer square root.
pub proof fn lemma_root_exists(n: int)
    requires
        n >= 0,
    ensures
        is_root(n, root(n)),
    decreases n,
{
    if n == 0 {
        assert(is_root(0, 0));
    } else {
        lemma_root_exists(n - 1);
        let r = root(n - 1);
        if (r + 1) * (r + 1) <= n {
            assert(n < (r + 2) * (r + 2)) by (nonlinear_arith)
                requires
                    n - 1 < (r + 1) * (r + 1),
                    0 <= r,
            ;
            assert(is_root(n, r + 1));
        } else {
            assert(is_root(n, r));
        }
    }
}

/// An aimed velocity is never faster than `speed` along either axis.
pub proof fn lemma_aim_bound(from: Point, to: Point, speed: int)
    requires
        0 <= speed,
    ensures
        -speed <= aim_spec(from, to, speed).0 <= speed,
        -speed <= aim_spec(from, to, speed).1 <= speed,
{
    let dx = to.x - from.x;
    let dy = to.y - from.y;
    let n = dist2(to, from);
    assert(0 <= dx * dx && 0 <= dy * dy) by (nonlinear_arith);
    lemma_root_exists(n);
    let len = root(n);
    lemma_component_below_root(dx, n, len);
    lemma_component_below_root(dy, n, len);
    if len > 0 {
        if dx >= 0 {
            lemma_rescale_bound(dx, speed, len);
        } else {
            lemma_rescale_bound(-dx, speed, len);
        }
        if dy >= 0 {
            lemma_rescale_bound(dy, speed, len);
        } else {
            lemma_rescale_bound(-dy, speed, len);
        }
    }
}

/// Decides whether two bounded points are strictly closer than `r`.
pub fn is_near(a: Point, b: Point, r: i64) -> (res: bool)
    requires
        a.bounded(),
        b.bounded(),
        0 <= r <= POS_LIMIT,
    ensures
        res == near(a, b, r as int),
{
    let dx: i128 = a.x as i128 - b.x as i128;
    let dy: i128 = a.y as i128 - b.y as i128;
    let rr: i128 = r as i128;
    proof {
        lemma_square_bound(dx as int, 2 * POS_LIMIT);
        lemma_square_bound(dy as int, 2 * POS_LIMIT);
        lemma_square_bound(rr as int, POS_LIMIT as int);
        assert(2 * POS_LIMIT * (2 * POS_LIMIT) < 0x1000_0000_0000_0000_0000_0000_0000);
    }
    dx * dx + dy * dy < rr * rr
}

/// Integer square root by bisection.
pub fn isqrt(n: u128) -> (r: u128)
    requires
        n < 0x10_0000_0000_0000_0000_0000,
    ensures
        is_root(n as int, r as int),
        r < 0x400_0000_0000,
{
    let mut lo: u128 = 0;
    let mut hi: u128 = 0x400_0000_0000;
    assert(hi * hi == 0x10_0000_0000_0000_0000_0000);
    while hi - lo > 1
        invariant
            lo < hi <= 0x400_0000_0000,
            lo * lo <= n < hi * hi,
        decreases hi - lo,
    {
        let mid: u128 = lo + (hi - lo) / 2;
        proof {
            lemma_square_bound(mid as int, 0x400_0000_0000);
        }
        if mid * mid <= n {
            lo = mid;
        } else {
            hi = mid;
        }
    }
    assert(hi == lo + 1);
    lo
}

/// The velocity of magnitude `speed` (up to truncation) that points from
/// `from` toward `to`; zero when the two points coincide.
pub fn aim(from: Point, to: Point, speed: i64) -> (v: Point)
    requires
        from.bounded(),
        to.bounded(),
        0 <= speed <= SPEED_LIMIT,
    ensures
        (v.x as int, v.y as int) == aim_spec(from, to, speed as int),
        -speed <= v.x <= speed,
        -speed <= v.y <= speed,
{
    let dx: i128 = to.x as i128 - from.x as i128;
    let dy: i128 = to.y as i128 - from.y as i128;
    proof {
        lemma_square_bound(dx as int, 2 * POS_LIMIT);
        lemma_square_bound(dy as int, 2 * POS_LIMIT);
        assert(2 * POS_LIMIT * (2 * POS_LIMIT) == 0x4_0000_0000_0000_0000_0000);
    }
    let n: u128 = (dx * dx + dy * dy) as u128;
    let len: u128 = isqrt(n);
    proof {
        assert(n as int == dist2(to, from));
        lemma_root_unique(n as int, len as int, root(n as int));
        lemma_component_below_root(dx as int, n as int, len as int);
        lemma_component_below_root(dy as int, n as int, len as int);
    }
    let vx = rescale_component(dx, speed, len);
    let vy = rescale_component(dy, speed, len);
    Point { x: vx, y: vy }
}

fn rescale_component(d: i128, speed: i64, len: u128) -> (c: i64)
    requires
        -(len as int) <= d <= len,
        len <= 0x400_0000_0000,
        0 <= speed <= SPEED_LIMIT,
    ensures
        c == rescale(d as int, speed as int, len as int),
        -speed <= c <= speed,
{
    if len == 0 {
        0
    } else {
        let mag: u128 = if d >= 0 {
            d as u128
        } else {
            (-d) as u128
        };
        proof {
            lemma_rescale_bound(mag as int, speed as int, len as int);
            assert((mag as int) * (speed as int) <= 0x400_0000_0000 * 0x1000_0000) by (nonlinear_arith)
                requires
                    0 <= mag <= 0x400_0000_0000,
                    0 <= speed <= 0x1000_0000,
            ;
        }
        let q: u128 = mag * (speed as u128) / len;
        if d >= 0 {
            q as i64
        } else {
            -(q as i64)
        }
    }
}

} // verus!
