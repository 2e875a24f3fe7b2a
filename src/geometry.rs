use vstd::prelude::*;

verus! {

/// Largest magnitude of a board coordinate, in thousandths of a board unit.
pub const COORD_MAX: i64 = 1_073_741_824;

/// A point of the board plane, in thousandths of a board unit.
#[derive(Clone, Copy, Debug, PartialEq, Eq, Structural)]
pub struct Point {
    pub x: i64,
    pub y: i64,
}

impl Point {
    /// Both coordinates lie within the board's range.
    pub open spec fn in_range(self) -> bool {
        -COORD_MAX <= self.x <= COORD_MAX && -COORD_MAX <= self.y <= COORD_MAX
    }

    pub fn is_in_range(&self) -> (r: bool)
        ensures
            r == self.in_range(),
    {
        -COORD_MAX <= self.x && self.x <= COORD_MAX && -COORD_MAX <= self.y && self.y <= COORD_MAX
    }
}

/// Squared euclidean distance between two points.
pub open spec fn dist_sq(a: Point, b: Point) -> int {
    (b.x - a.x) * (b.x - a.x) + (b.y - a.y) * (b.y - a.y)
}

/// The largest `r <= k` with `r * r <= n`.
pub open spec fn root_below(n: int, k: nat) -> nat
    decreases k,
{
    if k * k <= n || k == 0 {
        k
    } else {
        root_below(n, (k - 1) as nat)
    }
}

/// The integer square root of `n`, rounded down.
pub open spec fn floor_sqrt(n: nat) -> nat {
    root_below(n as int, n)
}

/// Floor division of `a + b` by two: the midpoint of two coordinates.
pub open spec fn mid(a: int, b: int) -> int {
    (a + b) / 2
}

/// Moves coordinate `p` toward `t` by the fraction `travel / len` of the gap, rounded up.
pub open spec fn toward(p: int, t: int, travel: int, len: int) -> int {
    if t >= p {
        p + part(t - p, travel, len)
    } else {
        p - part(p - t, travel, len)
    }
}

/// The fraction `travel / len` of `gap`, rounded up so that every step makes progress.
pub open spec fn part(gap: int, travel: int, len: int) -> int {
    (gap * travel + len - 1) / len
}

/// Whether moving `travel` along a straight line from `pos` reaches or passes `target`.
pub open spec fn reaches(pos: Point, target: Point, travel: nat) -> bool {
    travel * travel >= dist_sq(pos, target)
}

/// Where a straight-line move of length `travel` from `pos` toward `target` ends:
/// exactly on `target` once it is reached or passed, else short of it along the line.
pub open spec fn step_result(pos: Point, target: Point, travel: nat) -> Point {
    if reaches(pos, target, travel) {
        target
    } else {
        let len = floor_sqrt(dist_sq(pos, target) as nat) as int;
        Point {
            x: toward(pos.x as int, target.x as int, travel as int, len) as i64,
            y: toward(pos.y as int, target.y as int, travel as int, len) as i64,
        }
    }
}

/// Facing of a direction, in eighths of a turn: the signed angle of `(dx, dy)` divided
/// by 45 degrees, rounded away from zero (0 for east, 4 for west, negative below the x axis).
pub open spec fn sector(dx: int, dy: int) -> int {
    if dy > 0 {
        if dx >= dy {
            1
        } else if dx >= 0 {
            2
        } else if -dx <= dy {
            3
        } else {
            4
        }
    } else if dy == 0 {
        if dx >= 0 {
            0
        } else {
            4
        }
    } else {
        if dx >= -dy {
            -1
        } else if dx >= 0 {
            -2
        } else if -dx <= -dy {
            -3
        } else {
            -4
        }
    }
}

proof fn lemma_root_below_exact(n: int, r: nat, k: nat)
    requires
        r * r <= n < (r + 1) * (r + 1),
        r <= k,
    ensures
        root_below(n, k) == r,
    decreases k,
{
    if k > r {
        assert(k * k >= (r + 1) * (r + 1)) by (nonlinear_arith)
            requires
                k >= r + 1,
                r >= 0,
        ;
        lemma_root_below_exact(n, r, (k - 1) as nat);
    }
}

/// Integer square root, rounded down.
pub fn isqrt(n: u64) -> (r: u64)
    ensures
        r as nat == floor_sqrt(n as nat),
        (r as int) * (r as int) <= n,
        n < (r as int + 1) * (r as int + 1),
{
    // search the interval [lo, hi) for the largest square not above n
    let mut lo: u64 = 0;
    let mut hi: u64 = 4_294_967_296;
    assert(n < hi * hi) by (nonlinear_arith)
        requires
            hi == 4_294_967_296u64,
            n <= u64::MAX,
    ;
    while hi - lo > 1
        invariant
            lo < hi <= 4_294_967_296,
            (lo as int) * (lo as int) <= n,
            n < (hi as int) * (hi as int),
        decreases hi - lo,
    {
        let m: u64 = lo + (hi - lo) / 2;
        assert(m * m <= 4_294_967_295u64 * 4_294_967_295u64) by (nonlinear_arith)
            requires
                m < 4_294_967_296u64,
        ;
        if m * m <= n {
            lo = m;
        } else {
            hi = m;
        }
    }
    proof {
        assert(hi == lo + 1);
        assert(lo <= n) by (nonlinear_arith)
            requires
                (lo as int) * (lo as int) <= n,
        ;
        lemma_root_below_exact(n as int, lo as nat, n as nat);
    }
    lo
}

/// Midpoint coordinate of `a` and `b`, rounded down.
pub fn midpoint(a: i64, b: i64) -> (r: i64)
    requires
        -COORD_MAX <= a <= COORD_MAX,
        -COORD_MAX <= b <= COORD_MAX,
    ensures
        r == mid(a as int, b as int),
        -COORD_MAX <= r <= COORD_MAX,
{
    let s: i64 = a + b;
    if s >= 0 {
        ((s as u64) / 2) as i64
    } else {
        let n: u64 = (-s) as u64;
        let q: u64 = (n + 1) / 2;
        proof {
            assert((s as int) / 2 == -(q as int));
        }
        -(q as i64)
    }
}

/// The fraction `travel / len` of `gap`, rounded up.
fn scaled_gap(gap: u64, travel: u64, len: u64) -> (q: u64)
    requires
        0 < len,
        travel <= len,
        len <= 4_294_967_296,
        gap <= 2_147_483_648,
    ensures
        q == part(gap as int, travel as int, len as int),
        q <= gap,
        gap > 0 && travel > 0 ==> q > 0,
{
    assert(gap * travel <= gap * len) by (nonlinear_arith)
        requires
            travel <= len,
    ;
    assert(gap * len <= 2_147_483_648u64 * 4_294_967_296u64) by (nonlinear_arith)
        requires
            gap <= 2_147_483_648u64,
            len <= 4_294_967_296u64,
    ;
    let num: u64 = gap * travel + (len - 1);
    let q: u64 = num / len;
    assert(q <= gap) by (nonlinear_arith)
        requires
            q == num / len,
            num == gap * travel + len - 1,
            gap * travel <= gap * len,
            len > 0,
    ;
    assert(gap > 0 && travel > 0 ==> q > 0) by (nonlinear_arith)
        requires
            q == num / len,
            num == gap * travel + len - 1,
            len > 0,
    ;
    q
}

/// Moves `p` toward `t` by `travel / len` of the gap, rounded up, on one axis.
fn axis_toward(p: i64, t: i64, travel: u64, len: u64) -> (r: i64)
    requires
        -COORD_MAX <= p <= COORD_MAX,
        -COORD_MAX <= t <= COORD_MAX,
        0 < len,
        travel <= len,
        len <= 4_294_967_296,
    ensures
        r == toward(p as int, t as int, travel as int, len as int),
        p <= t ==> p <= r <= t,
        t <= p ==> t <= r <= p,
        p != t && travel > 0 ==> r != p,
{
    if t >= p {
        let q = scaled_gap((t - p) as u64, travel, len);
        p + q as i64
    } else {
        let q = scaled_gap((p - t) as u64, travel, len);
        p - q as i64
    }
}

proof fn lemma_closer(p: int, t: int, r: int)
    requires
        p <= t ==> p <= r <= t,
        t <= p ==> t <= r <= p,
    ensures
        (t - r) * (t - r) <= (t - p) * (t - p),
        r != p ==> (t - r) * (t - r) < (t - p) * (t - p),
{
    if p <= t {
        assert((t - r) * (t - r) <= (t - p) * (t - p)) by (nonlinear_arith)
            requires
                0 <= t - r <= t - p,
        ;
        assert(r != p ==> (t - r) * (t - r) < (t - p) * (t - p)) by (nonlinear_arith)
            requires
                0 <= t - r <= t - p,
        ;
    } else {
        assert((t - r) * (t - r) <= (t - p) * (t - p)) by (nonlinear_arith)
            requires
                0 <= r - t <= p - t,
        ;
        assert(r != p ==> (t - r) * (t - r) < (t - p) * (t - p)) by (nonlinear_arith)
            requires
                0 <= r - t <= p - t,
        ;
    }
}

/// Facing of the direction `(dx, dy)`, in eighths of a turn.
pub fn facing(dx: i64, dy: i64) -> (r: i32)
    requires
        -2 * COORD_MAX <= dx <= 2 * COORD_MAX,
        -2 * COORD_MAX <= dy <= 2 * COORD_MAX,
    ensures
        r == sector(dx as int, dy as int),
        -4 <= r <= 4,
{
    if dy > 0 {
        if dx >= dy {
            1
        } else if dx >= 0 {
            2
        } else if -dx <= dy {
            3
        } else {
            4
        }
    } else if dy == 0 {
        if dx >= 0 {
            0
        } else {
            4
        }
    } else {
        if dx >= -dy {
            -1
        } else if dx >= 0 {
            -2
        } else if -dx <= -dy {
            -3
        } else {
            -4
        }
    }
}

/// Squared distance between two points of the board's range.
pub fn distance_sq(a: Point, b: Point) -> (r: u64)
    requires
        a.in_range(),
        b.in_range(),
    ensures
        r == dist_sq(a, b),
        r <= 0x8000_0000_0000_0000u64,
{
    let dx: i64 = b.x - a.x;
    let dy: i64 = b.y - a.y;
    let ax: u64 = if dx >= 0 { dx as u64 } else { (-dx) as u64 };
    let ay: u64 = if dy >= 0 { dy as u64 } else { (-dy) as u64 };
    assert(ax * ax <= 2_147_483_648u64 * 2_147_483_648u64) by (nonlinear_arith)
        requires
            ax <= 2_147_483_648u64,
    ;
    assert(ay * ay <= 2_147_483_648u64 * 2_147_483_648u64) by (nonlinear_arith)
        requires
            ay <= 2_147_483_648u64,
    ;
    assert(ax * ax == dx * dx) by (nonlinear_arith)
        requires
            ax == dx || ax == -dx,
    ;
    assert(ay * ay == dy * dy) by (nonlinear_arith)
        requires
            ay == dy || ay == -dy,
    ;
    ax * ax + ay * ay
}

/// Moves `pos` a distance of `travel` in a straight line toward `target`, stopping exactly
/// on `target` once the move reaches or passes it. Returns the new position and whether
/// `target` was reached.
pub fn step_toward(pos: Point, target: Point, travel: u64) -> (r: (Point, bool))
    requires
        pos.in_range(),
        target.in_range(),
    ensures
        r.1 == reaches(pos, target, travel as nat),
        r.0 == step_result(pos, target, travel as nat),
        r.0.in_range(),
        travel >= 1 && !r.1 ==> dist_sq(r.0, target) < dist_sq(pos, target),
{
    let d: u64 = distance_sq(pos, target);
    let arrived: bool = if travel >= 4_294_967_296 {
        assert(travel * travel >= 4_294_967_296u64 * 4_294_967_296u64) by (nonlinear_arith)
            requires
                travel >= 4_294_967_296u64,
        ;
        true
    } else {
        assert(travel * travel < 4_294_967_296u64 * 4_294_967_296u64) by (nonlinear_arith)
            requires
                travel < 4_294_967_296u64,
        ;
        travel * travel >= d
    };
    if arrived {
        (target, true)
    } else {
        let len: u64 = isqrt(d);
        assert(travel <= len && 0 < len && len <= 4_294_967_296) by (nonlinear_arith)
            requires
                travel * travel < d,
                len * len <= d,
                d < (len + 1) * (len + 1),
                d <= 0x8000_0000_0000_0000u64,
        ;
        let x: i64 = axis_toward(pos.x, target.x, travel, len);
        let y: i64 = axis_toward(pos.y, target.y, travel, len);
        proof {
            lemma_closer(pos.x as int, target.x as int, x as int);
            lemma_closer(pos.y as int, target.y as int, y as int);
            assert(d > 0);
            if pos.x == target.x && pos.y == target.y {
                assert((target.x - pos.x) * (target.x - pos.x) == 0) by (nonlinear_arith)
                    requires
                        target.x == pos.x,
                ;
                assert((target.y - pos.y) * (target.y - pos.y) == 0) by (nonlinear_arith)
                    requires
                        target.y == pos.y,
                ;
                assert(dist_sq(pos, target) == 0);
            }
        }
        (Point { x, y }, false)
    }
}

} // verus!
