use vstd::prelude::*;
use vstd::arithmetic::div_mod::{lemma_fundamental_div_mod, lemma_mod_bound};

verus! {

/// Coordinates are fixed-point: one world unit is this many steps.
pub const UNIT: i64 = 1000;

/// Every coordinate stays within this magnitude (about two million units), so that the
/// exact movement arithmetic fits in 128 bits.
pub const WORLD_LIMIT: i64 = 0x8000_0000;

/// Largest distance a single movement call may cover, in fixed-point steps.
pub const MAX_TRAVEL: u128 = 0x8000_0000;

/// A point of the plane in fixed-point coordinates.
#[derive(Clone, Copy, Debug, PartialEq, Eq, Structural)]
pub struct Pos {
    pub x: i64,
    pub y: i64,
}

impl Pos {
    /// Both coordinates lie within `[-lim, lim]`.
    pub open spec fn within(self, lim: int) -> bool {
        -lim <= self.x <= lim && -lim <= self.y <= lim
    }

    pub open spec fn in_world(self) -> bool {
        self.within(WORLD_LIMIT as int)
    }

    pub fn origin() -> (r: Pos)
        ensures
            r.x == 0 && r.y == 0,
    {
        Pos { x: 0, y: 0 }
    }
}

/// Squared Euclidean distance between two points.
pub open spec fn dist2(a: Pos, b: Pos) -> int {
    (a.x - b.x) * (a.x - b.x) + (a.y - b.y) * (a.y - b.y)
}

/// `r` is the integer square root of `n`.
pub open spec fn is_root(n: int, r: int) -> bool {
    0 <= r && r * r <= n && n < (r + 1) * (r + 1)
}

/// The integer square root (the floor of the real square root) of `n`.
pub open spec fn isqrt(n: int) -> int {
    choose|r: int| is_root(n, r)
}

/// `t` is `|d| * s / sqrt(n)` rounded down: the distance along one axis, whose component of
/// the direction is `d`, of a move of length `s` along a direction of squared length `n`.
pub open spec fn is_share(t: int, d: int, s: int, n: int) -> bool {
    0 <= t && t * t * n <= d * d * (s * s) && d * d * (s * s) < (t + 1) * (t + 1) * n
}

pub open spec fn share(d: int, s: int, n: int) -> int {
    choose|t: int| is_share(t, d, s, n)
}

/// The signed distance along one axis of a move of length `s`.
pub open spec fn scaled(d: int, s: int, n: int) -> int {
    if d >= 0 {
        share(d, s, n)
    } else {
        -share(d, s, n)
    }
}

/// `v` held to `[-lim, lim]`.
pub open spec fn clamp(v: int, lim: int) -> i64 {
    if v < -lim {
        (-lim) as i64
    } else if v > lim {
        lim as i64
    } else {
        v as i64
    }
}

/// `p` moved a distance `s` along the direction of `(dx, dy)`, held within `lim`; a zero
/// direction leaves it in place.
pub open spec fn moved(p: Pos, dx: int, dy: int, s: int, lim: int) -> Pos {
    if dx == 0 && dy == 0 {
        p
    } else {
        let n = dx * dx + dy * dy;
        Pos { x: clamp(p.x + scaled(dx, s, n), lim), y: clamp(p.y + scaled(dy, s, n), lim) }
    }
}

proof fn lemma_root_unique(n: int, r1: int, r2: int)
    requires
        is_root(n, r1),
        is_root(n, r2),
    ensures
        r1 == r2,
{
    if r1 < r2 {
        assert((r1 + 1) * (r1 + 1) <= r2 * r2) by (nonlinear_arith)
            requires
                0 <= r1 + 1 <= r2,
        ;
    } else if r2 < r1 {
        assert((r2 + 1) * (r2 + 1) <= r1 * r1) by (nonlinear_arith)
            requires
                0 <= r2 + 1 <= r1,
        ;
    }
}

proof fn lemma_share_unique(t1: int, t2: int, d: int, s: int, n: int)
    requires
        is_share(t1, d, s, n),
        is_share(t2, d, s, n),
        0 <= n,
    ensures
        t1 == t2,
{
    if t1 < t2 {
        assert((t1 + 1) * (t1 + 1) * n <= t2 * t2 * n) by (nonlinear_arith)
            requires
                0 <= t1 + 1 <= t2,
                0 <= n,
        ;
    } else if t2 < t1 {
        assert((t2 + 1) * (t2 + 1) * n <= t1 * t1 * n) by (nonlinear_arith)
            requires
                0 <= t2 + 1 <= t1,
                0 <= n,
        ;
    }
}

/// Integer square root by bisection.
pub fn int_sqrt(n: u128) -> (r: u128)
    requires
        n < 0x4000_0000_0000_0000_0000_0000_0000_0000,
    ensures
        is_root(n as int, r as int),
        r == isqrt(n as int),
{
    let mut lo: u128 = 0;
    let mut hi: u128 = 0x8000_0000_0000_0000;
    assert(n < hi * hi);
    while hi - lo > 1
        invariant
            lo < hi <= 0x8000_0000_0000_0000,
            lo * lo <= n,
            n < hi * hi,
        decreases hi - lo,
    {
        let mid: u128 = lo + (hi - lo) / 2;
        assert(mid * mid <= hi * hi) by (nonlinear_arith)
            requires
                0 <= mid <= hi,
        ;
        assert(hi * hi <= 0x8000_0000_0000_0000 * 0x8000_0000_0000_0000) by (nonlinear_arith)
            requires
                0 <= hi <= 0x8000_0000_0000_0000,
        ;
        if mid * mid <= n {
            lo = mid;
        } else {
            hi = mid;
        }
    }
    assert(hi == lo + 1);
    proof {
        lemma_root_unique(n as int, lo as int, isqrt(n as int));
    }
    lo
}

/// Squared distance between two points of the world.
pub fn distance_squared(a: Pos, b: Pos) -> (r: i128)
    requires
        a.in_world(),
        b.in_world(),
    ensures
        r == dist2(a, b),
        0 <= r <= 8 * WORLD_LIMIT * WORLD_LIMIT,
{
    let dx: i128 = a.x as i128 - b.x as i128;
    let dy: i128 = a.y as i128 - b.y as i128;
    assert(0 <= dx * dx <= 4 * WORLD_LIMIT * WORLD_LIMIT) by (nonlinear_arith)
        requires
            -2 * WORLD_LIMIT <= dx <= 2 * WORLD_LIMIT,
    ;
    assert(0 <= dy * dy <= 4 * WORLD_LIMIT * WORLD_LIMIT) by (nonlinear_arith)
        requires
            -2 * WORLD_LIMIT <= dy <= 2 * WORLD_LIMIT,
    ;
    dx * dx + dy * dy
}

/// `v` held to `[-lim, lim]`.
pub fn clamp_coord(v: i128, lim: i64) -> (r: i64)
    requires
        0 <= lim,
    ensures
        r == clamp(v as int, lim as int),
{
    if v < -(lim as i128) {
        -lim
    } else if v > lim as i128 {
        lim
    } else {
        v as i64
    }
}

/// Distance along one axis, with the sign of `d`, of a move of length `s` along a direction
/// of squared length `n` whose component on that axis is `d`.
fn axis_share(d: i128, s: u128, n: u128) -> (r: i128)
    requires
        -2 * WORLD_LIMIT <= d <= 2 * WORLD_LIMIT,
        s <= MAX_TRAVEL,
        1 <= n,
        d * d <= n,
    ensures
        r == scaled(d as int, s as int, n as int),
        -(s as int) <= r <= s,
{
    let m: u128 = if d >= 0 { d as u128 } else { (-d) as u128 };
    assert(m * m <= 4 * WORLD_LIMIT * WORLD_LIMIT) by (nonlinear_arith)
        requires
            0 <= m <= 2 * WORLD_LIMIT,
    ;
    assert(s * s <= MAX_TRAVEL * MAX_TRAVEL) by (nonlinear_arith)
        requires
            0 <= s <= MAX_TRAVEL,
    ;
    let mm: u128 = m * m;
    let ss: u128 = s * s;
    assert(mm * ss <= (4 * WORLD_LIMIT * WORLD_LIMIT) * (MAX_TRAVEL * MAX_TRAVEL)) by (nonlinear_arith)
        requires
            0 <= mm <= 4 * WORLD_LIMIT * WORLD_LIMIT,
            0 <= ss <= MAX_TRAVEL * MAX_TRAVEL,
    ;
    let a: u128 = mm * ss;
    let q: u128 = a / n;
    proof {
        assert(d * d == mm) by (nonlinear_arith)
            requires
                m == d || m == -d,
                mm == m * m,
        ;
        lemma_fundamental_div_mod(a as int, n as int);
        lemma_mod_bound(a as int, n as int);
        assert(q * n <= a && a < (q + 1) * n) by (nonlinear_arith)
            requires
                a == n * q + a % n,
                0 <= a % n < n,
        ;
        assert(q <= ss) by (nonlinear_arith)
            requires
                q * n <= mm * ss,
                mm <= n,
                1 <= n,
                0 <= q,
                0 <= ss,
        ;
    }
    let t: u128 = int_sqrt(q);
    proof {
        assert(t * t * n <= a) by (nonlinear_arith)
            requires
                t * t <= q,
                q * n <= a,
                0 <= n,
        ;
        assert(a < (t + 1) * (t + 1) * n) by (nonlinear_arith)
            requires
                q + 1 <= (t + 1) * (t + 1),
                a < (q + 1) * n,
                0 <= n,
        ;
        assert(is_share(t as int, d as int, s as int, n as int));
        lemma_share_unique(t as int, share(d as int, s as int, n as int), d as int, s as int, n as int);
        assert(t <= s) by (nonlinear_arith)
            requires
                t * t <= q,
                q <= ss,
                ss == s * s,
                0 <= t,
                0 <= s,
        ;
    }
    if d >= 0 {
        t as i128
    } else {
        -(t as i128)
    }
}

/// Moves `p` a distance `s` along the direction `(dx, dy)`, held within `lim`; with a zero
/// direction it stays.
pub fn move_along(p: Pos, dx: i128, dy: i128, s: u128, lim: i64) -> (r: Pos)
    requires
        p.within(lim as int),
        0 <= lim <= WORLD_LIMIT,
        -2 * WORLD_LIMIT <= dx <= 2 * WORLD_LIMIT,
        -2 * WORLD_LIMIT <= dy <= 2 * WORLD_LIMIT,
        s <= MAX_TRAVEL,
    ensures
        r == moved(p, dx as int, dy as int, s as int, lim as int),
        r.within(lim as int),
{
    if dx == 0 && dy == 0 {
        return p;
    }
    assert(0 <= dx * dx <= 4 * WORLD_LIMIT * WORLD_LIMIT) by (nonlinear_arith)
        requires
            -2 * WORLD_LIMIT <= dx <= 2 * WORLD_LIMIT,
    ;
    assert(0 <= dy * dy <= 4 * WORLD_LIMIT * WORLD_LIMIT) by (nonlinear_arith)
        requires
            -2 * WORLD_LIMIT <= dy <= 2 * WORLD_LIMIT,
    ;
    let n: u128 = (dx * dx + dy * dy) as u128;
    proof {
        if dx != 0 {
            assert(dx * dx >= 1) by (nonlinear_arith)
                requires
                    dx != 0,
            ;
        } else {
            assert(dy * dy >= 1) by (nonlinear_arith)
                requires
                    dy != 0,
            ;
        }
    }
    let sx: i128 = axis_share(dx, s, n);
    let sy: i128 = axis_share(dy, s, n);
    Pos { x: clamp_coord(p.x as i128 + sx, lim), y: clamp_coord(p.y as i128 + sy, lim) }
}

} // verus!
