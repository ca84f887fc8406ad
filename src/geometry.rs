//! Points, tile indices, tile sizes and the integer distance helpers that the
//! movement code uses.
use vstd::prelude::*;

verus! {

/// Largest magnitude of a world coordinate that the library works with.
pub const COORD_LIMIT: i64 = 2147483648;

/// A point in world space, in thousandths of a world unit.
#[derive(Clone, Copy, Debug, PartialEq, Eq)]
pub struct Point {
    pub x: i64,
    pub y: i64,
}

/// Width and height of one tile, in thousandths of a world unit.
#[derive(Clone, Copy, Debug, PartialEq, Eq)]
pub struct TileSize {
    pub x: u32,
    pub y: u32,
}

/// The integer (column, row) index of a tile.
#[derive(Clone, Copy, Debug, PartialEq, Eq)]
pub struct GridPosition {
    pub x: u32,
    pub y: u32,
}

impl Point {
    pub open spec fn bounded(self) -> bool {
        -COORD_LIMIT <= self.x <= COORD_LIMIT && -COORD_LIMIT <= self.y <= COORD_LIMIT
    }

    pub fn new(x: i64, y: i64) -> (r: Point)
        ensures
            r.x == x,
            r.y == y,
    {
        Point { x, y }
    }
}

impl TileSize {
    pub open spec fn valid(self) -> bool {
        self.x > 0 && self.y > 0
    }
}

impl GridPosition {
    pub fn new(x: u32, y: u32) -> (r: GridPosition)
        ensures
            r.x == x,
            r.y == y,
    {
        GridPosition { x, y }
    }

    /// Centre of this tile relative to the grid's corner: the tile size times
    /// the index, plus half a tile.
    pub open spec fn tile_center_spec(self, tile_size: TileSize) -> (int, int) {
        (
            tile_size.x * self.x + tile_size.x / 2,
            tile_size.y * self.y + tile_size.y / 2,
        )
    }

    /// Centre of this tile relative to the grid's corner.
    pub fn tile_center_translation(&self, tile_size: TileSize) -> (r: Point)
        requires
            tile_size.x as int * (self.x as int + 1) <= 2 * COORD_LIMIT,
            tile_size.y as int * (self.y as int + 1) <= 2 * COORD_LIMIT,
        ensures
            (r.x as int, r.y as int) == self.tile_center_spec(tile_size),
    {
        proof {
            assert(tile_size.x as int * self.x as int <= tile_size.x as int * (self.x as int + 1))
                by (nonlinear_arith);
            assert(tile_size.y as int * self.y as int <= tile_size.y as int * (self.y as int + 1))
                by (nonlinear_arith);
        }
        let cx = tile_size.x as i64 * self.x as i64 + tile_size.x as i64 / 2;
        let cy = tile_size.y as i64 * self.y as i64 + tile_size.y as i64 / 2;
        Point { x: cx, y: cy }
    }
}

/// Squared Euclidean distance between two points.
pub open spec fn dist2(a: Point, b: Point) -> nat {
    ((b.x - a.x) * (b.x - a.x) + (b.y - a.y) * (b.y - a.y)) as nat
}

pub open spec fn is_floor_sqrt(r: nat, n: nat) -> bool {
    r * r <= n < (r + 1) * (r + 1)
}

/// The integer square root, rounded down.
pub open spec fn floor_sqrt(n: nat) -> nat {
    choose|r: nat| is_floor_sqrt(r, n)
}

/// Straight-line distance between two points, rounded down.
pub open spec fn distance(a: Point, b: Point) -> nat {
    floor_sqrt(dist2(a, b))
}

proof fn lemma_floor_sqrt_unique(r1: nat, r2: nat, n: nat)
    requires
        is_floor_sqrt(r1, n),
        is_floor_sqrt(r2, n),
    ensures
        r1 == r2,
{
    if r1 < r2 {
        assert((r1 + 1) * (r1 + 1) <= r2 * r2) by (nonlinear_arith)
            requires
                r1 + 1 <= r2,
        ;
    } else if r2 < r1 {
        assert((r2 + 1) * (r2 + 1) <= r1 * r1) by (nonlinear_arith)
            requires
                r2 + 1 <= r1,
        ;
    }
}

/// Where `r` is the rounded-down square root of `n`, `floor_sqrt` names it.
pub proof fn lemma_floor_sqrt_is(r: nat, n: nat)
    requires
        is_floor_sqrt(r, n),
    ensures
        floor_sqrt(n) == r,
{
    let c = floor_sqrt(n);
    assert(is_floor_sqrt(c, n));
    lemma_floor_sqrt_unique(c, r, n);
}

/// Every number has a rounded-down square root.
pub proof fn lemma_floor_sqrt_exists(n: nat)
    ensures
        is_floor_sqrt(floor_sqrt(n), n),
    decreases n,
{
    if n == 0 {
        assert(is_floor_sqrt(0, 0)) by (nonlinear_arith);
    } else {
        lemma_floor_sqrt_exists((n - 1) as nat);
        let r = floor_sqrt((n - 1) as nat);
        if (r + 1) * (r + 1) <= n {
            assert(is_floor_sqrt(r + 1, n)) by (nonlinear_arith)
                requires
                    (r + 1) * (r + 1) <= n,
                    n - 1 < (r + 1) * (r + 1),
            ;
        } else {
            assert(is_floor_sqrt(r, n));
        }
    }
}

/// The rounded-down square root of a number below 2^66 is below 2^33.
pub proof fn lemma_floor_sqrt_small(r: nat, n: nat)
    requires
        is_floor_sqrt(r, n),
        n < 0x40000000000000000,
    ensures
        r < 0x200000000,
{
    if r >= 0x200000000 {
        assert(r * r >= 0x200000000 * 0x200000000) by (nonlinear_arith)
            requires
                r >= 0x200000000,
        ;
    }
}

/// Rounded-down square root of a number below 2^66, by bisection.
pub fn isqrt(n: u128) -> (r: u64)
    requires
        n < 0x40000000000000000u128,
    ensures
        r as nat == floor_sqrt(n as nat),
        is_floor_sqrt(r as nat, n as nat),
{
    let mut lo: u128 = 0;
    let mut hi: u128 = 0x200000000;
    assert(hi * hi == 0x40000000000000000u128);
    while hi - lo > 1
        invariant
            lo < hi <= 0x200000000,
            lo * lo <= n,
            n < hi * hi,
        decreases hi - lo,
    {
        let mid = lo + (hi - lo) / 2;
        assert(mid * mid <= 0x200000000u128 * 0x200000000u128) by (nonlinear_arith)
            requires
                mid <= 0x200000000u128,
        ;
        if mid * mid <= n {
            lo = mid;
        } else {
            hi = mid;
        }
    }
    assert(hi == lo + 1);
    proof {
        lemma_floor_sqrt_is(lo as nat, n as nat);
    }
    lo as u64
}

/// Exact squared distance between two bounded points.
pub fn dist2_exec(a: Point, b: Point) -> (r: u128)
    requires
        a.bounded(),
        b.bounded(),
    ensures
        r as nat == dist2(a, b),
        r < 0x40000000000000000u128,
{
    let dx: u128 = if b.x >= a.x { (b.x - a.x) as u128 } else { (a.x - b.x) as u128 };
    let dy: u128 = if b.y >= a.y { (b.y - a.y) as u128 } else { (a.y - b.y) as u128 };
    proof {
        assert(dx * dx <= 0x100000000u128 * 0x100000000u128) by (nonlinear_arith)
            requires
                dx <= 0x100000000u128,
        ;
        assert(dy * dy <= 0x100000000u128 * 0x100000000u128) by (nonlinear_arith)
            requires
                dy <= 0x100000000u128,
        ;
        let ddx = b.x - a.x;
        let ddy = b.y - a.y;
        assert(dx * dx == ddx * ddx) by (nonlinear_arith)
            requires
                dx == ddx || dx == -ddx,
        ;
        assert(dy * dy == ddy * ddy) by (nonlinear_arith)
            requires
                dy == ddy || dy == -ddy,
        ;
    }
    dx * dx + dy * dy
}

/// One coordinate of the point that lies the fraction `t / len` of the way
/// from `a` to `b`, rounded toward `a`.
pub open spec fn lerp_axis(a: int, b: int, t: nat, len: nat) -> int {
    if len == 0 {
        a
    } else if b >= a {
        a + (b - a) * t / len as int
    } else {
        a - (a - b) * t / len as int
    }
}

/// The point that lies the distance `t` along the segment from `a` to `b`,
/// whose length is `len`.
pub open spec fn lerp(a: Point, b: Point, t: nat, len: nat) -> (int, int) {
    (lerp_axis(a.x as int, b.x as int, t, len), lerp_axis(a.y as int, b.y as int, t, len))
}

/// A point along a segment lies between its ends.
pub proof fn lemma_lerp_axis_between(a: int, b: int, t: nat, len: nat)
    requires
        t <= len,
    ensures
        a <= b ==> a <= lerp_axis(a, b, t, len) <= b,
        b <= a ==> b <= lerp_axis(a, b, t, len) <= a,
{
    if len != 0 {
        let m: int = if b >= a { b - a } else { a - b };
        assert(0 <= m * t / len as int <= m) by (nonlinear_arith)
            requires
                0 <= m,
                0 <= t <= len,
                len > 0,
        {
            assert(m * t <= m * len);
            vstd::arithmetic::div_mod::lemma_div_is_ordered(m * t, m * len, len as int);
            vstd::arithmetic::div_mod::lemma_div_multiples_vanish(m, len as int);
            vstd::arithmetic::div_mod::lemma_div_pos_is_pos(m * t, len as int);
        }
    }
}

fn lerp_axis_exec(a: i64, b: i64, t: u64, len: u64) -> (r: i64)
    requires
        -COORD_LIMIT <= a <= COORD_LIMIT,
        -COORD_LIMIT <= b <= COORD_LIMIT,
        t <= len,
        len < 0x200000000,
    ensures
        r as int == lerp_axis(a as int, b as int, t as nat, len as nat),
{
    proof {
        lemma_lerp_axis_between(a as int, b as int, t as nat, len as nat);
    }
    if len == 0 {
        a
    } else if b >= a {
        let m = (b - a) as u128;
        assert(m * (t as u128) <= 0x100000000u128 * 0x200000000u128) by (nonlinear_arith)
            requires
                m <= 0x100000000u128,
                t < 0x200000000u128,
        ;
        let off = m * (t as u128) / (len as u128);
        a + off as i64
    } else {
        let m = (a - b) as u128;
        assert(m * (t as u128) <= 0x100000000u128 * 0x200000000u128) by (nonlinear_arith)
            requires
                m <= 0x100000000u128,
                t < 0x200000000u128,
        ;
        let off = m * (t as u128) / (len as u128);
        a - off as i64
    }
}

/// The point the distance `t` along the segment from `a` to `b` of length `len`.
pub fn lerp_exec(a: Point, b: Point, t: u64, len: u64) -> (r: Point)
    requires
        a.bounded(),
        b.bounded(),
        t <= len,
        len < 0x200000000,
    ensures
        (r.x as int, r.y as int) == lerp(a, b, t as nat, len as nat),
{
    Point { x: lerp_axis_exec(a.x, b.x, t, len), y: lerp_axis_exec(a.y, b.y, t, len) }
}

} // verus!
