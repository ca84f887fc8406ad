//! The tile map: where the grid lies in world space, how large its tiles are,
//! how many there are, and which of them can be entered.
use vstd::prelude::*;
use crate::geometry::{COORD_LIMIT, GridPosition, Point, TileSize};

verus! {

/// Largest number of tiles a map may hold.
pub const MAX_TILES: u64 = 1048576;

/// A rectangular grid of tiles whose lower-left corner sits at `origin`.
#[derive(Debug)]
pub struct GridMap {
    pub origin: Point,
    pub tile_size: TileSize,
    pub width: u32,
    pub height: u32,
    /// Row-major flags, `true` where a tile is present and not blocked.
    pub open: Vec<bool>,
}

pub open spec fn dims_ok(origin: Point, tile_size: TileSize, width: u32, height: u32) -> bool {
    &&& tile_size.valid()
    &&& width > 0 && height > 0
    &&& width * height <= MAX_TILES
    &&& -COORD_LIMIT <= origin.x && origin.x + width * tile_size.x <= COORD_LIMIT
    &&& -COORD_LIMIT <= origin.y && origin.y + height * tile_size.y <= COORD_LIMIT
}

/// The product of two `u32` values fits in a `u64`.
pub proof fn lemma_mul_u32(a: u32, b: u32)
    ensures
        0 <= a as int * b as int <= 0xffff_fffe_0000_0001,
{
    assert(0 <= a as int * b as int <= 0xffff_ffff * 0xffff_ffff) by (nonlinear_arith)
        requires
            0 <= a <= 0xffff_ffff,
            0 <= b <= 0xffff_ffff,
    ;
}

impl GridMap {
    pub open spec fn wf(&self) -> bool {
        &&& dims_ok(self.origin, self.tile_size, self.width, self.height)
        &&& self.open@.len() == self.width * self.height
    }

    pub open spec fn contains_tile(&self, g: GridPosition) -> bool {
        g.x < self.width && g.y < self.height
    }

    pub open spec fn slot(&self, g: GridPosition) -> int {
        g.y * self.width + g.x
    }

    /// The tile exists and nothing blocks it.
    pub open spec fn is_open(&self, g: GridPosition) -> bool {
        self.contains_tile(g) && self.open@[self.slot(g)]
    }

    /// World position of a tile's centre.
    pub open spec fn tile_center_spec(&self, g: GridPosition) -> Point {
        Point {
            x: (self.origin.x + g.tile_center_spec(self.tile_size).0) as i64,
            y: (self.origin.y + g.tile_center_spec(self.tile_size).1) as i64,
        }
    }

    /// The navigable rectangle: from the origin, `width` tiles across and
    /// `height` tiles up, the far edges excluded.
    pub open spec fn contains_point(&self, p: Point) -> bool {
        &&& self.origin.x <= p.x < self.origin.x + self.width * self.tile_size.x
        &&& self.origin.y <= p.y < self.origin.y + self.height * self.tile_size.y
    }

    /// The tile under a point of the rectangle.
    pub open spec fn tile_of(&self, p: Point) -> GridPosition {
        GridPosition {
            x: ((p.x - self.origin.x) / self.tile_size.x as int) as u32,
            y: ((p.y - self.origin.y) / self.tile_size.y as int) as u32,
        }
    }

    /// A point of the rectangle that is the centre of its tile.
    pub open spec fn is_tile_center(&self, p: Point) -> bool {
        self.contains_point(p) && self.tile_center_spec(self.tile_of(p)) == p
    }

    /// The tile one step from `g` in direction `(dx, dy)`, among the eight
    /// around it, where it exists and is open.
    pub open spec fn neighbor_spec(&self, g: GridPosition, dx: i32, dy: i32) -> Option<
        GridPosition,
    > {
        let nx = g.x + dx;
        let ny = g.y + dy;
        if -1 <= dx <= 1 && -1 <= dy <= 1 && !(dx == 0 && dy == 0) && 0 <= nx < self.width && 0
            <= ny < self.height && self.is_open(GridPosition { x: nx as u32, y: ny as u32 }) {
            Some(GridPosition { x: nx as u32, y: ny as u32 })
        } else {
            None
        }
    }

    /// A map of open tiles, or `None` where the dimensions do not fit.
    pub fn new(origin: Point, tile_size: TileSize, width: u32, height: u32) -> (r: Option<GridMap>)
        ensures
            r is Some <==> dims_ok(origin, tile_size, width, height),
            r matches Some(m) ==> {
                &&& m.wf()
                &&& m.origin == origin
                &&& m.tile_size == tile_size
                &&& m.width == width
                &&& m.height == height
                &&& forall|g: GridPosition| m.contains_tile(g) ==> #[trigger] m.is_open(g)
            },
    {
        if tile_size.x == 0 || tile_size.y == 0 || width == 0 || height == 0 {
            return None;
        }
        proof {
            lemma_mul_u32(width, height);
            lemma_mul_u32(width, tile_size.x);
            lemma_mul_u32(height, tile_size.y);
        }
        let n = width as u64 * height as u64;
        if n > MAX_TILES {
            return None;
        }
        let wu = width as u64 * tile_size.x as u64;
        let hu = height as u64 * tile_size.y as u64;
        if wu > 2 * COORD_LIMIT as u64 || hu > 2 * COORD_LIMIT as u64 {
            return None;
        }
        let w = wu as i64;
        let h = hu as i64;
        if origin.x < -COORD_LIMIT || origin.x > COORD_LIMIT - w || origin.y < -COORD_LIMIT
            || origin.y > COORD_LIMIT - h {
            return None;
        }
        let mut open: Vec<bool> = Vec::new();
        let mut i: u64 = 0;
        while i < n
            invariant
                i <= n,
                open@.len() == i,
                forall|k: int| 0 <= k < i ==> open@[k],
            decreases n - i,
        {
            open.push(true);
            i = i + 1;
        }
        let m = GridMap { origin, tile_size, width, height, open };
        assert forall|g: GridPosition| m.contains_tile(g) implies #[trigger] m.is_open(g) by {
            assert(g.y * width + g.x < width * height) by (nonlinear_arith)
                requires
                    g.x < width,
                    g.y < height,
            ;
            assert(0 <= g.y * width) by (nonlinear_arith);
        }
        Some(m)
    }

    /// A map of open tiles centred on the world origin, or `None` where the
    /// dimensions do not fit.
    pub fn centered(tile_size: TileSize, width: u32, height: u32) -> (r: Option<GridMap>)
        ensures
            width * tile_size.x <= COORD_LIMIT && height * tile_size.y
                <= COORD_LIMIT ==> {
                let origin = Point {
                    x: -((width * tile_size.x) / 2) as i64,
                    y: -((height * tile_size.y) / 2) as i64,
                };
                &&& (r is Some <==> dims_ok(origin, tile_size, width, height))
                &&& r matches Some(m) ==> {
                    &&& m.wf()
                    &&& m.origin == origin
                    &&& m.tile_size == tile_size
                    &&& m.width == width
                    &&& m.height == height
                    &&& forall|g: GridPosition| m.contains_tile(g) ==> #[trigger] m.is_open(g)
                }
            },
            !(width * tile_size.x <= COORD_LIMIT && height * tile_size.y
                <= COORD_LIMIT) ==> r is None,
    {
        proof {
            lemma_mul_u32(width, tile_size.x);
            lemma_mul_u32(height, tile_size.y);
        }
        let w = width as u64 * tile_size.x as u64;
        let h = height as u64 * tile_size.y as u64;
        if w > COORD_LIMIT as u64 || h > COORD_LIMIT as u64 {
            return None;
        }
        let origin = Point { x: -((w / 2) as i64), y: -((h / 2) as i64) };
        GridMap::new(origin, tile_size, width, height)
    }

    /// Opens or blocks one tile.
    pub fn set_open(&mut self, g: GridPosition, value: bool)
        requires
            old(self).wf(),
            old(self).contains_tile(g),
        ensures
            final(self).wf(),
            final(self).origin == old(self).origin,
            final(self).tile_size == old(self).tile_size,
            final(self).width == old(self).width,
            final(self).height == old(self).height,
            final(self).is_open(g) == value,
            forall|h: GridPosition| h != g ==> #[trigger] final(self).is_open(h) == old(self).is_open(h),
    {
        proof {
            self.lemma_slot(g);
        }
        let k = g.y as usize * self.width as usize + g.x as usize;
        self.open.set(k, value);
        proof {
            assert forall|h: GridPosition| h != g implies #[trigger] self.is_open(h) == old(self).is_open(h) by {
                if old(self).contains_tile(h) {
                    old(self).lemma_slot(h);
                    old(self).lemma_slot_injective(g, h);
                }
            }
        }
    }

    pub proof fn lemma_slot(&self, g: GridPosition)
        requires
            self.wf(),
            self.contains_tile(g),
        ensures
            0 <= self.slot(g) < self.open@.len(),
            self.slot(g) < MAX_TILES,
    {
        let w = self.width;
        let hh = self.height;
        assert(g.y * w + g.x < w * hh) by (nonlinear_arith)
            requires
                g.x < w,
                g.y < hh,
        ;
        assert(0 <= g.y * w) by (nonlinear_arith);
    }

    proof fn lemma_slot_injective(&self, g: GridPosition, h: GridPosition)
        requires
            self.wf(),
            self.contains_tile(g),
            self.contains_tile(h),
            g != h,
        ensures
            self.slot(g) != self.slot(h),
    {
        let w = self.width as int;
        if g.y == h.y {
        } else if g.y < h.y {
            assert(g.y * w + g.x < h.y * w + h.x) by (nonlinear_arith)
                requires
                    g.y < h.y,
                    g.x < w,
                    0 <= h.x,
            ;
        } else {
            assert(h.y * w + h.x < g.y * w + g.x) by (nonlinear_arith)
                requires
                    h.y < g.y,
                    h.x < w,
                    0 <= g.x,
            ;
        }
    }
}

impl GridMap {
    /// A tile's centre lies inside the rectangle, is bounded, and lies under
    /// that same tile.
    pub proof fn lemma_center_of_tile(&self, g: GridPosition)
        requires
            self.wf(),
            self.contains_tile(g),
        ensures
            self.tile_center_spec(g).bounded(),
            self.is_tile_center(self.tile_center_spec(g)),
            self.tile_of(self.tile_center_spec(g)) == g,
    {
        let tx = self.tile_size.x as int;
        let ty = self.tile_size.y as int;
        let w = self.width as int;
        let h = self.height as int;
        let gx = g.x as int;
        let gy = g.y as int;
        assert(0 <= tx * gx && tx * gx + tx / 2 < tx * w) by (nonlinear_arith)
            requires
                tx > 0,
                0 <= gx < w,
        {
            assert(tx * gx + tx <= tx * w);
        }
        assert(0 <= ty * gy && ty * gy + ty / 2 < ty * h) by (nonlinear_arith)
            requires
                ty > 0,
                0 <= gy < h,
        {
            assert(ty * gy + ty <= ty * h);
        }
        vstd::arithmetic::div_mod::lemma_div_multiples_vanish_fancy(gx, tx / 2, tx);
        vstd::arithmetic::div_mod::lemma_div_multiples_vanish_fancy(gy, ty / 2, ty);
        assert(self.tile_of(self.tile_center_spec(g)) == g);
    }

    /// A point of the rectangle lies under a tile of the map.
    pub proof fn lemma_tile_of_point(&self, p: Point)
        requires
            self.wf(),
            self.contains_point(p),
        ensures
            self.contains_tile(self.tile_of(p)),
    {
        let tx = self.tile_size.x as int;
        let ty = self.tile_size.y as int;
        let ax = p.x - self.origin.x;
        let ay = p.y - self.origin.y;
        lemma_div_below(ax, tx, self.width as int);
        lemma_div_below(ay, ty, self.height as int);
    }

    /// World position of a tile's centre.
    pub fn tile_center(&self, g: GridPosition) -> (r: Point)
        requires
            self.wf(),
            self.contains_tile(g),
        ensures
            r == self.tile_center_spec(g),
            r.bounded(),
    {
        proof {
            self.lemma_center_of_tile(g);
            assert(self.tile_size.x * (g.x + 1) == self.tile_size.x * g.x + self.tile_size.x) by (nonlinear_arith);
            assert(self.tile_size.y * (g.y + 1) == self.tile_size.y * g.y + self.tile_size.y) by (nonlinear_arith);
            assert(self.tile_size.x * (g.x + 1) <= self.tile_size.x * self.width) by (nonlinear_arith)
                requires
                    g.x + 1 <= self.width,
            ;
            assert(self.tile_size.y * (g.y + 1) <= self.tile_size.y * self.height) by (nonlinear_arith)
                requires
                    g.y + 1 <= self.height,
            ;
            assert(self.tile_size.x * self.width == self.width * self.tile_size.x) by (nonlinear_arith);
            assert(self.tile_size.y * self.height == self.height * self.tile_size.y) by (nonlinear_arith);
        }
        let local = g.tile_center_translation(self.tile_size);
        assert(local.x <= self.tile_size.x * (g.x + 1));
        assert(local.y <= self.tile_size.y * (g.y + 1));
        Point { x: self.origin.x + local.x, y: self.origin.y + local.y }
    }

    /// Whether a world point lies in the navigable rectangle.
    pub fn contains(&self, p: Point) -> (r: bool)
        requires
            self.wf(),
        ensures
            r == self.contains_point(p),
    {
        proof {
            lemma_mul_u32(self.width, self.tile_size.x);
            lemma_mul_u32(self.height, self.tile_size.y);
        }
        let w = self.width as i64 * self.tile_size.x as i64;
        let h = self.height as i64 * self.tile_size.y as i64;
        self.origin.x <= p.x && p.x < self.origin.x + w && self.origin.y <= p.y && p.y
            < self.origin.y + h
    }

    /// The tile under a point of the navigable rectangle.
    pub fn tile_at(&self, p: Point) -> (r: GridPosition)
        requires
            self.wf(),
            self.contains_point(p),
        ensures
            r == self.tile_of(p),
            self.contains_tile(r),
    {
        proof {
            self.lemma_tile_of_point(p);
        }
        let x = ((p.x - self.origin.x) / self.tile_size.x as i64) as u32;
        let y = ((p.y - self.origin.y) / self.tile_size.y as i64) as u32;
        GridPosition { x, y }
    }

    /// Whether a tile exists and is open.
    pub fn tile_is_open(&self, g: GridPosition) -> (r: bool)
        requires
            self.wf(),
        ensures
            r == self.is_open(g),
    {
        if g.x < self.width && g.y < self.height {
            proof {
                self.lemma_slot(g);
            }
            self.open[g.y as usize * self.width as usize + g.x as usize]
        } else {
            false
        }
    }

    /// The open tile one step from `g` in direction `(dx, dy)`, if any.
    pub fn neighbor(&self, g: GridPosition, dx: i32, dy: i32) -> (r: Option<GridPosition>)
        requires
            self.wf(),
        ensures
            r == self.neighbor_spec(g, dx, dy),
            r matches Some(n) ==> self.contains_tile(n),
    {
        if dx < -1 || dx > 1 || dy < -1 || dy > 1 || (dx == 0 && dy == 0) {
            return None;
        }
        let nx = g.x as i64 + dx as i64;
        let ny = g.y as i64 + dy as i64;
        if nx < 0 || ny < 0 || nx > u32::MAX as i64 || ny > u32::MAX as i64 {
            return None;
        }
        let n = GridPosition { x: nx as u32, y: ny as u32 };
        if self.tile_is_open(n) {
            Some(n)
        } else {
            None
        }
    }
}

/// Where `0 <= a < n * d`, the quotient `a / d` lies in `[0, n)`.
proof fn lemma_div_below(a: int, d: int, n: int)
    requires
        d > 0,
        0 <= a < n * d,
    ensures
        0 <= a / d < n,
{
    vstd::arithmetic::div_mod::lemma_fundamental_div_mod(a, d);
    let q = a / d;
    let r = a % d;
    assert(0 <= r < d);
    assert(0 <= q < n) by (nonlinear_arith)
        requires
            a == d * q + r,
            0 <= r < d,
            0 <= a < n * d,
            d > 0,
    ;
}

} // verus!
