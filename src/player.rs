//! The movable entity and its movement state machine: idle on a tile, or in
//! transition toward the centre of another tile.
use vstd::prelude::*;
use crate::geometry::{
    GridPosition, Point, dist2, dist2_exec, distance, floor_sqrt, is_floor_sqrt, isqrt,
    lemma_floor_sqrt_exists, lemma_floor_sqrt_small, lemma_lerp_axis_between, lerp, lerp_exec,
};
use crate::map::GridMap;

verus! {

/// A transition ends once the distance left is at most this much
/// (0.4 world units).
pub const ARRIVAL_EPSILON: u64 = 400;

/// A straight-line move from `from` to `target`, of length `length`, of
/// which `traveled` has been covered.
#[derive(Clone, Copy, Debug, PartialEq, Eq)]
pub struct Transition {
    pub from: Point,
    pub target: Point,
    pub length: u64,
    pub traveled: u64,
}

/// Whether an entity rests on its tile or moves toward a tile centre.
#[derive(Clone, Copy, Debug, PartialEq, Eq)]
pub enum IsMoving {
    Idle,
    Transitioning(Transition),
}

/// A movable entity: its tile, its position in world space, and its motion.
#[derive(Clone, Copy, Debug, PartialEq, Eq)]
pub struct Player {
    pub grid: GridPosition,
    pub position: Point,
    pub moving: IsMoving,
}

/// The position reached after covering `t` of a transition.
pub open spec fn point_along(tr: Transition, t: nat) -> Point {
    Point {
        x: lerp(tr.from, tr.target, t, tr.length as nat).0 as i64,
        y: lerp(tr.from, tr.target, t, tr.length as nat).1 as i64,
    }
}

impl Player {
    /// At rest the entity sits exactly on the centre of its tile; in
    /// transition it lies on the segment toward a tile centre of the map.
    pub open spec fn wf(self, map: &GridMap) -> bool {
        &&& map.wf()
        &&& map.contains_tile(self.grid)
        &&& match self.moving {
            IsMoving::Idle => self.position == map.tile_center_spec(self.grid),
            IsMoving::Transitioning(tr) => {
                &&& tr.from.bounded()
                &&& map.is_tile_center(tr.target)
                &&& tr.length == distance(tr.from, tr.target)
                &&& is_floor_sqrt(tr.length as nat, dist2(tr.from, tr.target))
                &&& tr.traveled <= tr.length
                &&& (self.position.x as int, self.position.y as int) == lerp(
                    tr.from,
                    tr.target,
                    tr.traveled as nat,
                    tr.length as nat,
                )
            },
        }
    }

    /// Starts a transition from the current position toward `target`.
    pub open spec fn begin_spec(self, target: Point) -> Player {
        Player {
            moving: IsMoving::Transitioning(
                Transition {
                    from: self.position,
                    target,
                    length: distance(self.position, target) as u64,
                    traveled: 0,
                },
            ),
            ..self
        }
    }

    /// A directional command: from rest, toward the open neighbouring tile in
    /// `direction`; otherwise nothing changes.
    pub open spec fn start_move_spec(self, map: &GridMap, direction: Option<(i32, i32)>) -> Player {
        match (self.moving, direction) {
            (IsMoving::Idle, Some((dx, dy))) => match map.neighbor_spec(self.grid, dx, dy) {
                Some(n) => self.begin_spec(map.tile_center_spec(n)),
                None => self,
            },
            _ => self,
        }
    }

    /// A click: from rest, toward the centre of the tile under a point of the
    /// map's rectangle; otherwise nothing changes.
    pub open spec fn click_spec(self, map: &GridMap, click: Point) -> Player {
        if self.moving is Idle && map.contains_point(click) {
            self.begin_spec(map.tile_center_spec(map.tile_of(click)))
        } else {
            self
        }
    }

    /// One tick of motion covering at most `step`: the entity advances along
    /// its segment and, once no more than the arrival threshold is left,
    /// lands on the target, comes to rest, and takes the target's tile.
    pub open spec fn advance_spec(self, map: &GridMap, step: nat) -> Player {
        match self.moving {
            IsMoving::Idle => self,
            IsMoving::Transitioning(tr) => {
                let t: nat = if tr.traveled + step >= tr.length {
                    tr.length as nat
                } else {
                    (tr.traveled + step) as nat
                };
                if tr.length - t <= ARRIVAL_EPSILON {
                    Player { grid: map.tile_of(tr.target), position: tr.target, moving: IsMoving::Idle }
                } else {
                    Player {
                        position: point_along(tr, t),
                        moving: IsMoving::Transitioning(Transition { traveled: t as u64, ..tr }),
                        ..self
                    }
                }
            },
        }
    }

    /// The entity after `n` ticks of `step` each.
    pub open spec fn after_ticks(self, map: &GridMap, step: nat, n: nat) -> Player
        decreases n,
    {
        if n == 0 {
            self
        } else {
            self.advance_spec(map, step).after_ticks(map, step, (n - 1) as nat)
        }
    }

    /// An entity at rest on a tile of the map.
    pub fn spawn(map: &GridMap, grid: GridPosition) -> (r: Player)
        requires
            map.wf(),
            map.contains_tile(grid),
        ensures
            r.wf(map),
            r.grid == grid,
            r.position == map.tile_center_spec(grid),
            r.moving is Idle,
    {
        let position = map.tile_center(grid);
        Player { grid, position, moving: IsMoving::Idle }
    }

    fn begin(&mut self, map: &GridMap, target: Point)
        requires
            old(self).wf(map),
            old(self).moving is Idle,
            map.is_tile_center(target),
        ensures
            *final(self) == old(self).begin_spec(target),
            final(self).wf(map),
    {
        proof {
            map.lemma_center_of_tile(self.grid);
            map.lemma_tile_of_point(target);
            map.lemma_center_of_tile(map.tile_of(target));
        }
        let n = dist2_exec(self.position, target);
        let length = isqrt(n);
        self.moving = IsMoving::Transitioning(
            Transition { from: self.position, target, length, traveled: 0 },
        );
    }

    /// Applies a directional command; see `start_move_spec`.
    pub fn start_move(&mut self, map: &GridMap, direction: Option<(i32, i32)>)
        requires
            old(self).wf(map),
        ensures
            *final(self) == old(self).start_move_spec(map, direction),
            final(self).wf(map),
            !(old(self).moving is Idle) ==> *final(self) == *old(self),
            forall|dx: i32, dy: i32|
                direction == Some((dx, dy)) && map.neighbor_spec(old(self).grid, dx, dy) is None
                    ==> *final(self) == *old(self),
    {
        if let IsMoving::Idle = self.moving {
            if let Some((dx, dy)) = direction {
                if let Some(n) = map.neighbor(self.grid, dx, dy) {
                    let target = map.tile_center(n);
                    proof {
                        map.lemma_center_of_tile(n);
                    }
                    self.begin(map, target);
                }
            }
        }
    }

    /// Applies a click at a world point; see `click_spec`.
    pub fn resolve_click(&mut self, map: &GridMap, click: Point)
        requires
            old(self).wf(map),
        ensures
            *final(self) == old(self).click_spec(map, click),
            final(self).wf(map),
            !(old(self).moving is Idle) ==> *final(self) == *old(self),
            !map.contains_point(click) ==> *final(self) == *old(self),
    {
        if let IsMoving::Idle = self.moving {
            if map.contains(click) {
                let g = map.tile_at(click);
                let target = map.tile_center(g);
                proof {
                    map.lemma_center_of_tile(g);
                }
                self.begin(map, target);
            }
        }
    }

    /// Moves the entity by one tick of at most `step`; see `advance_spec`.
    pub fn advance(&mut self, map: &GridMap, step: u64)
        requires
            old(self).wf(map),
        ensures
            *final(self) == old(self).advance_spec(map, step as nat),
            final(self).wf(map),
    {
        proof {
            lemma_advance_wf(*self, map, step as nat);
        }
        if let IsMoving::Transitioning(tr) = self.moving {
            let t: u64 = if step >= tr.length - tr.traveled {
                tr.length
            } else {
                tr.traveled + step
            };
            if tr.length - t <= ARRIVAL_EPSILON {
                proof {
                    map.lemma_tile_of_point(tr.target);
                }
                self.grid = map.tile_at(tr.target);
                self.position = tr.target;
                self.moving = IsMoving::Idle;
            } else {
                proof {
                    map.lemma_tile_of_point(tr.target);
                    map.lemma_center_of_tile(map.tile_of(tr.target));
                    lemma_dist2_small(tr.from, tr.target);
                    lemma_floor_sqrt_small(tr.length as nat, dist2(tr.from, tr.target));
                }
                self.position = lerp_exec(tr.from, tr.target, t, tr.length);
                self.moving = IsMoving::Transitioning(Transition { traveled: t, ..tr });
            }
        }
    }
}

proof fn lemma_dist2_small(a: Point, b: Point)
    requires
        a.bounded(),
        b.bounded(),
    ensures
        dist2(a, b) < 0x40000000000000000,
{
    let dx = b.x - a.x;
    let dy = b.y - a.y;
    assert(0 <= dx * dx <= 0x100000000 * 0x100000000) by (nonlinear_arith)
        requires
            -0x100000000 <= dx <= 0x100000000,
    ;
    assert(0 <= dy * dy <= 0x100000000 * 0x100000000) by (nonlinear_arith)
        requires
            -0x100000000 <= dy <= 0x100000000,
    ;
}

/// A tick keeps an entity well formed: in particular an entity that comes
/// to rest sits exactly on the centre of its tile.
pub proof fn lemma_advance_wf(p: Player, map: &GridMap, step: nat)
    requires
        p.wf(map),
    ensures
        p.advance_spec(map, step).wf(map),
{
    if let IsMoving::Transitioning(tr) = p.moving {
        let t: nat = if tr.traveled + step >= tr.length {
            tr.length as nat
        } else {
            (tr.traveled + step) as nat
        };
        map.lemma_tile_of_point(tr.target);
        map.lemma_center_of_tile(map.tile_of(tr.target));
        lemma_lerp_axis_between(tr.from.x as int, tr.target.x as int, t, tr.length as nat);
        lemma_lerp_axis_between(tr.from.y as int, tr.target.y as int, t, tr.length as nat);
    }
}

/// However many ticks pass, an entity stays well formed, and whenever it is
/// at rest its position is exactly the centre of its tile.
pub proof fn lemma_idle_consistency(p: Player, map: &GridMap, step: nat, n: nat)
    requires
        p.wf(map),
    ensures
        p.after_ticks(map, step, n).wf(map),
        p.after_ticks(map, step, n).moving is Idle ==> p.after_ticks(map, step, n).position
            == map.tile_center_spec(p.after_ticks(map, step, n).grid),
    decreases n,
{
    if n > 0 {
        lemma_advance_wf(p, map, step);
        lemma_idle_consistency(p.advance_spec(map, step), map, step, (n - 1) as nat);
    }
}

/// Starting a transition from rest toward a tile centre of the map keeps an
/// entity well formed.
pub proof fn lemma_begin_wf(p: Player, map: &GridMap, target: Point)
    requires
        p.wf(map),
        p.moving is Idle,
        map.is_tile_center(target),
    ensures
        p.begin_spec(target).wf(map),
{
    map.lemma_center_of_tile(p.grid);
    map.lemma_tile_of_point(target);
    map.lemma_center_of_tile(map.tile_of(target));
    lemma_dist2_small(p.position, target);
    lemma_floor_sqrt_exists(dist2(p.position, target));
    lemma_floor_sqrt_small(floor_sqrt(dist2(p.position, target)), dist2(p.position, target));
}

/// Directional commands and clicks keep an entity well formed, so an entity
/// that is at rest after them sits exactly on the centre of its tile.
pub proof fn lemma_commands_keep_consistency(
    p: Player,
    map: &GridMap,
    direction: Option<(i32, i32)>,
    click: Point,
)
    requires
        p.wf(map),
    ensures
        p.start_move_spec(map, direction).wf(map),
        p.click_spec(map, click).wf(map),
        p.start_move_spec(map, direction).moving is Idle ==> p.start_move_spec(map, direction).position
            == map.tile_center_spec(p.start_move_spec(map, direction).grid),
        p.click_spec(map, click).moving is Idle ==> p.click_spec(map, click).position
            == map.tile_center_spec(p.click_spec(map, click).grid),
{
    if p.moving is Idle {
        if let Some((dx, dy)) = direction {
            if let Some(n) = map.neighbor_spec(p.grid, dx, dy) {
                map.lemma_center_of_tile(n);
                lemma_begin_wf(p, map, map.tile_center_spec(n));
            }
        }
        if map.contains_point(click) {
            map.lemma_tile_of_point(click);
            map.lemma_center_of_tile(map.tile_of(click));
            lemma_begin_wf(p, map, map.tile_center_spec(map.tile_of(click)));
        }
    }
}

/// While an entity is in transition, neither a directional command nor a
/// click changes it.
pub proof fn lemma_single_flight(
    p: Player,
    map: &GridMap,
    direction: Option<(i32, i32)>,
    click: Point,
)
    requires
        p.moving is Transitioning,
    ensures
        p.start_move_spec(map, direction) == p,
        p.click_spec(map, click) == p,
{
}

/// A directional command toward a tile that is missing or blocked leaves an
/// entity at rest, and unchanged.
pub proof fn lemma_neighbor_gating(p: Player, map: &GridMap, dx: i32, dy: i32)
    requires
        p.moving is Idle,
        map.neighbor_spec(p.grid, dx, dy) is None,
    ensures
        p.start_move_spec(map, Some((dx, dy))) == p,
        p.start_move_spec(map, Some((dx, dy))).moving is Idle,
{
}

/// An entity at rest stays at rest through ticks.
pub proof fn lemma_idle_stays(p: Player, map: &GridMap, step: nat, n: nat)
    requires
        p.moving is Idle,
    ensures
        p.after_ticks(map, step, n) == p,
    decreases n,
{
    if n > 0 {
        lemma_idle_stays(p, map, step, (n - 1) as nat);
    }
}

/// Once the ticks together cover at least the distance left, an entity in
/// transition toward `T` has come to rest on `T`, and its tile is the tile
/// of the map whose centre is `T`.
pub proof fn lemma_arrival_resync(p: Player, map: &GridMap, step: nat, n: nat)
    requires
        p.wf(map),
        p.moving is Transitioning,
        n >= 1,
        n * step >= p.moving->Transitioning_0.length - p.moving->Transitioning_0.traveled,
    ensures
        p.after_ticks(map, step, n).moving is Idle,
        p.after_ticks(map, step, n).position == p.moving->Transitioning_0.target,
        map.contains_tile(p.after_ticks(map, step, n).grid),
        map.tile_center_spec(p.after_ticks(map, step, n).grid)
            == p.moving->Transitioning_0.target,
    decreases n,
{
    let tr = p.moving->Transitioning_0;
    let q = p.advance_spec(map, step);
    lemma_advance_wf(p, map, step);
    map.lemma_tile_of_point(tr.target);
    if q.moving is Idle {
        lemma_idle_stays(q, map, step, (n - 1) as nat);
    } else {
        assert(n >= 2) by {
            if n == 1 {
                assert(n * step == step) by (nonlinear_arith)
                    requires
                        n == 1,
                ;
            }
        }
        assert((n - 1) * step == n * step - step) by (nonlinear_arith);
        lemma_arrival_resync(q, map, step, (n - 1) as nat);
    }
}

} // verus!
