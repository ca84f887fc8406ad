//! One tick of the navigation core over every movable entity.
use vstd::prelude::*;
use crate::map::GridMap;
use crate::mouse_actions::ClickOnScreenEvent;
use crate::player::Player;

verus! {

/// An entity after the clicks of one tick, taken in order.
pub open spec fn clicks_spec(p: Player, map: &GridMap, events: Seq<ClickOnScreenEvent>) -> Player
    decreases events.len(),
{
    if events.len() == 0 {
        p
    } else {
        clicks_spec(p, map, events.drop_last()).click_spec(map, events.last().0)
    }
}

/// Distance covered in one tick at `speed` per second over `delta_micros`
/// microseconds, rounded down and capped at `u64::MAX`.
pub fn tick_step(speed: u64, delta_micros: u64) -> (r: u64)
    ensures
        r as int == if speed * delta_micros / 1_000_000 <= u64::MAX {
            speed * delta_micros / 1_000_000
        } else {
            u64::MAX as int
        },
{
    assert(speed as int * delta_micros as int <= 0xffff_ffff_ffff_ffff * 0xffff_ffff_ffff_ffff)
        by (nonlinear_arith)
        requires
            speed <= 0xffff_ffff_ffff_ffffu64,
            delta_micros <= 0xffff_ffff_ffff_ffffu64,
    ;
    let d = speed as u128 * delta_micros as u128 / 1_000_000;
    if d <= u64::MAX as u128 {
        d as u64
    } else {
        u64::MAX
    }
}

/// Resolves this tick's clicks against every entity: each entity at rest
/// starts toward the tile under the first click that falls in the map.
pub fn in_map_bounds(map: &GridMap, events: &Vec<ClickOnScreenEvent>, players: &mut Vec<Player>)
    requires
        forall|i: int| 0 <= i < old(players)@.len() ==> #[trigger] old(players)@[i].wf(map),
    ensures
        final(players)@.len() == old(players)@.len(),
        forall|i: int|
            0 <= i < final(players)@.len() ==> #[trigger] final(players)@[i] == clicks_spec(
                old(players)@[i],
                map,
                events@,
            ),
        forall|i: int| 0 <= i < final(players)@.len() ==> #[trigger] final(players)@[i].wf(map),
{
    let n = players.len();
    let mut i: usize = 0;
    while i < n
        invariant
            n == players@.len(),
            players@.len() == old(players)@.len(),
            i <= n,
            forall|k: int|
                0 <= k < i ==> #[trigger] players@[k] == clicks_spec(old(players)@[k], map, events@),
            forall|k: int| i <= k < n ==> #[trigger] players@[k] == old(players)@[k],
            forall|k: int| 0 <= k < n ==> #[trigger] players@[k].wf(map),
        decreases n - i,
    {
        let mut p = players[i];
        let mut j: usize = 0;
        while j < events.len()
            invariant
                j <= events@.len(),
                p == clicks_spec(old(players)@[i as int], map, events@.subrange(0, j as int)),
                p.wf(map),
            decreases events@.len() - j,
        {
            p.resolve_click(map, events[j].0);
            proof {
                assert(events@.subrange(0, j + 1).drop_last() =~= events@.subrange(0, j as int));
            }
            j = j + 1;
        }
        assert(events@.subrange(0, events@.len() as int) =~= events@);
        players.set(i, p);
        i = i + 1;
    }
}

/// Applies this tick's directional command to every entity.
pub fn start_move(map: &GridMap, direction: Option<(i32, i32)>, players: &mut Vec<Player>)
    requires
        forall|i: int| 0 <= i < old(players)@.len() ==> #[trigger] old(players)@[i].wf(map),
    ensures
        final(players)@.len() == old(players)@.len(),
        forall|i: int|
            0 <= i < final(players)@.len() ==> #[trigger] final(players)@[i]
                == old(players)@[i].start_move_spec(map, direction),
        forall|i: int| 0 <= i < final(players)@.len() ==> #[trigger] final(players)@[i].wf(map),
{
    let n = players.len();
    let mut i: usize = 0;
    while i < n
        invariant
            n == players@.len(),
            players@.len() == old(players)@.len(),
            i <= n,
            forall|k: int|
                0 <= k < i ==> #[trigger] players@[k] == old(players)@[k].start_move_spec(
                    map,
                    direction,
                ),
            forall|k: int| i <= k < n ==> #[trigger] players@[k] == old(players)@[k],
            forall|k: int| 0 <= k < n ==> #[trigger] players@[k].wf(map),
        decreases n - i,
    {
        let mut p = players[i];
        p.start_move(map, direction);
        players.set(i, p);
        i = i + 1;
    }
}

/// Moves every entity by one tick of at most `step`.
pub fn move_player(map: &GridMap, step: u64, players: &mut Vec<Player>)
    requires
        forall|i: int| 0 <= i < old(players)@.len() ==> #[trigger] old(players)@[i].wf(map),
    ensures
        final(players)@.len() == old(players)@.len(),
        forall|i: int|
            0 <= i < final(players)@.len() ==> #[trigger] final(players)@[i]
                == old(players)@[i].advance_spec(map, step as nat),
        forall|i: int| 0 <= i < final(players)@.len() ==> #[trigger] final(players)@[i].wf(map),
{
    let n = players.len();
    let mut i: usize = 0;
    while i < n
        invariant
            n == players@.len(),
            players@.len() == old(players)@.len(),
            i <= n,
            forall|k: int|
                0 <= k < i ==> #[trigger] players@[k] == old(players)@[k].advance_spec(
                    map,
                    step as nat,
                ),
            forall|k: int| i <= k < n ==> #[trigger] players@[k] == old(players)@[k],
            forall|k: int| 0 <= k < n ==> #[trigger] players@[k].wf(map),
        decreases n - i,
    {
        let mut p = players[i];
        p.advance(map, step);
        players.set(i, p);
        i = i + 1;
    }
}

/// Clicks that all fall outside the map's rectangle leave an entity as it was.
pub proof fn lemma_bounds_gating(p: Player, map: &GridMap, events: Seq<ClickOnScreenEvent>)
    requires
        forall|k: int| 0 <= k < events.len() ==> !map.contains_point(#[trigger] events[k].0),
    ensures
        clicks_spec(p, map, events) == p,
    decreases events.len(),
{
    if events.len() > 0 {
        let rest = events.drop_last();
        assert forall|k: int| 0 <= k < rest.len() implies !map.contains_point(
            #[trigger] rest[k].0,
        ) by {
            assert(rest[k] == events[k]);
        }
        lemma_bounds_gating(p, map, rest);
        assert(!map.contains_point(events[events.len() - 1].0));
    }
}

/// However many clicks come, an entity in transition is left as it was.
pub proof fn lemma_clicks_single_flight(p: Player, map: &GridMap, events: Seq<ClickOnScreenEvent>)
    requires
        p.moving is Transitioning,
    ensures
        clicks_spec(p, map, events) == p,
    decreases events.len(),
{
    if events.len() > 0 {
        lemma_clicks_single_flight(p, map, events.drop_last());
    }
}

} // verus!
