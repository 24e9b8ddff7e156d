//! The companion's behaviour: bite adjacent hostiles, chase visible
//! ones along the cost field, and otherwise trot after the player,
//! jumping obstacles when a single step is blocked.

use vstd::prelude::*;

use crate::ai::facing::Facing;
use crate::ai::{step_request_spec, visible_sources, MAX_PURSUIT_COST};
use crate::cost_field::{build_cost_field, StepMode};
use crate::fov::FieldOfView;
use crate::grid::{cell_open, open_map_spec};
use crate::position::{in_bounds, index_spec, tile_index, NUM_TILES_X};
use crate::region_map::RegionMap;

verus! {

/// Close enough to bite: Euclidean distance below 1.2 cells, which
/// over integer cells is a squared distance of at most one.
pub open spec fn in_bite_range(a: (i32, i32), b: (i32, i32)) -> bool {
    (a.0 - b.0) * (a.0 - b.0) + (a.1 - b.1) * (a.1 - b.1) <= 1
}

/// Far enough from the player to trot after them: Euclidean distance
/// above 1.6 cells, which over integer cells is a squared distance of
/// at least three.
pub open spec fn needs_follow(a: (i32, i32), b: (i32, i32)) -> bool {
    (a.0 - b.0) * (a.0 - b.0) + (a.1 - b.1) * (a.1 - b.1) >= 3
}

/// Entity `v` is a hostile within bite range of the companion.
pub open spec fn bites(hostiles: Seq<(u64, (i32, i32))>, hpos: (i32, i32), v: u64) -> bool {
    exists|k: int|
        0 <= k < hostiles.len() && (#[trigger] hostiles[k]).0 == v && in_bite_range(
            hpos,
            hostiles[k].1,
        )
}

/// The hostiles the companion bites this tick: exactly those within
/// bite range, in their snapshot order.
pub fn henry_attacks(hpos: (i32, i32), hostiles: &Vec<(u64, (i32, i32))>) -> (r: Vec<u64>)
    requires
        in_bounds(hpos.0 as int, hpos.1 as int),
        forall|k: int|
            0 <= k < hostiles@.len() ==> in_bounds(
                (#[trigger] hostiles@[k]).1.0 as int,
                hostiles@[k].1.1 as int,
            ),
    ensures
        forall|j: int| 0 <= j < r@.len() ==> bites(hostiles@, hpos, #[trigger] r@[j]),
        forall|k: int|
            0 <= k < hostiles@.len() && in_bite_range(hpos, (#[trigger] hostiles@[k]).1)
                ==> r@.contains(hostiles@[k].0),
{
    let mut r: Vec<u64> = Vec::new();
    let mut k: usize = 0;
    while k < hostiles.len()
        invariant
            in_bounds(hpos.0 as int, hpos.1 as int),
            forall|m: int|
                0 <= m < hostiles@.len() ==> in_bounds(
                    (#[trigger] hostiles@[m]).1.0 as int,
                    hostiles@[m].1.1 as int,
                ),
            k <= hostiles@.len(),
            forall|j: int| 0 <= j < r@.len() ==> bites(hostiles@, hpos, #[trigger] r@[j]),
            forall|m: int|
                0 <= m < k as int && in_bite_range(hpos, (#[trigger] hostiles@[m]).1)
                    ==> r@.contains(hostiles@[m].0),
        decreases hostiles@.len() - k,
    {
        let (e, tpos) = hostiles[k];
        let ghost prev = r@;
        let dx = hpos.0 - tpos.0;
        let dy = hpos.1 - tpos.1;
        proof {
            assert(0 <= dx * dx <= 961 && 0 <= dy * dy <= 961) by (nonlinear_arith)
                requires
                    -31 <= dx <= 31,
                    -19 <= dy <= 19,
            ;
        }
        if dx * dx + dy * dy <= 1 {
            r.push(e);
            proof {
                assert((hostiles@[k as int]).0 == r@[r@.len() - 1] && in_bite_range(
                    hpos,
                    hostiles@[k as int].1,
                ));
                assert forall|j: int| 0 <= j < r@.len() implies bites(
                    hostiles@,
                    hpos,
                    #[trigger] r@[j],
                ) by {
                    if j < prev.len() {
                        assert(r@[j] == prev[j]);
                        assert(bites(hostiles@, hpos, prev[j]));
                    } else {
                        assert((hostiles@[k as int]).0 == r@[j] && in_bite_range(
                            hpos,
                            hostiles@[k as int].1,
                        ));
                    }
                }
                assert forall|m: int|
                    0 <= m < k as int + 1 && in_bite_range(
                        hpos,
                        (#[trigger] hostiles@[m]).1,
                    ) implies r@.contains(hostiles@[m].0) by {
                    if m < k as int {
                        assert(prev.contains(hostiles@[m].0));
                        let w = choose|w: int| 0 <= w < prev.len() && prev[w] == hostiles@[m].0;
                        assert(r@[w] == hostiles@[m].0);
                    } else {
                        assert(r@[r@.len() - 1] == hostiles@[m].0);
                    }
                }
            }
        }
        k = k + 1;
    }
    r
}

/// The companion's chase step: the lowest-cost neighbouring cell of
/// the field built from the hostiles visible in its field of view, or
/// nothing when none is visible or no step strictly improves.
pub fn henry_chase(
    hpos: (i32, i32),
    fov: &FieldOfView,
    hostiles: &Vec<(i32, i32)>,
    map: &RegionMap,
) -> (r: Option<(i32, i32)>)
    requires
        map.wf(),
        in_bounds(hpos.0 as int, hpos.1 as int),
        forall|k: int|
            0 <= k < hostiles@.len() ==> in_bounds(
                (#[trigger] hostiles@[k]).0 as int,
                hostiles@[k].1 as int,
            ),
    ensures
        ({
            let open = open_map_spec(map.base_tiles@, map.features@);
            let step = step_request_spec(
                0,
                hpos,
                *fov,
                hostiles@,
                open,
                StepMode::Minimize,
                2,
            );
            match step {
                Some(req) => (req.action matches crate::ai::movement::Action::Move {
                    from,
                    to,
                    jumping,
                } && r == Some(to)),
                None => r is None,
            }
        }),
{
    let starts = visible_sources(fov, hostiles);
    if starts.len() == 0 {
        return None;
    }
    let open = map.open_map();
    let field = build_cost_field(&open, &starts, MAX_PURSUIT_COST);
    let from_idx = tile_index(hpos.0, hpos.1);
    match field.best_step(from_idx, &open, StepMode::Minimize) {
        Some(j) => Some(((j % NUM_TILES_X) as i32, (j / NUM_TILES_X) as i32)),
        None => None,
    }
}

/// Where the companion steps to keep up with the player: first tried
/// as a single step toward the player on each axis, then as a
/// two-cell jump; nothing when already close or fully blocked.
pub open spec fn follow_spec(
    h: (i32, i32),
    p: (i32, i32),
    base: Seq<crate::tile_type::TileType>,
    features: Seq<crate::tile_type::TileType>,
) -> Option<((i32, i32), bool, Facing)> {
    let enter = |x: int, y: int| in_bounds(x, y) && cell_open(base, features, index_spec(x, y));
    if !needs_follow(h, p) {
        None
    } else if h.0 < p.0 && enter(h.0 + 1, h.1 as int) {
        Some((((h.0 + 1) as i32, h.1), false, Facing::Right))
    } else if h.0 > p.0 && enter(h.0 - 1, h.1 as int) {
        Some((((h.0 - 1) as i32, h.1), false, Facing::Left))
    } else if h.1 < p.1 && enter(h.0 as int, h.1 + 1) {
        Some(((h.0, (h.1 + 1) as i32), false, Facing::Down))
    } else if h.1 > p.1 && enter(h.0 as int, h.1 - 1) {
        Some(((h.0, (h.1 - 1) as i32), false, Facing::Up))
    } else if h.0 < p.0 && enter(h.0 + 2, h.1 as int) {
        Some((((h.0 + 2) as i32, h.1), true, Facing::Right))
    } else if h.0 > p.0 && enter(h.0 - 2, h.1 as int) {
        Some((((h.0 - 2) as i32, h.1), true, Facing::Left))
    } else if h.1 < p.1 && enter(h.0 as int, h.1 + 2) {
        Some(((h.0, (h.1 + 2) as i32), true, Facing::Down))
    } else if h.1 > p.1 && enter(h.0 as int, h.1 - 2) {
        Some(((h.0, (h.1 - 2) as i32), true, Facing::Up))
    } else {
        None
    }
}

/// The companion's follow step, exactly as `follow_spec` lays it out.
pub fn henry_follow(hpos: (i32, i32), player: (i32, i32), map: &RegionMap) -> (r: Option<
    ((i32, i32), bool, Facing),
>)
    requires
        map.wf(),
        in_bounds(hpos.0 as int, hpos.1 as int),
        in_bounds(player.0 as int, player.1 as int),
    ensures
        r == follow_spec(hpos, player, map.base_tiles@, map.features@),
{
    let (x, y) = hpos;
    let dx = hpos.0 - player.0;
    let dy = hpos.1 - player.1;
    proof {
        assert(0 <= dx * dx <= 961 && 0 <= dy * dy <= 961) by (nonlinear_arith)
            requires
                -31 <= dx <= 31,
                -19 <= dy <= 19,
        ;
    }
    if dx * dx + dy * dy < 3 {
        return None;
    }
    if x < player.0 && map.can_player_enter(x + 1, y) {
        Some(((x + 1, y), false, Facing::Right))
    } else if x > player.0 && map.can_player_enter(x - 1, y) {
        Some(((x - 1, y), false, Facing::Left))
    } else if y < player.1 && map.can_player_enter(x, y + 1) {
        Some(((x, y + 1), false, Facing::Down))
    } else if y > player.1 && map.can_player_enter(x, y - 1) {
        Some(((x, y - 1), false, Facing::Up))
    } else if x < player.0 && map.can_player_enter(x + 2, y) {
        Some(((x + 2, y), true, Facing::Right))
    } else if x > player.0 && map.can_player_enter(x - 2, y) {
        Some(((x - 2, y), true, Facing::Left))
    } else if y < player.1 && map.can_player_enter(x, y + 2) {
        Some(((x, y + 2), true, Facing::Down))
    } else if y > player.1 && map.can_player_enter(x, y - 2) {
        Some(((x, y - 2), true, Facing::Up))
    } else {
        None
    }
}

} // verus!
