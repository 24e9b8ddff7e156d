//! Agent behaviour and action arbitration: per-archetype decision
//! functions that observe a consistent snapshot of the world and emit
//! action requests, and the arbiter that keeps one action per entity.
//!
//! Pursuing agents re-plan on every decision tick from the current
//! snapshot, which keeps their behaviour deterministic in the
//! snapshot instead of depending on when a field of view last
//! changed.

pub mod attack;
pub mod chase;
pub mod facing;
pub mod flee;
pub mod henry;
pub mod movement;
pub mod player;
pub mod wander;

use vstd::prelude::*;

use crate::ai::movement::{Action, ActionRequest};
use crate::cost_field::{
    best_step_spec, field_spec, is_source, source_set, StepMode,
};
use crate::fov::FieldOfView;
use crate::position::{in_bounds, index_spec, tile_index, NUM_TILES, NUM_TILES_X};

verus! {

/// The cost-field cutoff used by fleeing and chasing agents.
pub const MAX_PURSUIT_COST: u32 = 9;

/// Some watched position is inside the agent's field of view.
pub open spec fn any_visible(fov: FieldOfView, others: Seq<(i32, i32)>) -> bool {
    exists|k: int|
        0 <= k < others.len() && fov.sees((#[trigger] others[k]).0 as int, others[k].1 as int)
}

/// The cells of the watched positions that are inside the agent's
/// field of view: the sources of its pursuit cost field.
pub open spec fn visible_cell_set(fov: FieldOfView, others: Seq<(i32, i32)>) -> Set<int> {
    Set::new(
        |i: int|
            exists|k: int|
                0 <= k < others.len() && fov.sees(
                    (#[trigger] others[k]).0 as int,
                    others[k].1 as int,
                ) && index_spec(others[k].0 as int, others[k].1 as int) == i,
    )
}

/// What a pursuing agent requests: nothing when no watched position is
/// visible or no neighbouring step strictly improves the cost field
/// built from the visible ones; otherwise a one-cell move to the best
/// step, minimizing cost to chase and maximizing it to flee.
pub open spec fn step_request_spec(
    entity: u64,
    pos: (i32, i32),
    fov: FieldOfView,
    others: Seq<(i32, i32)>,
    open: Seq<bool>,
    mode: StepMode,
    priority: i32,
) -> Option<ActionRequest> {
    if !any_visible(fov, others) {
        None
    } else {
        let field = field_spec(open, visible_cell_set(fov, others), MAX_PURSUIT_COST);
        match best_step_spec(field, open, index_spec(pos.0 as int, pos.1 as int), mode) {
            Some(j) => Some(
                ActionRequest {
                    entity,
                    action: Action::Move {
                        from: pos,
                        to: (
                            (j % (NUM_TILES_X as int)) as i32,
                            (j / (NUM_TILES_X as int)) as i32,
                        ),
                        jumping: false,
                    },
                    priority,
                },
            ),
            None => None,
        }
    }
}

/// Collects the visible watched positions as cost-field sources.
pub fn visible_sources(fov: &FieldOfView, others: &Vec<(i32, i32)>) -> (starts: Vec<usize>)
    requires
        forall|k: int|
            0 <= k < others@.len() ==> in_bounds(
                (#[trigger] others@[k]).0 as int,
                others@[k].1 as int,
            ),
    ensures
        source_set(starts@) == visible_cell_set(*fov, others@),
        starts@.len() > 0 <==> any_visible(*fov, others@),
        forall|m: int| 0 <= m < starts@.len() ==> #[trigger] starts@[m] < NUM_TILES,
{
    let mut starts: Vec<usize> = Vec::new();
    let mut k: usize = 0;
    while k < others.len()
        invariant
            forall|m: int|
                0 <= m < others@.len() ==> in_bounds(
                    (#[trigger] others@[m]).0 as int,
                    others@[m].1 as int,
                ),
            k <= others@.len(),
            forall|m: int| 0 <= m < starts@.len() ==> #[trigger] starts@[m] < NUM_TILES,
            forall|i: int|
                #[trigger] is_source(starts@, i) <==> exists|m: int|
                    0 <= m < k as int && fov.sees(
                        (#[trigger] others@[m]).0 as int,
                        others@[m].1 as int,
                    ) && index_spec(others@[m].0 as int, others@[m].1 as int) == i,
            starts@.len() > 0 <==> exists|m: int|
                0 <= m < k as int && fov.sees((#[trigger] others@[m]).0 as int, others@[m].1 as int),
        decreases others@.len() - k,
    {
        let (x, y) = others[k];
        let ghost prev = starts@;
        if fov.contains(x, y) {
            let idx = tile_index(x, y);
            starts.push(idx);
            proof {
                assert forall|i: int| #[trigger] is_source(starts@, i) implies exists|m: int|
                    0 <= m < k as int + 1 && fov.sees(
                        (#[trigger] others@[m]).0 as int,
                        others@[m].1 as int,
                    ) && index_spec(others@[m].0 as int, others@[m].1 as int) == i by {
                    let w = choose|w: int| 0 <= w < starts@.len() && (starts@[w] as int) == i;
                    if w < prev.len() {
                        assert(is_source(prev, i)) by {
                            assert(prev[w] as int == i);
                        }
                    } else {
                        assert(starts@[w] == idx);
                        assert(others@[k as int].0 as int == x as int);
                    }
                }
                assert forall|i: int|
                    (exists|m: int|
                        0 <= m < k as int + 1 && fov.sees(
                            (#[trigger] others@[m]).0 as int,
                            others@[m].1 as int,
                        ) && index_spec(others@[m].0 as int, others@[m].1 as int) == i) implies
                #[trigger] is_source(starts@, i) by {
                    let m = choose|m: int|
                        0 <= m < k as int + 1 && fov.sees(
                            (#[trigger] others@[m]).0 as int,
                            others@[m].1 as int,
                        ) && index_spec(others@[m].0 as int, others@[m].1 as int) == i;
                    if m < k as int {
                        assert(is_source(prev, i));
                        let w = choose|w: int| 0 <= w < prev.len() && (prev[w] as int) == i;
                        assert(starts@[w] as int == i);
                    } else {
                        assert(starts@[starts@.len() - 1] as int == i);
                    }
                }
            }
        } else {
            proof {
                assert forall|i: int| #[trigger] is_source(starts@, i) implies exists|m: int|
                    0 <= m < k as int + 1 && fov.sees(
                        (#[trigger] others@[m]).0 as int,
                        others@[m].1 as int,
                    ) && index_spec(others@[m].0 as int, others@[m].1 as int) == i by {}
                assert forall|i: int|
                    (exists|m: int|
                        0 <= m < k as int + 1 && fov.sees(
                            (#[trigger] others@[m]).0 as int,
                            others@[m].1 as int,
                        ) && index_spec(others@[m].0 as int, others@[m].1 as int) == i) implies
                #[trigger] is_source(starts@, i) by {
                    let m = choose|m: int|
                        0 <= m < k as int + 1 && fov.sees(
                            (#[trigger] others@[m]).0 as int,
                            others@[m].1 as int,
                        ) && index_spec(others@[m].0 as int, others@[m].1 as int) == i;
                    assert(m < k as int);
                }
            }
        }
        k = k + 1;
    }
    proof {
        assert(source_set(starts@) =~= visible_cell_set(*fov, others@));
        if starts@.len() > 0 {
            assert(is_source(starts@, starts@[0] as int)) by {
                assert(starts@[0] as int == starts@[0] as int);
            }
        }
    }
    starts
}

} // verus!
