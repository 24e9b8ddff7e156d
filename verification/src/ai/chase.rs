//! Chase behaviour: move toward the nearest visible target along the
//! cost field built from all visible target positions.

use vstd::prelude::*;

use crate::ai::movement::{Action, ActionRequest};
use crate::ai::{step_request_spec, visible_sources, MAX_PURSUIT_COST};
use crate::cost_field::{build_cost_field, StepMode};
use crate::fov::FieldOfView;
use crate::grid::open_map_spec;
use crate::position::{in_bounds, tile_index, NUM_TILES_X};
use crate::region_map::RegionMap;

verus! {

/// The chase decision for one agent: a move request toward the
/// lowest-cost neighbouring step of the field built from the targets
/// visible in its field of view, or nothing when no target is visible
/// or no step strictly decreases the cost.
pub fn chase_after(
    entity: u64,
    pos: (i32, i32),
    fov: &FieldOfView,
    targets: &Vec<(i32, i32)>,
    map: &RegionMap,
) -> (r: Option<ActionRequest>)
    requires
        map.wf(),
        in_bounds(pos.0 as int, pos.1 as int),
        forall|k: int|
            0 <= k < targets@.len() ==> in_bounds(
                (#[trigger] targets@[k]).0 as int,
                targets@[k].1 as int,
            ),
    ensures
        r == step_request_spec(
            entity,
            pos,
            *fov,
            targets@,
            open_map_spec(map.base_tiles@, map.features@),
            StepMode::Minimize,
            2,
        ),
{
    pursuit_step(entity, pos, fov, targets, map, StepMode::Minimize, 2)
}

/// The shared pursuit step: builds the cost field from the visible
/// watched positions and asks for the best neighbouring step in the
/// given mode.
pub fn pursuit_step(
    entity: u64,
    pos: (i32, i32),
    fov: &FieldOfView,
    others: &Vec<(i32, i32)>,
    map: &RegionMap,
    mode: StepMode,
    priority: i32,
) -> (r: Option<ActionRequest>)
    requires
        map.wf(),
        in_bounds(pos.0 as int, pos.1 as int),
        forall|k: int|
            0 <= k < others@.len() ==> in_bounds(
                (#[trigger] others@[k]).0 as int,
                others@[k].1 as int,
            ),
    ensures
        r == step_request_spec(
            entity,
            pos,
            *fov,
            others@,
            open_map_spec(map.base_tiles@, map.features@),
            mode,
            priority,
        ),
{
    let starts = visible_sources(fov, others);
    if starts.len() == 0 {
        return None;
    }
    let open = map.open_map();
    let field = build_cost_field(&open, &starts, MAX_PURSUIT_COST);
    let from_idx = tile_index(pos.0, pos.1);
    match field.best_step(from_idx, &open, mode) {
        Some(j) => Some(
            ActionRequest {
                entity,
                action: Action::Move {
                    from: pos,
                    to: ((j % NUM_TILES_X) as i32, (j / NUM_TILES_X) as i32),
                    jumping: false,
                },
                priority,
            },
        ),
        None => None,
    }
}

} // verus!
