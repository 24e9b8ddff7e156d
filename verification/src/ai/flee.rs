//! Flee behaviour: move away from every visible frightening position
//! along the cost field built from them.

use vstd::prelude::*;

use crate::ai::chase::pursuit_step;
use crate::ai::movement::ActionRequest;
use crate::ai::step_request_spec;
use crate::cost_field::StepMode;
use crate::fov::FieldOfView;
use crate::grid::open_map_spec;
use crate::position::in_bounds;
use crate::region_map::RegionMap;

verus! {

/// The flee decision for one agent: a move request toward the
/// highest-cost neighbouring step of the field built from the scary
/// positions visible in its field of view, or nothing when none is
/// visible or no step strictly increases the cost.
pub fn flee_from(
    entity: u64,
    pos: (i32, i32),
    fov: &FieldOfView,
    scary: &Vec<(i32, i32)>,
    map: &RegionMap,
) -> (r: Option<ActionRequest>)
    requires
        map.wf(),
        in_bounds(pos.0 as int, pos.1 as int),
        forall|k: int|
            0 <= k < scary@.len() ==> in_bounds(
                (#[trigger] scary@[k]).0 as int,
                scary@[k].1 as int,
            ),
    ensures
        r == step_request_spec(
            entity,
            pos,
            *fov,
            scary@,
            open_map_spec(map.base_tiles@, map.features@),
            StepMode::Maximize,
            2,
        ),
{
    pursuit_step(entity, pos, fov, scary, map, StepMode::Maximize, 2)
}

} // verus!
