//! The two-layer grid model: base terrain and feature overlay, the
//! one-level indirection invariant for multi-cell objects, and the
//! per-cell walkability predicate.

use vstd::prelude::*;

use crate::position::NUM_TILES;
use crate::tile_type::{tile_walkable, TileType};

verus! {

/// One level of indirection resolved: the concrete type of a cell.
pub open spec fn resolve_spec(layer: Seq<TileType>, i: int) -> TileType {
    match layer[i] {
        TileType::ReferTo(r) => layer[r as int],
        t => t,
    }
}

/// Well-formedness of one layer: full size, and every indirection cell
/// points at an in-range concrete cell, so resolving one level always
/// yields a concrete type.
pub open spec fn layer_wf(layer: Seq<TileType>) -> bool {
    &&& layer.len() == NUM_TILES as int
    &&& forall|i: int|
        0 <= i < layer.len() ==> (#[trigger] layer[i] matches TileType::ReferTo(r) ==> r
            < NUM_TILES && !(layer[r as int] is ReferTo))
}

/// A cell may be entered exactly when both layers, after indirection
/// resolution, are individually walkable.
pub open spec fn cell_open(base: Seq<TileType>, features: Seq<TileType>, i: int) -> bool {
    &&& tile_walkable(resolve_spec(base, i))
    &&& tile_walkable(resolve_spec(features, i))
}

/// The walkability of every cell of the grid, as one sequence.
pub open spec fn open_map_spec(base: Seq<TileType>, features: Seq<TileType>) -> Seq<bool> {
    Seq::new(NUM_TILES as nat, |i: int| cell_open(base, features, i))
}

/// The concrete type of a cell, with one level of indirection resolved.
pub fn resolve_at(layer: &Vec<TileType>, idx: usize) -> (t: TileType)
    requires
        layer_wf(layer@),
        idx < NUM_TILES,
    ensures
        t == resolve_spec(layer@, idx as int),
        !(t is ReferTo),
{
    match layer[idx] {
        TileType::ReferTo(r) => layer[r],
        t => t,
    }
}

/// Whether the cell at `idx` may be entered: both layers' resolved
/// types must be individually walkable.
pub fn can_enter_at(base: &Vec<TileType>, features: &Vec<TileType>, idx: usize) -> (r: bool)
    requires
        layer_wf(base@),
        layer_wf(features@),
        idx < NUM_TILES,
    ensures
        r == cell_open(base@, features@, idx as int),
{
    resolve_at(base, idx).can_player_enter() && resolve_at(features, idx).can_player_enter()
}

/// The walkability of every cell, as a vector for the pathfinder.
pub fn build_open_map(base: &Vec<TileType>, features: &Vec<TileType>) -> (open: Vec<bool>)
    requires
        layer_wf(base@),
        layer_wf(features@),
    ensures
        open@ == open_map_spec(base@, features@),
{
    let mut open: Vec<bool> = Vec::new();
    let mut i: usize = 0;
    while i < NUM_TILES
        invariant
            layer_wf(base@),
            layer_wf(features@),
            i <= NUM_TILES,
            open@.len() == i as int,
            forall|k: int| 0 <= k < i as int ==> open@[k] == cell_open(base@, features@, k),
        decreases NUM_TILES - i,
    {
        open.push(can_enter_at(base, features, i));
        i = i + 1;
    }
    proof {
        assert(open@ =~= open_map_spec(base@, features@));
    }
    open
}

} // verus!
