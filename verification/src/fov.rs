//! Field-of-view storage. The shadow-casting computation itself is an
//! external collaborator; this component decides when it must be rerun
//! and stores its result for every consumer of the same tick.

use vstd::prelude::*;

use crate::position::TilePosition;

verus! {

/// The visibility of one agent: a range, and the set of currently
/// visible cells, recomputed only when the owner moves.
pub struct FieldOfView {
    pub range: i32,
    pub fov_set: Vec<TilePosition>,
}

impl FieldOfView {
    /// The stored set contains the cell `(x, y)`.
    pub open spec fn sees(&self, x: int, y: int) -> bool {
        exists|k: int|
            0 <= k < self.fov_set@.len() && (#[trigger] self.fov_set@[k]).x == x
                && self.fov_set@[k].y == y
    }

    /// A fresh field of view, empty until first computed.
    pub fn new(range: i32) -> (r: FieldOfView)
        ensures
            r.range == range,
            r.fov_set@.len() == 0,
    {
        FieldOfView { range, fov_set: Vec::new() }
    }

    /// Stores a freshly computed visibility set.
    pub fn set_visible(&mut self, cells: Vec<TilePosition>)
        ensures
            final(self).range == old(self).range,
            final(self).fov_set@ == cells@,
    {
        self.fov_set = cells;
    }

    /// Whether the stored set is empty.
    pub fn is_empty(&self) -> (r: bool)
        ensures
            r == (self.fov_set@.len() == 0),
    {
        self.fov_set.len() == 0
    }

    /// Whether the cell `(x, y)` is currently visible.
    pub fn contains(&self, x: i32, y: i32) -> (r: bool)
        ensures
            r == self.sees(x as int, y as int),
    {
        let mut k: usize = 0;
        while k < self.fov_set.len()
            invariant
                k <= self.fov_set@.len(),
                forall|m: int|
                    0 <= m < k as int ==> !((#[trigger] self.fov_set@[m]).x == x as int
                        && self.fov_set@[m].y == y as int),
            decreases self.fov_set@.len() - k,
        {
            let c = self.fov_set[k];
            if c.x == x && c.y == y {
                proof {
                    assert(self.fov_set@[k as int].x == x as int && self.fov_set@[k as int].y
                        == y as int);
                }
                return true;
            }
            k = k + 1;
        }
        false
    }
}

/// When the visibility set must be recomputed: exactly when the owner
/// was just created or its position changed this tick; otherwise the
/// stored set is reused.
pub fn needs_recompute(just_created: bool, position_changed: bool) -> (r: bool)
    ensures
        r == (just_created || position_changed),
{
    just_created || position_changed
}

} // verus!
