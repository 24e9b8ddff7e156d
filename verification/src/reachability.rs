//! Reachability pruning: after generation, any open cell that the
//! flood-cost computation cannot reach from the guaranteed-reachable
//! seed cells is reported, so the builder can convert it to an
//! impassable feature and leave no isolated pockets of open terrain.

use vstd::prelude::*;

use crate::cost_field::{
    build_cost_field, cost_at, field_spec, is_distance, lemma_least_exists, lemma_reachable_mono,
    adjacent, reachable_within, source_set,
};
use crate::grid::{layer_wf, open_map_spec};
use crate::position::NUM_TILES;
use crate::tile_type::TileType;

verus! {

/// The step bound of the pruning flood: as large as the grid itself,
/// so no cell's true distance can exceed it.
pub const PRUNE_DEPTH: u32 = 640;

/// A cell the pruning flood cannot reach within the prune depth.
pub open spec fn unflooded(open: Seq<bool>, sources: Set<int>, i: int) -> bool {
    !reachable_within(open, sources, i, PRUNE_DEPTH as nat)
}

/// A cell is unflooded exactly when the pruning cost field leaves it
/// unset.
pub proof fn lemma_unreached_is_unset(open: Seq<bool>, sources: Set<int>, i: int)
    ensures
        unflooded(open, sources, i) <==> cost_at(open, sources, PRUNE_DEPTH, i) is None,
{
    if !unflooded(open, sources, i) {
        lemma_least_exists(open, sources, i, PRUNE_DEPTH as nat);
    }
    if exists|n: nat| n <= PRUNE_DEPTH && #[trigger] is_distance(open, sources, i, n) {
        let n = choose|n: nat| n <= PRUNE_DEPTH && #[trigger] is_distance(open, sources, i, n);
        lemma_reachable_mono(open, sources, i, n, PRUNE_DEPTH as nat);
    }
}

/// The ascending list of cells that cannot be reached from `starts`
/// across the currently enterable cells of the two layers.
pub fn unreachable(
    base: &Vec<TileType>,
    features: &Vec<TileType>,
    starts: &Vec<usize>,
) -> (r: Vec<usize>)
    requires
        layer_wf(base@),
        layer_wf(features@),
        starts@.len() >= 1,
        forall|k: int| 0 <= k < starts@.len() ==> #[trigger] starts@[k] < NUM_TILES,
    ensures
        forall|m: int|
            0 <= m < r@.len() ==> #[trigger] r@[m] < NUM_TILES && unflooded(
                open_map_spec(base@, features@),
                source_set(starts@),
                r@[m] as int,
            ),
        forall|i: int|
            0 <= i < NUM_TILES as int && unflooded(
                open_map_spec(base@, features@),
                source_set(starts@),
                i,
            ) ==> r@.contains(i as usize),
        forall|m1: int, m2: int| 0 <= m1 < m2 < r@.len() ==> r@[m1] < r@[m2],
{
    let ghost open = open_map_spec(base@, features@);
    let ghost srcs = source_set(starts@);
    let open_map = crate::grid::build_open_map(base, features);
    let field = build_cost_field(&open_map, starts, PRUNE_DEPTH);
    let mut r: Vec<usize> = Vec::new();
    let mut i: usize = 0;
    while i < NUM_TILES
        invariant
            field.costs@ == field_spec(open, srcs, PRUNE_DEPTH),
            field.costs@.len() == NUM_TILES as int,
            i <= NUM_TILES,
            forall|m: int|
                0 <= m < r@.len() ==> #[trigger] r@[m] < i && unflooded(open, srcs, r@[m] as int),
            forall|k: int|
                0 <= k < i as int && unflooded(open, srcs, k) ==> r@.contains(k as usize),
            forall|m1: int, m2: int| 0 <= m1 < m2 < r@.len() ==> r@[m1] < r@[m2],
        decreases NUM_TILES - i,
    {
        proof {
            lemma_unreached_is_unset(open, srcs, i as int);
        }
        let ghost prev = r@;
        if field.costs[i].is_none() {
            r.push(i);
            proof {
                assert forall|k: int|
                    0 <= k < i as int + 1 && unflooded(open, srcs, k) implies r@.contains(
                    k as usize,
                ) by {
                    if k < i as int {
                        assert(prev.contains(k as usize));
                        let m = choose|m: int| 0 <= m < prev.len() && prev[m] == k as usize;
                        assert(r@[m] == k as usize);
                    } else {
                        assert(r@[r@.len() - 1] == i);
                    }
                }
            }
        }
        i = i + 1;
    }
    r
}

/// Two strictly ascending lists with the same members are the same
/// list.
proof fn lemma_sorted_same_members_equal(a: Seq<usize>, b: Seq<usize>)
    requires
        forall|m1: int, m2: int| 0 <= m1 < m2 < a.len() ==> a[m1] < a[m2],
        forall|m1: int, m2: int| 0 <= m1 < m2 < b.len() ==> b[m1] < b[m2],
        forall|v: usize| a.contains(v) <==> b.contains(v),
    ensures
        a == b,
    decreases a.len(),
{
    if a.len() == 0 {
        if b.len() > 0 {
            assert(b.contains(b[0]));
            assert(a.contains(b[0]));
            assert(false);
        }
        assert(a =~= b);
    } else {
        assert(a.contains(a[0]));
        assert(b.contains(a[0]));
        let j = choose|j: int| 0 <= j < b.len() && b[j] == a[0];
        if j > 0 {
            assert(b.contains(b[0]));
            assert(a.contains(b[0]));
            let i = choose|i: int| 0 <= i < a.len() && a[i] == b[0];
            assert(b[0] < b[j]);
            if i > 0 {
                assert(a[0] < a[i]);
            }
            assert(false);
        }
        assert(b[0] == a[0]);
        let at = a.drop_first();
        let bt = b.drop_first();
        assert forall|v: usize| at.contains(v) implies bt.contains(v) by {
            let i = choose|i: int| 0 <= i < at.len() && at[i] == v;
            assert(a[i + 1] == v);
            assert(a.contains(v));
            assert(b.contains(v));
            let j2 = choose|j2: int| 0 <= j2 < b.len() && b[j2] == v;
            assert(a[0] < a[i + 1]);
            assert(j2 > 0) by {
                if j2 == 0 {
                    assert(b[0] == v);
                }
            }
            assert(bt[j2 - 1] == v);
        }
        assert forall|v: usize| bt.contains(v) implies at.contains(v) by {
            let j2 = choose|j2: int| 0 <= j2 < bt.len() && bt[j2] == v;
            assert(b[j2 + 1] == v);
            assert(b.contains(v));
            assert(a.contains(v));
            let i = choose|i: int| 0 <= i < a.len() && a[i] == v;
            assert(b[0] < b[j2 + 1]);
            assert(i > 0) by {
                if i == 0 {
                    assert(a[0] == v);
                }
            }
            assert(at[i - 1] == v);
        }
        lemma_sorted_same_members_equal(at, bt);
        assert(a =~= Seq::empty().push(a[0]) + at);
        assert(b =~= Seq::empty().push(b[0]) + bt);
    }
}

/// The pruning report is a function of the grid and seeds alone: any
/// two lists that are strictly ascending and hold exactly the cells
/// the flood misses are the same list, so two pruning runs on equal
/// inputs return identical results.
pub proof fn lemma_pruning_deterministic(
    r1: Seq<usize>,
    r2: Seq<usize>,
    open: Seq<bool>,
    sources: Set<int>,
)
    requires
        forall|m: int|
            0 <= m < r1.len() ==> #[trigger] r1[m] < NUM_TILES && unflooded(
                open,
                sources,
                r1[m] as int,
            ),
        forall|i: int|
            0 <= i < NUM_TILES as int && unflooded(open, sources, i) ==> r1.contains(i as usize),
        forall|m1: int, m2: int| 0 <= m1 < m2 < r1.len() ==> r1[m1] < r1[m2],
        forall|m: int|
            0 <= m < r2.len() ==> #[trigger] r2[m] < NUM_TILES && unflooded(
                open,
                sources,
                r2[m] as int,
            ),
        forall|i: int|
            0 <= i < NUM_TILES as int && unflooded(open, sources, i) ==> r2.contains(i as usize),
        forall|m1: int, m2: int| 0 <= m1 < m2 < r2.len() ==> r2[m1] < r2[m2],
    ensures
        r1 == r2,
{
    assert forall|v: usize| r1.contains(v) implies r2.contains(v) by {
        let m = choose|m: int| 0 <= m < r1.len() && r1[m] == v;
        assert(r1[m] < NUM_TILES && unflooded(open, sources, r1[m] as int));
    }
    assert forall|v: usize| r2.contains(v) implies r1.contains(v) by {
        let m = choose|m: int| 0 <= m < r2.len() && r2[m] == v;
        assert(r2[m] < NUM_TILES && unflooded(open, sources, r2[m] as int));
    }
    lemma_sorted_same_members_equal(r1, r2);
}

/// Closing the unflooded cells of a grid: every open cell the flood
/// cannot reach becomes blocked; reached cells keep their walkability.
pub open spec fn pruned_open(open: Seq<bool>, sources: Set<int>) -> Seq<bool> {
    Seq::new(open.len(), |i: int| open[i] && !unflooded(open, sources, i))
}

/// Pruning does not disturb the flood itself: reachability within any
/// bound up to the prune depth is the same over the pruned grid as
/// over the original, because the flood never stepped into a cell that
/// pruning closes.
proof fn lemma_prune_preserves_reach(open: Seq<bool>, sources: Set<int>, i: int, n: nat)
    requires
        n <= PRUNE_DEPTH,
    ensures
        reachable_within(pruned_open(open, sources), sources, i, n) == reachable_within(
            open,
            sources,
            i,
            n,
        ),
    decreases n,
{
    let pruned = pruned_open(open, sources);
    if n > 0 {
        lemma_prune_preserves_reach(open, sources, i, (n - 1) as nat);
        if reachable_within(open, sources, i, n) && !reachable_within(
            open,
            sources,
            i,
            (n - 1) as nat,
        ) {
            // The cell is entered at step n, so it is reachable within the
            // prune depth and stays open after pruning.
            lemma_reachable_mono(open, sources, i, n, PRUNE_DEPTH as nat);
            assert(pruned[i]);
            let j = choose|j: int|
                #[trigger] adjacent(j, i) && reachable_within(open, sources, j, (n - 1) as nat);
            lemma_prune_preserves_reach(open, sources, j, (n - 1) as nat);
            assert(adjacent(j, i) && reachable_within(pruned, sources, j, (n - 1) as nat));
            assert(reachable_within(pruned, sources, i, n));
        }
        if reachable_within(pruned, sources, i, n) && !reachable_within(
            pruned,
            sources,
            i,
            (n - 1) as nat,
        ) {
            assert(open[i]);
            let j = choose|j: int|
                #[trigger] adjacent(j, i) && reachable_within(pruned, sources, j, (n - 1) as nat);
            lemma_prune_preserves_reach(open, sources, j, (n - 1) as nat);
            assert(adjacent(j, i) && reachable_within(open, sources, j, (n - 1) as nat));
            assert(reachable_within(open, sources, i, n));
        }
    }
}

/// Running the pruning pass on its own output changes nothing: the
/// pruned grid prunes to itself, and a second flood finds exactly the
/// same unflooded set.
pub proof fn lemma_prune_idempotent(open: Seq<bool>, sources: Set<int>)
    ensures
        pruned_open(pruned_open(open, sources), sources) == pruned_open(open, sources),
        forall|i: int|
            unflooded(pruned_open(open, sources), sources, i) == #[trigger] unflooded(
                open,
                sources,
                i,
            ),
{
    let pruned = pruned_open(open, sources);
    assert forall|i: int| unflooded(pruned, sources, i) == #[trigger] unflooded(
        open,
        sources,
        i,
    ) by {
        lemma_prune_preserves_reach(open, sources, i, PRUNE_DEPTH as nat);
    }
    assert(pruned_open(pruned, sources) =~= pruned);
}

} // verus!
