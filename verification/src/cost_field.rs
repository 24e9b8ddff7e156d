//! Multi-source cost-field pathfinding over the fixed grid.
//!
//! A cost field maps every cell to the minimum number of 4-connected
//! steps needed to reach it from a set of source cells, stepping only
//! through open cells, bounded by a cutoff; cells beyond the cutoff are
//! left unset and treated as unreachable. `best_step` then answers
//! "best neighbouring step" queries in either direction.

use vstd::prelude::*;

use crate::position::{NUM_TILES, NUM_TILES_X};

verus! {

/// Cells `a` and `b` are 4-connected neighbours on the grid.
pub open spec fn adjacent(a: int, b: int) -> bool {
    &&& 0 <= a < NUM_TILES as int
    &&& 0 <= b < NUM_TILES as int
    &&& {
        ||| (b == a - 1 && a % (NUM_TILES_X as int) != 0)
        ||| (b == a + 1 && b % (NUM_TILES_X as int) != 0)
        ||| b == a - NUM_TILES_X as int
        ||| b == a + NUM_TILES_X as int
    }
}

/// `cell` can be reached from `sources` in at most `n` steps, stepping
/// only through open cells (a source cell itself need not be open).
pub open spec fn reachable_within(open: Seq<bool>, sources: Set<int>, cell: int, n: nat) -> bool
    decreases n,
{
    if n == 0 {
        sources.contains(cell)
    } else {
        reachable_within(open, sources, cell, (n - 1) as nat) || (0 <= cell < open.len()
            && open[cell] && exists|j: int|
            #[trigger] adjacent(j, cell) && reachable_within(open, sources, j, (n - 1) as nat))
    }
}

/// `n` is the exact distance of `cell` from the sources: reachable in
/// `n` steps and in no fewer.
pub open spec fn is_distance(open: Seq<bool>, sources: Set<int>, cell: int, n: nat) -> bool {
    &&& reachable_within(open, sources, cell, n)
    &&& (n == 0 || !reachable_within(open, sources, cell, (n - 1) as nat))
}

/// The field's value at `cell`: the exact distance when it is at most
/// `max_cost`, unset otherwise.
pub open spec fn cost_at(open: Seq<bool>, sources: Set<int>, max_cost: u32, cell: int) -> Option<
    u32,
> {
    if exists|n: nat| n <= max_cost && #[trigger] is_distance(open, sources, cell, n) {
        Some((choose|n: nat| n <= max_cost && #[trigger] is_distance(open, sources, cell, n)) as u32)
    } else {
        None
    }
}

/// The whole cost field as a sequence over all cells.
pub open spec fn field_spec(open: Seq<bool>, sources: Set<int>, max_cost: u32) -> Seq<Option<u32>> {
    Seq::new(NUM_TILES as nat, |i: int| cost_at(open, sources, max_cost, i))
}

/// The list of source indices names cell `i`.
pub open spec fn is_source(sources: Seq<usize>, i: int) -> bool {
    exists|k: int| 0 <= k < sources.len() && (sources[k] as int) == i
}

/// The set of source cells named by a list of indices.
pub open spec fn source_set(sources: Seq<usize>) -> Set<int> {
    Set::new(|i: int| is_source(sources, i))
}

/// Reachability is monotone in the step bound.
pub proof fn lemma_reachable_mono(open: Seq<bool>, sources: Set<int>, cell: int, n: nat, m: nat)
    requires
        n <= m,
        reachable_within(open, sources, cell, n),
    ensures
        reachable_within(open, sources, cell, m),
    decreases m,
{
    if m > n {
        lemma_reachable_mono(open, sources, cell, n, (m - 1) as nat);
    }
}

/// A cell has at most one exact distance.
pub proof fn lemma_distance_unique(
    open: Seq<bool>,
    sources: Set<int>,
    cell: int,
    n1: nat,
    n2: nat,
)
    requires
        is_distance(open, sources, cell, n1),
        is_distance(open, sources, cell, n2),
    ensures
        n1 == n2,
{
    if n1 < n2 {
        lemma_reachable_mono(open, sources, cell, n1, (n2 - 1) as nat);
    } else if n2 < n1 {
        lemma_reachable_mono(open, sources, cell, n2, (n1 - 1) as nat);
    }
}

/// A cell reachable within `n` steps has an exact distance of at most `n`.
pub proof fn lemma_least_exists(open: Seq<bool>, sources: Set<int>, cell: int, n: nat)
    requires
        reachable_within(open, sources, cell, n),
    ensures
        exists|c: nat| c <= n && #[trigger] is_distance(open, sources, cell, c),
    decreases n,
{
    if n == 0 {
        assert(is_distance(open, sources, cell, 0));
    } else if reachable_within(open, sources, cell, (n - 1) as nat) {
        lemma_least_exists(open, sources, cell, (n - 1) as nat);
    } else {
        assert(is_distance(open, sources, cell, n));
    }
}

/// Once one step bound adds no cell, no later bound adds any: every
/// cell reachable at all is already reachable within `r - 1` steps.
proof fn lemma_fixpoint_one(
    open: Seq<bool>,
    sources: Set<int>,
    r: nat,
    cell: int,
    m: nat,
)
    requires
        r >= 1,
        forall|i: int|
            reachable_within(open, sources, i, r) ==> #[trigger] reachable_within(
                open,
                sources,
                i,
                (r - 1) as nat,
            ),
        reachable_within(open, sources, cell, m),
    ensures
        reachable_within(open, sources, cell, (r - 1) as nat),
    decreases m,
{
    if m <= r {
        lemma_reachable_mono(open, sources, cell, m, r);
    } else {
        if reachable_within(open, sources, cell, (m - 1) as nat) {
            lemma_fixpoint_one(open, sources, r, cell, (m - 1) as nat);
        } else {
            let j = choose|j: int|
                #[trigger] adjacent(j, cell) && reachable_within(
                    open,
                    sources,
                    j,
                    (m - 1) as nat,
                );
            lemma_fixpoint_one(open, sources, r, j, (m - 1) as nat);
            lemma_reachable_mono(open, sources, j, (r - 1) as nat, (r - 1) as nat);
            assert(reachable_within(open, sources, cell, r));
        }
    }
}

/// An immutable cost field: one optional cost per cell, never mutated
/// after construction.
pub struct CostField {
    pub costs: Vec<Option<u32>>,
}

/// The value every cell is expected to hold while the field is under
/// construction: rounds below `round` are complete, and round `round`
/// itself has been applied to cells below `upto`.
spec fn cell_ok(
    open: Seq<bool>,
    sources: Set<int>,
    round: nat,
    upto: int,
    k: int,
    v: Option<u32>,
) -> bool {
    match v {
        Some(c) => is_distance(open, sources, k, c as nat) && ((c as nat) < round || ((c as nat)
            == round && k < upto)),
        None => if k < upto {
            !reachable_within(open, sources, k, round)
        } else {
            !reachable_within(open, sources, k, (round - 1) as nat)
        },
    }
}

/// True when some 4-connected neighbour of `i` currently holds cost `c`.
fn has_neighbor_with(costs: &Vec<Option<u32>>, i: usize, c: u32) -> (r: bool)
    requires
        costs@.len() == NUM_TILES as int,
        i < NUM_TILES,
    ensures
        r == exists|j: int| #[trigger] adjacent(j, i as int) && costs@[j] == Some(c),
{
    let mut found = false;
    if i % NUM_TILES_X != 0 {
        if let Some(v) = costs[i - 1] {
            if v == c {
                proof {
                    assert(adjacent(i as int - 1, i as int));
                }
                found = true;
            }
        }
    }
    if !found && (i + 1) % NUM_TILES_X != 0 {
        if let Some(v) = costs[i + 1] {
            if v == c {
                proof {
                    assert(adjacent(i as int + 1, i as int));
                }
                found = true;
            }
        }
    }
    if !found && i >= NUM_TILES_X {
        if let Some(v) = costs[i - NUM_TILES_X] {
            if v == c {
                proof {
                    assert(adjacent(i as int - NUM_TILES_X as int, i as int));
                }
                found = true;
            }
        }
    }
    if !found && i + NUM_TILES_X < NUM_TILES {
        if let Some(v) = costs[i + NUM_TILES_X] {
            if v == c {
                proof {
                    assert(adjacent(i as int + NUM_TILES_X as int, i as int));
                }
                found = true;
            }
        }
    }
    proof {
        if !found {
            assert forall|j: int| #[trigger] adjacent(j, i as int) implies costs@[j] != Some(c) by {
                assert(j == i - 1 || j == i + 1 || j == i - NUM_TILES_X as int || j == i
                    + NUM_TILES_X as int);
            }
        }
    }
    found
}

/// Builds the cost field from the given source cells outward across the
/// open cells of the grid, bounded by `max_cost`. The result is exactly
/// `field_spec(open@, source_set(sources@), max_cost)`: deterministic in
/// its inputs, with every set cell holding its exact source distance.
pub fn build_cost_field(open: &Vec<bool>, sources: &Vec<usize>, max_cost: u32) -> (f: CostField)
    requires
        open@.len() == NUM_TILES as int,
        sources@.len() >= 1,
        forall|k: int| 0 <= k < sources@.len() ==> #[trigger] sources@[k] < NUM_TILES,
    ensures
        f.costs@.len() == NUM_TILES as int,
        f.costs@ == field_spec(open@, source_set(sources@), max_cost),
{
    let ghost srcs = source_set(sources@);
    let mut costs: Vec<Option<u32>> = Vec::new();
    let mut i: usize = 0;
    while i < NUM_TILES
        invariant
            i <= NUM_TILES,
            costs@.len() == i as int,
            forall|k: int| 0 <= k < i as int ==> costs@[k] is None,
        decreases NUM_TILES - i,
    {
        costs.push(None);
        i = i + 1;
    }
    let mut s: usize = 0;
    while s < sources.len()
        invariant
            s <= sources@.len(),
            costs@.len() == NUM_TILES as int,
            forall|k: int| 0 <= k < sources@.len() ==> #[trigger] sources@[k] < NUM_TILES,
            forall|k: int|
                0 <= k < NUM_TILES as int ==> #[trigger] costs@[k] == (if exists|m: int|
                    0 <= m < s as int && (sources@[m] as int) == k {
                    Some(0u32)
                } else {
                    None
                }),
        decreases sources@.len() - s,
    {
        let idx = sources[s];
        costs.set(idx, Some(0));
        proof {
            assert forall|k: int| 0 <= k < NUM_TILES as int implies #[trigger] costs@[k] == (if
                exists|m: int| 0 <= m < s as int + 1 && (sources@[m] as int) == k {
                Some(0u32)
            } else {
                None
            }) by {
                if k == idx as int {
                    assert((sources@[s as int] as int) == k);
                }
            }
        }
        s = s + 1;
    }
    proof {
        assert forall|k: int| 0 <= k < NUM_TILES as int implies cell_ok(
            open@,
            srcs,
            1,
            0,
            k,
            costs@[k],
        ) by {
            if costs@[k] is Some {
                assert(srcs.contains(k));
                assert(reachable_within(open@, srcs, k, 0));
                assert(is_distance(open@, srcs, k, 0));
            } else {
                assert(!srcs.contains(k));
                assert(!reachable_within(open@, srcs, k, 0));
            }
        }
    }
    let mut round: u64 = 1;
    let mut done = false;
    while !done && round <= max_cost as u64
        invariant
            open@.len() == NUM_TILES as int,
            costs@.len() == NUM_TILES as int,
            1 <= round,
            round as int <= max_cost as int + 1,
            forall|c: int| #[trigger] srcs.contains(c) ==> 0 <= c < NUM_TILES as int,
            !done ==> forall|k: int|
                0 <= k < NUM_TILES as int ==> cell_ok(open@, srcs, round as nat, 0, k, costs@[k]),
            done ==> forall|k: int|
                0 <= k < NUM_TILES as int ==> #[trigger] costs@[k] == cost_at(
                    open@,
                    srcs,
                    max_cost,
                    k,
                ),
        decreases (if done {
            0int
        } else {
            max_cost as int + 1 - round as int
        }),
    {
        let mut changed = false;
        let mut i: usize = 0;
        while i < NUM_TILES
            invariant
                open@.len() == NUM_TILES as int,
                costs@.len() == NUM_TILES as int,
                1 <= round,
                round as int <= max_cost as int,
                i <= NUM_TILES,
                forall|k: int|
                    0 <= k < NUM_TILES as int ==> cell_ok(
                        open@,
                        srcs,
                        round as nat,
                        i as int,
                        k,
                        costs@[k],
                    ),
                !changed ==> forall|k: int|
                    0 <= k < i as int ==> !is_distance(open@, srcs, k, round as nat),
            decreases NUM_TILES - i,
        {
            let ghost prev = costs@;
            let mut set_here = false;
            if costs[i].is_none() && open[i] {
                if has_neighbor_with(&costs, i, (round - 1) as u32) {
                    proof {
                        let j = choose|j: int|
                            #[trigger] adjacent(j, i as int) && costs@[j] == Some(
                                (round - 1) as u32,
                            );
                        assert(cell_ok(open@, srcs, round as nat, i as int, j, costs@[j]));
                        assert(is_distance(open@, srcs, j, (round - 1) as nat));
                        assert(cell_ok(open@, srcs, round as nat, i as int, i as int, costs@[i as int]));
                        assert(reachable_within(open@, srcs, i as int, round as nat));
                        assert(!reachable_within(open@, srcs, i as int, (round - 1) as nat));
                        assert(is_distance(open@, srcs, i as int, round as nat));
                    }
                    costs.set(i, Some(round as u32));
                    set_here = true;
                    changed = true;
                }
            }
            proof {
                if !set_here {
                    assert(costs@ == prev);
                    if is_distance(open@, srcs, i as int, round as nat) {
                        // The cell would have been set: it was unset, it is
                        // open, and some neighbour holds exactly round - 1.
                        assert(cell_ok(open@, srcs, round as nat, i as int, i as int, prev[i as int]));
                        assert(reachable_within(open@, srcs, i as int, round as nat));
                        assert(!reachable_within(open@, srcs, i as int, (round - 1) as nat));
                        if let Some(c0) = prev[i as int] {
                            lemma_distance_unique(open@, srcs, i as int, c0 as nat, round as nat);
                        }
                        assert(prev[i as int] is None);
                        assert(open@[i as int]);
                        let j = choose|j: int|
                            #[trigger] adjacent(j, i as int) && reachable_within(
                                open@,
                                srcs,
                                j,
                                (round - 1) as nat,
                            );
                        lemma_least_exists(open@, srcs, j, (round - 1) as nat);
                        let c = choose|c: nat|
                            c <= (round - 1) as nat && #[trigger] is_distance(open@, srcs, j, c);
                        if c < (round - 1) as nat {
                            assert(reachable_within(open@, srcs, j, c));
                            assert(reachable_within(open@, srcs, i as int, (c + 1) as nat));
                            lemma_reachable_mono(
                                open@,
                                srcs,
                                i as int,
                                (c + 1) as nat,
                                (round - 1) as nat,
                            );
                            assert(false);
                        }
                        assert(c == (round - 1) as nat);
                        assert(cell_ok(open@, srcs, round as nat, i as int, j, prev[j]));
                        match prev[j] {
                            Some(cj) => {
                                lemma_distance_unique(open@, srcs, j, cj as nat, c);
                                assert(prev[j] == Some((round - 1) as u32));
                            },
                            None => {
                                assert(!reachable_within(open@, srcs, j, (round - 1) as nat));
                                assert(false);
                            },
                        }
                        assert(false);
                    }
                }
                assert forall|k: int| 0 <= k < NUM_TILES as int implies cell_ok(
                    open@,
                    srcs,
                    round as nat,
                    i as int + 1,
                    k,
                    costs@[k],
                ) by {
                    assert(cell_ok(open@, srcs, round as nat, i as int, k, prev[k]));
                    if k != i as int {
                        assert(costs@[k] == prev[k]);
                        if costs@[k] is None && k < i as int + 1 {
                            assert(!reachable_within(open@, srcs, k, round as nat));
                        }
                    } else {
                        if !set_here && costs@[k] is None {
                            // Round `round` does not reach this cell either.
                            if reachable_within(open@, srcs, k, round as nat) {
                                lemma_least_exists(open@, srcs, k, round as nat);
                                let c = choose|c: nat|
                                    c <= round as nat && #[trigger] is_distance(open@, srcs, k, c);
                                if c < round as nat {
                                    lemma_reachable_mono(
                                        open@,
                                        srcs,
                                        k,
                                        c,
                                        (round - 1) as nat,
                                    );
                                    assert(false);
                                }
                                assert(is_distance(open@, srcs, k, round as nat));
                                assert(false);
                            }
                        }
                    }
                }
            }
            i = i + 1;
        }
        if !changed {
            proof {
                assert forall|c: int|
                    reachable_within(open@, srcs, c, round as nat) implies #[trigger] reachable_within(
                    open@,
                    srcs,
                    c,
                    (round - 1) as nat,
                ) by {
                    if 0 <= c < NUM_TILES as int {
                        if !reachable_within(open@, srcs, c, (round - 1) as nat) {
                            assert(is_distance(open@, srcs, c, round as nat));
                            assert(false);
                        }
                    } else {
                        // Out-of-range cells are never sources and never open.
                        lemma_reach_out_of_range(open@, srcs, c, round as nat);
                    }
                }
                assert forall|k: int| 0 <= k < NUM_TILES as int implies #[trigger] costs@[k]
                    == cost_at(open@, srcs, max_cost, k) by {
                    match costs@[k] {
                        Some(c) => {
                            assert(is_distance(open@, srcs, k, c as nat));
                            assert(c < round);
                            lemma_cost_at_of_distance(open@, srcs, max_cost, k, c as nat);
                        },
                        None => {
                            assert(!reachable_within(open@, srcs, k, round as nat));
                            if exists|n: nat|
                                n <= max_cost && #[trigger] is_distance(open@, srcs, k, n) {
                                let n = choose|n: nat|
                                    n <= max_cost && #[trigger] is_distance(open@, srcs, k, n);
                                lemma_fixpoint_one(open@, srcs, round as nat, k, n);
                                lemma_reachable_mono(
                                    open@,
                                    srcs,
                                    k,
                                    (round - 1) as nat,
                                    round as nat,
                                );
                                assert(false);
                            }
                        },
                    }
                }
            }
            done = true;
        } else {
            round = round + 1;
        }
    }
    proof {
        if !done {
            assert(round as int == max_cost as int + 1);
            assert forall|k: int| 0 <= k < NUM_TILES as int implies #[trigger] costs@[k] == cost_at(
                open@,
                srcs,
                max_cost,
                k,
            ) by {
                match costs@[k] {
                    Some(c) => {
                        assert(is_distance(open@, srcs, k, c as nat));
                        assert(c < round);
                        lemma_cost_at_of_distance(open@, srcs, max_cost, k, c as nat);
                    },
                    None => {
                        assert(!reachable_within(open@, srcs, k, max_cost as nat));
                        if exists|n: nat| n <= max_cost && #[trigger] is_distance(open@, srcs, k, n) {
                            let n = choose|n: nat|
                                n <= max_cost && #[trigger] is_distance(open@, srcs, k, n);
                            lemma_reachable_mono(open@, srcs, k, n, max_cost as nat);
                            assert(false);
                        }
                    },
                }
            }
        }
        assert(costs@ =~= field_spec(open@, srcs, max_cost));
    }
    CostField { costs }
}

/// Step-query mode: toward the sources (chase) or away from them (flee).
#[derive(Clone, Copy, Debug, PartialEq, Eq, Structural)]
pub enum StepMode {
    Minimize,
    Maximize,
}

/// `a` is a strictly smaller cost than `b`, an unset cost counting as
/// infinite.
pub open spec fn cost_lt(a: Option<u32>, b: Option<u32>) -> bool {
    match (a, b) {
        (Some(x), Some(y)) => x < y,
        (Some(_), None) => true,
        (None, _) => false,
    }
}

/// Cost `a` strictly improves on cost `b` for the given mode.
pub open spec fn improves(mode: StepMode, a: Option<u32>, b: Option<u32>) -> bool {
    match mode {
        StepMode::Minimize => cost_lt(a, b),
        StepMode::Maximize => cost_lt(b, a),
    }
}

/// The in-bounds 4-connected neighbours of `from`, in the fixed
/// visitation order that breaks ties: left, right, up, down.
pub open spec fn neighbor_order(from: int) -> Seq<int> {
    let w = NUM_TILES_X as int;
    (if from % w != 0 {
        seq![from - 1]
    } else {
        Seq::empty()
    }) + (if (from + 1) % w != 0 {
        seq![from + 1]
    } else {
        Seq::empty()
    }) + (if from - w >= 0 {
        seq![from - w]
    } else {
        Seq::empty()
    }) + (if from + w < NUM_TILES as int {
        seq![from + w]
    } else {
        Seq::empty()
    })
}

/// A cell an agent could step to: open, with a set cost.
pub open spec fn candidate_ok(costs: Seq<Option<u32>>, open: Seq<bool>, j: int) -> bool {
    &&& 0 <= j < NUM_TILES as int
    &&& open[j]
    &&& costs[j] is Some
}

/// The best candidate of `cands` for the mode; on equal costs the
/// earliest candidate wins.
pub open spec fn pick_best(
    costs: Seq<Option<u32>>,
    open: Seq<bool>,
    mode: StepMode,
    cands: Seq<int>,
) -> Option<int>
    decreases cands.len(),
{
    if cands.len() == 0 {
        None
    } else {
        let rest = pick_best(costs, open, mode, cands.drop_first());
        let j = cands[0];
        if !candidate_ok(costs, open, j) {
            rest
        } else {
            match rest {
                None => Some(j),
                Some(k) => if improves(mode, costs[k], costs[j]) {
                    Some(k)
                } else {
                    Some(j)
                },
            }
        }
    }
}

/// The answer to a best-step query: the best open neighbour of `from`,
/// provided its cost strictly improves on the cost of `from` itself.
pub open spec fn best_step_spec(
    costs: Seq<Option<u32>>,
    open: Seq<bool>,
    from: int,
    mode: StepMode,
) -> Option<int> {
    match pick_best(costs, open, mode, neighbor_order(from)) {
        Some(j) => if improves(mode, costs[j], costs[from]) {
            Some(j)
        } else {
            None
        },
        None => None,
    }
}

/// A picked candidate is one of the candidates, and steppable.
proof fn lemma_pick_best_member(
    costs: Seq<Option<u32>>,
    open: Seq<bool>,
    mode: StepMode,
    cands: Seq<int>,
)
    ensures
        pick_best(costs, open, mode, cands) matches Some(j) ==> cands.contains(j) && candidate_ok(
            costs,
            open,
            j,
        ),
    decreases cands.len(),
{
    if cands.len() > 0 {
        lemma_pick_best_member(costs, open, mode, cands.drop_first());
        if let Some(j) = pick_best(costs, open, mode, cands) {
            if j == cands[0] {
                assert(cands.contains(j)) by {
                    assert(cands[0] == j);
                }
            } else {
                assert(cands.drop_first().contains(j));
                let m = choose|m: int|
                    0 <= m < cands.drop_first().len() && cands.drop_first()[m] == j;
                assert(cands[m + 1] == j);
            }
        }
    }
}

/// Whatever `best_step` returns is a 4-connected neighbour of `from`
/// whose cost strictly improves on the cost of `from`: toward the
/// sources this means a strictly smaller cost, away from them a
/// strictly larger one.
pub proof fn lemma_best_step_improves(
    costs: Seq<Option<u32>>,
    open: Seq<bool>,
    from: int,
    mode: StepMode,
    j: int,
)
    requires
        0 <= from < NUM_TILES as int,
        best_step_spec(costs, open, from, mode) == Some(j),
    ensures
        adjacent(from, j),
        candidate_ok(costs, open, j),
        improves(mode, costs[j], costs[from]),
        mode == StepMode::Minimize && costs[from] is Some ==> costs[j]->Some_0
            < costs[from]->Some_0,
        mode == StepMode::Maximize ==> costs[from] is Some && costs[j]->Some_0
            > costs[from]->Some_0,
{
    let nl = neighbor_order(from);
    lemma_pick_best_member(costs, open, mode, nl);
    assert(nl.contains(j));
    let m = choose|m: int| 0 <= m < nl.len() && nl[m] == j;
    assert(adjacent(from, j)) by {
        assert(nl[m] == j);
    }
}

/// The cost field is a function of the grid, the sources, and the
/// cutoff alone: two fields built from identical inputs are identical.
pub proof fn lemma_cost_field_deterministic(
    f1: CostField,
    f2: CostField,
    open: Seq<bool>,
    sources: Set<int>,
    max_cost: u32,
)
    requires
        f1.costs@ == field_spec(open, sources, max_cost),
        f2.costs@ == field_spec(open, sources, max_cost),
    ensures
        f1.costs@ == f2.costs@,
{
}

/// Compares two costs for the mode, an unset cost counting as infinite.
fn cost_improves(mode: StepMode, a: Option<u32>, b: Option<u32>) -> (r: bool)
    ensures
        r == improves(mode, a, b),
{
    let (x, y) = match mode {
        StepMode::Minimize => (a, b),
        StepMode::Maximize => (b, a),
    };
    match (x, y) {
        (Some(x), Some(y)) => x < y,
        (Some(_), None) => true,
        (None, _) => false,
    }
}

impl CostField {
    /// The best neighbouring step from `from` for the mode: the open
    /// neighbour with the lowest (`Minimize`) or highest (`Maximize`)
    /// set cost, visited left, right, up, down with the earliest
    /// winning ties, and only if it strictly improves on the cost of
    /// `from` itself; `None` when no neighbour does.
    pub fn best_step(&self, from: usize, open: &Vec<bool>, mode: StepMode) -> (r: Option<usize>)
        requires
            self.costs@.len() == NUM_TILES as int,
            open@.len() == NUM_TILES as int,
            from < NUM_TILES,
        ensures
            r matches Some(j) ==> j < NUM_TILES && best_step_spec(self.costs@, open@, from as int, mode)
                == Some(j as int),
            r is None ==> best_step_spec(self.costs@, open@, from as int, mode) is None,
    {
        let ghost nl = neighbor_order(from as int);
        let mut cands: Vec<usize> = Vec::new();
        if from % NUM_TILES_X != 0 {
            cands.push(from - 1);
        }
        if (from + 1) % NUM_TILES_X != 0 {
            cands.push(from + 1);
        }
        if from >= NUM_TILES_X {
            cands.push(from - NUM_TILES_X);
        }
        if from + NUM_TILES_X < NUM_TILES {
            cands.push(from + NUM_TILES_X);
        }
        proof {
            assert(cands@.map_values(|v: usize| v as int) =~= nl);
        }
        let mut best: Option<usize> = None;
        let mut k = cands.len();
        while k > 0
            invariant
                self.costs@.len() == NUM_TILES as int,
                open@.len() == NUM_TILES as int,
                k <= cands@.len(),
                cands@.map_values(|v: usize| v as int) == nl,
                forall|m: int| 0 <= m < nl.len() ==> 0 <= #[trigger] nl[m] < NUM_TILES as int,
                match best {
                    Some(b) => b < NUM_TILES && pick_best(
                        self.costs@,
                        open@,
                        mode,
                        nl.subrange(k as int, nl.len() as int),
                    ) == Some(b as int),
                    None => pick_best(
                        self.costs@,
                        open@,
                        mode,
                        nl.subrange(k as int, nl.len() as int),
                    ) is None,
                },
            decreases k,
        {
            k = k - 1;
            let j = cands[k];
            let ghost sub = nl.subrange(k as int, nl.len() as int);
            proof {
                assert(sub.drop_first() =~= nl.subrange(k as int + 1, nl.len() as int));
                assert(sub[0] == j as int);
            }
            if open[j] && self.costs[j].is_some() {
                best = match best {
                    None => Some(j),
                    Some(b) => {
                        if cost_improves(mode, self.costs[b], self.costs[j]) {
                            Some(b)
                        } else {
                            Some(j)
                        }
                    },
                };
            }
        }
        proof {
            assert(nl.subrange(0, nl.len() as int) =~= nl);
        }
        match best {
            None => None,
            Some(b) => {
                if cost_improves(mode, self.costs[b], self.costs[from]) {
                    Some(b)
                } else {
                    None
                }
            },
        }
    }
}

/// A cell index outside the grid is reachable within no bound, because
/// sources are cell indices and steps only enter in-range cells.
proof fn lemma_reach_out_of_range(open: Seq<bool>, sources: Set<int>, cell: int, n: nat)
    requires
        !(0 <= cell < NUM_TILES as int),
        open.len() == NUM_TILES as int,
        forall|i: int| #[trigger] sources.contains(i) ==> 0 <= i < NUM_TILES as int,
    ensures
        !reachable_within(open, sources, cell, n),
    decreases n,
{
    if n > 0 {
        lemma_reach_out_of_range(open, sources, cell, (n - 1) as nat);
    }
}

/// When a cell's exact distance is within the bound, the field holds it.
pub proof fn lemma_cost_at_of_distance(
    open: Seq<bool>,
    sources: Set<int>,
    max_cost: u32,
    cell: int,
    c: nat,
)
    requires
        is_distance(open, sources, cell, c),
        c <= max_cost,
    ensures
        cost_at(open, sources, max_cost, cell) == Some(c as u32),
{
    let n = choose|n: nat| n <= max_cost && #[trigger] is_distance(open, sources, cell, n);
    lemma_distance_unique(open, sources, cell, n, c);
}

} // verus!
