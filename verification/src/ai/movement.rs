//! Action requests, their arbitration, and the concrete directives
//! handed to the animation and combat collaborators.
//!
//! Arbitration keeps, for each entity, the request with the highest
//! priority seen in the batch; on equal priorities the request seen
//! first is kept, so resolution is deterministic in the batch order.

use vstd::prelude::*;

use crate::ai::facing::{move_facing, Facing};

verus! {

/// An action an agent wants an entity to take this tick.
#[derive(Clone, Copy, Debug, PartialEq, Eq)]
pub enum Action {
    Move { from: (i32, i32), to: (i32, i32), jumping: bool },
    WantsToAttack { from: (i32, i32), to: (i32, i32), target: u64 },
}

/// One proposal for an entity's next action, competing by priority.
#[derive(Clone, Copy, Debug, PartialEq, Eq)]
pub struct ActionRequest {
    pub entity: u64,
    pub action: Action,
    pub priority: i32,
}

/// `new` displaces `cur` only with a strictly higher priority for the
/// same entity: on a tie the request seen first stays.
pub open spec fn upgrade(cur: ActionRequest, new: ActionRequest) -> ActionRequest {
    if new.entity == cur.entity && new.priority > cur.priority {
        new
    } else {
        cur
    }
}

/// Folds the remaining requests of a batch into the current winner.
pub open spec fn pick_winner(cur: ActionRequest, reqs: Seq<ActionRequest>) -> ActionRequest
    decreases reqs.len(),
{
    if reqs.len() == 0 {
        cur
    } else {
        pick_winner(upgrade(cur, reqs[0]), reqs.drop_first())
    }
}

/// Some request of the batch concerns entity `e`.
pub open spec fn has_request(reqs: Seq<ActionRequest>, e: u64) -> bool {
    exists|k: int| 0 <= k < reqs.len() && (#[trigger] reqs[k]).entity == e
}

/// The request that wins arbitration for entity `e`: its first request
/// in the batch, displaced by each later one of strictly higher
/// priority.
pub open spec fn resolved_for(reqs: Seq<ActionRequest>, e: u64) -> ActionRequest
    recommends
        has_request(reqs, e),
    decreases reqs.len(),
{
    if reqs.len() == 0 {
        arbitrary()
    } else if reqs[0].entity == e {
        pick_winner(reqs[0], reqs.drop_first())
    } else {
        resolved_for(reqs.drop_first(), e)
    }
}

/// A batch with one more request has a request for `e` exactly when
/// the batch did, or the new request is for `e`.
proof fn lemma_has_request_push(s: Seq<ActionRequest>, r: ActionRequest, e: u64)
    ensures
        has_request(s.push(r), e) == (has_request(s, e) || r.entity == e),
{
    if has_request(s.push(r), e) {
        let k = choose|k: int| 0 <= k < s.push(r).len() && (#[trigger] s.push(r)[k]).entity == e;
        if k < s.len() {
            assert(s[k].entity == e);
        } else {
            assert(s.push(r)[k] == r);
        }
    }
    if has_request(s, e) {
        let k = choose|k: int| 0 <= k < s.len() && (#[trigger] s[k]).entity == e;
        assert(s.push(r)[k].entity == e);
    }
    if r.entity == e {
        assert(s.push(r)[s.len() as int].entity == e);
    }
}

/// Appending one request to the fold displaces the winner only by the
/// upgrade rule.
proof fn lemma_pick_winner_push(cur: ActionRequest, s: Seq<ActionRequest>, r: ActionRequest)
    ensures
        pick_winner(cur, s.push(r)) == upgrade(pick_winner(cur, s), r),
    decreases s.len(),
{
    if s.len() == 0 {
        assert(s.push(r)[0] == r);
        assert(s.push(r).drop_first() =~= Seq::<ActionRequest>::empty());
        assert(pick_winner(cur, s.push(r)) == pick_winner(
            upgrade(cur, r),
            Seq::<ActionRequest>::empty(),
        ));
        assert(pick_winner(upgrade(cur, r), Seq::<ActionRequest>::empty()) == upgrade(cur, r));
        assert(pick_winner(cur, s) == cur);
    } else {
        assert(s.push(r)[0] == s[0]);
        assert(s.push(r).drop_first() =~= s.drop_first().push(r));
        assert(pick_winner(cur, s.push(r)) == pick_winner(
            upgrade(cur, s[0]),
            s.drop_first().push(r),
        ));
        assert(pick_winner(cur, s) == pick_winner(upgrade(cur, s[0]), s.drop_first()));
        lemma_pick_winner_push(upgrade(cur, s[0]), s.drop_first(), r);
    }
}

/// Appending one request to a batch changes each entity's resolution
/// only by the upgrade rule.
proof fn lemma_resolved_push(s: Seq<ActionRequest>, r: ActionRequest, e: u64)
    ensures
        has_request(s, e) ==> resolved_for(s.push(r), e) == upgrade(resolved_for(s, e), r),
        !has_request(s, e) && r.entity == e ==> resolved_for(s.push(r), e) == r,
    decreases s.len(),
{
    lemma_has_request_push(s, r, e);
    if s.len() == 0 {
        if r.entity == e {
            assert(s.push(r)[0] == r);
            assert(s.push(r).drop_first() =~= Seq::<ActionRequest>::empty());
        }
    } else {
        assert(s.push(r)[0] == s[0]);
        assert(s.push(r).drop_first() =~= s.drop_first().push(r));
        if s[0].entity == e {
            lemma_pick_winner_push(s[0], s.drop_first(), r);
            assert(has_request(s, e)) by {
                assert(s[0].entity == e);
            }
        } else {
            lemma_resolved_push(s.drop_first(), r, e);
            assert(has_request(s, e) == has_request(s.drop_first(), e)) by {
                if has_request(s, e) {
                    let k = choose|k: int| 0 <= k < s.len() && (#[trigger] s[k]).entity == e;
                    assert(k > 0);
                    assert(s.drop_first()[k - 1].entity == e);
                }
                if has_request(s.drop_first(), e) {
                    let k = choose|k: int|
                        0 <= k < s.drop_first().len() && (#[trigger] s.drop_first()[k]).entity == e;
                    assert(s[k + 1].entity == e);
                }
            }
        }
    }
}

/// The folded winner keeps the entity, never loses priority, and is
/// either the starting request or one of the folded ones; no folded
/// request for the entity beats it.
proof fn lemma_pick_winner_props(cur: ActionRequest, s: Seq<ActionRequest>)
    ensures
        pick_winner(cur, s).entity == cur.entity,
        pick_winner(cur, s) == cur || exists|k: int|
            0 <= k < s.len() && #[trigger] s[k] == pick_winner(cur, s),
        cur.priority <= pick_winner(cur, s).priority,
        forall|k: int|
            0 <= k < s.len() && (#[trigger] s[k]).entity == cur.entity ==> s[k].priority
                <= pick_winner(cur, s).priority,
    decreases s.len(),
{
    if s.len() > 0 {
        let cur2 = upgrade(cur, s[0]);
        lemma_pick_winner_props(cur2, s.drop_first());
        let w = pick_winner(cur, s);
        assert(w == pick_winner(cur2, s.drop_first()));
        if w != cur {
            if w == cur2 {
                assert(s[0] == w);
            } else {
                let k = choose|k: int|
                    0 <= k < s.drop_first().len() && #[trigger] s.drop_first()[k] == w;
                assert(s[k + 1] == w);
            }
        }
        assert forall|k: int|
            0 <= k < s.len() && (#[trigger] s[k]).entity == cur.entity implies s[k].priority
            <= w.priority by {
            if k > 0 {
                assert(s.drop_first()[k - 1] == s[k]);
            }
        }
    }
}

/// The law of arbitration: for every entity with at least one request
/// in the batch, the resolved request is one of that entity's own
/// requests, and no request for that entity carries a strictly higher
/// priority than the resolved one.
pub proof fn lemma_winner_has_highest_priority(reqs: Seq<ActionRequest>, e: u64)
    requires
        has_request(reqs, e),
    ensures
        resolved_for(reqs, e).entity == e,
        exists|k: int| 0 <= k < reqs.len() && #[trigger] reqs[k] == resolved_for(reqs, e),
        forall|k: int|
            0 <= k < reqs.len() && (#[trigger] reqs[k]).entity == e ==> reqs[k].priority
                <= resolved_for(reqs, e).priority,
    decreases reqs.len(),
{
    let w = resolved_for(reqs, e);
    if reqs[0].entity == e {
        lemma_pick_winner_props(reqs[0], reqs.drop_first());
        if w == reqs[0] {
            assert(reqs[0] == w);
        } else {
            let k = choose|k: int|
                0 <= k < reqs.drop_first().len() && #[trigger] reqs.drop_first()[k] == w;
            assert(reqs[k + 1] == w);
        }
        assert forall|k: int|
            0 <= k < reqs.len() && (#[trigger] reqs[k]).entity == e implies reqs[k].priority
            <= w.priority by {
            if k > 0 {
                assert(reqs.drop_first()[k - 1] == reqs[k]);
            }
        }
    } else {
        assert(has_request(reqs.drop_first(), e)) by {
            let k = choose|k: int| 0 <= k < reqs.len() && (#[trigger] reqs[k]).entity == e;
            assert(k > 0);
            assert(reqs.drop_first()[k - 1].entity == e);
        }
        lemma_winner_has_highest_priority(reqs.drop_first(), e);
        let k = choose|k: int|
            0 <= k < reqs.drop_first().len() && #[trigger] reqs.drop_first()[k] == w;
        assert(reqs[k + 1] == w);
        assert forall|k2: int|
            0 <= k2 < reqs.len() && (#[trigger] reqs[k2]).entity == e implies reqs[k2].priority
            <= w.priority by {
            if k2 > 0 {
                assert(reqs.drop_first()[k2 - 1] == reqs[k2]);
            }
        }
    }
}

/// Two requests for one entity with priorities 3 and 7 always resolve
/// to the priority-7 request, in either insertion order.
pub proof fn lemma_arbitration_priority_order(r1: ActionRequest, r2: ActionRequest)
    requires
        r1.entity == r2.entity,
        r1.priority == 3,
        r2.priority == 7,
    ensures
        resolved_for(seq![r1, r2], r1.entity) == r2,
        resolved_for(seq![r2, r1], r1.entity) == r2,
    {
    let e = r1.entity;
    let a = seq![r1, r2];
    assert(a[0] == r1 && a.drop_first() =~= seq![r2]);
    assert(resolved_for(a, e) == pick_winner(r1, seq![r2]));
    assert(seq![r2].drop_first() =~= Seq::<ActionRequest>::empty());
    assert(pick_winner(r1, seq![r2]) == pick_winner(
        upgrade(r1, r2),
        Seq::<ActionRequest>::empty(),
    ));
    assert(pick_winner(upgrade(r1, r2), Seq::<ActionRequest>::empty()) == upgrade(r1, r2));
    assert(upgrade(r1, r2) == r2);
    let b = seq![r2, r1];
    assert(b[0] == r2 && b.drop_first() =~= seq![r1]);
    assert(resolved_for(b, e) == pick_winner(r2, seq![r1]));
    assert(seq![r1].drop_first() =~= Seq::<ActionRequest>::empty());
    assert(pick_winner(r2, seq![r1]) == pick_winner(
        upgrade(r2, r1),
        Seq::<ActionRequest>::empty(),
    ));
    assert(pick_winner(upgrade(r2, r1), Seq::<ActionRequest>::empty()) == upgrade(r2, r1));
    assert(upgrade(r2, r1) == r2);
}

/// Resolves a batch: at most one request survives per entity, each
/// surviving request is the arbitration winner for its entity, and
/// every entity with a request in the batch is represented.
pub fn process_actions(requests: &Vec<ActionRequest>) -> (winners: Vec<ActionRequest>)
    ensures
        forall|j: int|
            0 <= j < winners@.len() ==> has_request(requests@, (#[trigger] winners@[j]).entity)
                && winners@[j] == resolved_for(requests@, winners@[j].entity),
        forall|e: u64|
            #[trigger] has_request(requests@, e) ==> exists|j: int|
                0 <= j < winners@.len() && (#[trigger] winners@[j]).entity == e,
        forall|j1: int, j2: int|
            0 <= j1 < j2 < winners@.len() ==> winners@[j1].entity != winners@[j2].entity,
{
    let mut winners: Vec<ActionRequest> = Vec::new();
    let mut i: usize = 0;
    while i < requests.len()
        invariant
            i <= requests@.len(),
            forall|j: int|
                0 <= j < winners@.len() ==> has_request(
                    requests@.subrange(0, i as int),
                    (#[trigger] winners@[j]).entity,
                ) && winners@[j] == resolved_for(
                    requests@.subrange(0, i as int),
                    winners@[j].entity,
                ),
            forall|e: u64|
                #[trigger] has_request(requests@.subrange(0, i as int), e) ==> exists|j: int|
                    0 <= j < winners@.len() && (#[trigger] winners@[j]).entity == e,
            forall|j1: int, j2: int|
                0 <= j1 < j2 < winners@.len() ==> winners@[j1].entity != winners@[j2].entity,
        decreases requests@.len() - i,
    {
        let r = requests[i];
        let ghost prefix = requests@.subrange(0, i as int);
        let ghost winners0 = winners@;
        proof {
            assert(requests@.subrange(0, i as int + 1) =~= prefix.push(r));
        }
        let mut found = false;
        let mut j: usize = 0;
        let mut scan: usize = 0;
        while scan < winners.len()
            invariant
                scan <= winners@.len(),
                !found ==> forall|m: int|
                    0 <= m < scan as int ==> (#[trigger] winners@[m]).entity != r.entity,
                found ==> j < winners@.len() && winners@[j as int].entity == r.entity,
            decreases winners@.len() - scan,
        {
            if !found && winners[scan].entity == r.entity {
                found = true;
                j = scan;
            }
            scan = scan + 1;
        }
        proof {
            lemma_resolved_push(prefix, r, r.entity);
            lemma_has_request_push(prefix, r, r.entity);
        }
        if found {
            if winners[j].priority < r.priority {
                winners.set(j, r);
            }
            proof {
                assert(winners0[j as int].entity == r.entity);
                assert(has_request(prefix, r.entity));
                assert(winners@[j as int] == upgrade(winners0[j as int], r));
            }
        } else {
            proof {
                // No surviving winner carries this entity, so the prefix
                // held no request for it.
                if has_request(prefix, r.entity) {
                    assert(has_request(requests@.subrange(0, i as int), r.entity));
                    let j2 = choose|j2: int|
                        0 <= j2 < winners0.len() && (#[trigger] winners0[j2]).entity == r.entity;
                    assert(false);
                }
            }
            winners.push(r);
        }
        proof {
            assert forall|j2: int| 0 <= j2 < winners@.len() implies has_request(
                prefix.push(r),
                (#[trigger] winners@[j2]).entity,
            ) && winners@[j2] == resolved_for(prefix.push(r), winners@[j2].entity) by {
                let e2 = winners@[j2].entity;
                lemma_has_request_push(prefix, r, e2);
                lemma_resolved_push(prefix, r, e2);
                if j2 < winners0.len() && !(found && j2 == j as int) {
                    assert(winners@[j2] == winners0[j2]);
                    assert(has_request(prefix, e2));
                    assert(e2 != r.entity || found);
                    if e2 != r.entity {
                        assert(upgrade(resolved_for(prefix, e2), r) == resolved_for(prefix, e2));
                    }
                }
            }
            assert forall|e: u64| #[trigger] has_request(prefix.push(r), e) implies exists|j2: int|
                0 <= j2 < winners@.len() && (#[trigger] winners@[j2]).entity == e by {
                lemma_has_request_push(prefix, r, e);
                if has_request(prefix, e) {
                    let j2 = choose|j2: int|
                        0 <= j2 < winners0.len() && (#[trigger] winners0[j2]).entity == e;
                    assert(winners@[j2].entity == e);
                } else {
                    if found {
                        assert(winners@[j as int].entity == e);
                    } else {
                        assert(winners@[winners@.len() - 1].entity == e);
                    }
                }
            }
        }
        i = i + 1;
    }
    proof {
        assert(requests@.subrange(0, requests@.len() as int) =~= requests@);
    }
    winners
}

/// Entity `e` is on the list of live entities.
pub open spec fn is_live(live: Seq<u64>, e: u64) -> bool {
    exists|k: int| 0 <= k < live.len() && live[k] == e
}

/// Drops every request whose entity no longer exists, keeping the
/// order of the rest: a stale request can never resolve against the
/// wrong world.
pub fn retain_live(requests: &Vec<ActionRequest>, live: &Vec<u64>) -> (r: Vec<ActionRequest>)
    ensures
        forall|j: int|
            0 <= j < r@.len() ==> requests@.contains(#[trigger] r@[j]) && is_live(
                live@,
                r@[j].entity,
            ),
        forall|k: int|
            0 <= k < requests@.len() && is_live(live@, (#[trigger] requests@[k]).entity)
                ==> r@.contains(requests@[k]),
{
    let mut r: Vec<ActionRequest> = Vec::new();
    let mut k: usize = 0;
    while k < requests.len()
        invariant
            k <= requests@.len(),
            forall|j: int|
                0 <= j < r@.len() ==> requests@.contains(#[trigger] r@[j]) && is_live(
                    live@,
                    r@[j].entity,
                ),
            forall|m: int|
                0 <= m < k as int && is_live(live@, (#[trigger] requests@[m]).entity)
                    ==> r@.contains(requests@[m]),
        decreases requests@.len() - k,
    {
        let req = requests[k];
        let ghost prev = r@;
        let mut alive = false;
        let mut m: usize = 0;
        while m < live.len()
            invariant
                m <= live@.len(),
                alive ==> is_live(live@, req.entity),
                !alive ==> forall|w: int| 0 <= w < m as int ==> live@[w] != req.entity,
            decreases live@.len() - m,
        {
            if live[m] == req.entity {
                proof {
                    assert(live@[m as int] == req.entity);
                }
                alive = true;
            }
            m = m + 1;
        }
        if alive {
            r.push(req);
            proof {
                assert(requests@[k as int] == r@[r@.len() - 1]);
                assert(requests@.contains(r@[r@.len() - 1]));
                assert forall|m2: int|
                    0 <= m2 < k as int + 1 && is_live(
                        live@,
                        (#[trigger] requests@[m2]).entity,
                    ) implies r@.contains(requests@[m2]) by {
                    if m2 < k as int {
                        assert(prev.contains(requests@[m2]));
                        let w = choose|w: int| 0 <= w < prev.len() && prev[w] == requests@[m2];
                        assert(r@[w] == requests@[m2]);
                    } else {
                        assert(r@[r@.len() - 1] == requests@[m2]);
                    }
                }
            }
        }
        k = k + 1;
    }
    r
}

/// What the animation and combat collaborators are told to do for one
/// resolved request.
#[derive(Clone, Copy, Debug, PartialEq, Eq)]
pub enum Directive {
    Move { start: (i32, i32), end: (i32, i32), jumping: bool, facing: Facing },
    Attack { target: u64, start: (i32, i32), end: (i32, i32) },
}

/// Translates a resolved request into its concrete directive: a move
/// carries its start and end cells, its jump flag, and the facing its
/// coordinate delta implies; an attack carries its target and the same
/// cell pair for the lunge animation.
pub fn to_directive(req: &ActionRequest) -> (d: Directive)
    ensures
        req.action matches Action::Move { from, to, jumping } ==> d == (Directive::Move {
            start: from,
            end: to,
            jumping,
            facing: move_facing(from, to),
        }),
        req.action matches Action::WantsToAttack { from, to, target } ==> d == (Directive::Attack {
            target,
            start: from,
            end: to,
        }),
{
    match req.action {
        Action::Move { from, to, jumping } => {
            let facing = if from.0 < to.0 {
                Facing::Right
            } else if from.0 > to.0 {
                Facing::Left
            } else if from.1 < to.1 {
                Facing::Down
            } else if from.1 > to.1 {
                Facing::Up
            } else {
                Facing::Left
            };
            Directive::Move { start: from, end: to, jumping, facing }
        },
        Action::WantsToAttack { from, to, target } => Directive::Attack { target, start: from, end: to },
    }
}

} // verus!
