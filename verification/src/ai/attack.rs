//! Melee attack requests: every attacker within striking range of a
//! target pre-empts movement with a higher-priority attack.

use vstd::prelude::*;

use crate::ai::movement::{Action, ActionRequest};
use crate::position::in_bounds;

verus! {

/// Two cells are within melee range: Euclidean distance below one and
/// a half cells, which over integer cells is a squared distance of at
/// most two.
pub open spec fn in_melee_range(a: (i32, i32), b: (i32, i32)) -> bool {
    (a.0 - b.0) * (a.0 - b.0) + (a.1 - b.1) * (a.1 - b.1) <= 2
}

/// The attack request one attacker emits against one target.
pub open spec fn attack_request(me: (u64, (i32, i32)), them: (u64, (i32, i32))) -> ActionRequest {
    ActionRequest {
        entity: me.0,
        action: Action::WantsToAttack { from: me.1, to: them.1, target: them.0 },
        priority: 5,
    }
}

/// Emits one attack request for every (attacker, target) pair within
/// melee range: each emitted request comes from such a pair, and every
/// such pair is represented.
pub fn attacks(me: &Vec<(u64, (i32, i32))>, them: &Vec<(u64, (i32, i32))>) -> (r: Vec<
    ActionRequest,
>)
    requires
        forall|k: int|
            0 <= k < me@.len() ==> in_bounds((#[trigger] me@[k]).1.0 as int, me@[k].1.1 as int),
        forall|k: int|
            0 <= k < them@.len() ==> in_bounds((#[trigger] them@[k]).1.0 as int, them@[k].1.1 as int),
    ensures
        forall|j: int|
            0 <= j < r@.len() ==> exists|ka: int, kt: int|
                0 <= ka < me@.len() && 0 <= kt < them@.len() && in_melee_range(
                    me@[ka].1,
                    them@[kt].1,
                ) && #[trigger] r@[j] == attack_request(me@[ka], them@[kt]),
        forall|ka: int, kt: int|
            0 <= ka < me@.len() && 0 <= kt < them@.len() && in_melee_range(me@[ka].1, them@[kt].1)
                ==> r@.contains(#[trigger] attack_request(me@[ka], them@[kt])),
{
    let mut r: Vec<ActionRequest> = Vec::new();
    let mut a: usize = 0;
    while a < me.len()
        invariant
            forall|k: int|
                0 <= k < me@.len() ==> in_bounds((#[trigger] me@[k]).1.0 as int, me@[k].1.1 as int),
            forall|k: int|
                0 <= k < them@.len() ==> in_bounds(
                    (#[trigger] them@[k]).1.0 as int,
                    them@[k].1.1 as int,
                ),
            a <= me@.len(),
            forall|j: int|
                0 <= j < r@.len() ==> exists|ka: int, kt: int|
                    0 <= ka < me@.len() && 0 <= kt < them@.len() && in_melee_range(
                        me@[ka].1,
                        them@[kt].1,
                    ) && #[trigger] r@[j] == attack_request(me@[ka], them@[kt]),
            forall|ka: int, kt: int|
                0 <= ka < a as int && 0 <= kt < them@.len() && in_melee_range(
                    me@[ka].1,
                    them@[kt].1,
                ) ==> r@.contains(#[trigger] attack_request(me@[ka], them@[kt])),
        decreases me@.len() - a,
    {
        let (entity, my_pos) = me[a];
        let mut t: usize = 0;
        while t < them.len()
            invariant
                forall|k: int|
                    0 <= k < me@.len() ==> in_bounds(
                        (#[trigger] me@[k]).1.0 as int,
                        me@[k].1.1 as int,
                    ),
                forall|k: int|
                    0 <= k < them@.len() ==> in_bounds(
                        (#[trigger] them@[k]).1.0 as int,
                        them@[k].1.1 as int,
                    ),
                a < me@.len(),
                (entity, my_pos) == me@[a as int],
                t <= them@.len(),
                forall|j: int|
                    0 <= j < r@.len() ==> exists|ka: int, kt: int|
                        0 <= ka < me@.len() && 0 <= kt < them@.len() && in_melee_range(
                            me@[ka].1,
                            them@[kt].1,
                        ) && #[trigger] r@[j] == attack_request(me@[ka], them@[kt]),
                forall|ka: int, kt: int|
                    0 <= ka < a as int && 0 <= kt < them@.len() && in_melee_range(
                        me@[ka].1,
                        them@[kt].1,
                    ) ==> r@.contains(#[trigger] attack_request(me@[ka], them@[kt])),
                forall|kt: int|
                    0 <= kt < t as int && in_melee_range(me@[a as int].1, them@[kt].1)
                        ==> r@.contains(#[trigger] attack_request(me@[a as int], them@[kt])),
            decreases them@.len() - t,
        {
            let (target, their_pos) = them[t];
            let ghost prev = r@;
            let dx = my_pos.0 - their_pos.0;
            let dy = my_pos.1 - their_pos.1;
            proof {
                assert(0 <= dx * dx <= 961 && 0 <= dy * dy <= 961) by (nonlinear_arith)
                    requires
                        -31 <= dx <= 31,
                        -19 <= dy <= 19,
                ;
            }
            if dx * dx + dy * dy <= 2 {
                r.push(
                    ActionRequest {
                        entity,
                        action: Action::WantsToAttack {
                            from: my_pos,
                            to: their_pos,
                            target,
                        },
                        priority: 5,
                    },
                );
                proof {
                    assert(r@[r@.len() - 1] == attack_request(me@[a as int], them@[t as int]));
                    assert forall|ka: int, kt: int|
                        0 <= ka < a as int && 0 <= kt < them@.len() && in_melee_range(
                            me@[ka].1,
                            them@[kt].1,
                        ) implies r@.contains(#[trigger] attack_request(me@[ka], them@[kt])) by {
                        assert(prev.contains(attack_request(me@[ka], them@[kt])));
                        let w = choose|w: int|
                            0 <= w < prev.len() && prev[w] == attack_request(me@[ka], them@[kt]);
                        assert(r@[w] == attack_request(me@[ka], them@[kt]));
                    }
                    assert forall|kt: int|
                        0 <= kt < t as int + 1 && in_melee_range(me@[a as int].1, them@[kt].1) implies r@.contains(
                        #[trigger] attack_request(me@[a as int], them@[kt]),
                    ) by {
                        if kt < t as int {
                            assert(prev.contains(attack_request(me@[a as int], them@[kt])));
                            let w = choose|w: int|
                                0 <= w < prev.len() && prev[w] == attack_request(
                                    me@[a as int],
                                    them@[kt],
                                );
                            assert(r@[w] == attack_request(me@[a as int], them@[kt]));
                        } else {
                            assert(r@[r@.len() - 1] == attack_request(me@[a as int], them@[kt]));
                        }
                    }
                }
            }
            t = t + 1;
        }
        a = a + 1;
    }
    r
}

} // verus!
