//! Health bookkeeping and the damage-application rule.

use vstd::prelude::*;

verus! {

/// Hit points of an actor. Valid when `0 <= current <= max`.
#[derive(Clone, Copy, Debug, PartialEq, Eq, Structural)]
pub struct Health {
    pub current: i32,
    pub max: i32,
}

impl Health {
    /// The well-formedness every live `Health` value keeps.
    pub open spec fn wf(self) -> bool {
        0 <= self.current <= self.max
    }

    /// A fresh actor at full health.
    pub fn new(max: i32) -> (h: Health)
        requires
            max >= 0,
        ensures
            h.wf(),
            h.current == max,
            h.max == max,
    {
        Health { current: max, max }
    }
}

/// What the simulation must do after one point of damage is applied.
#[derive(Clone, Copy, Debug, PartialEq, Eq, Structural)]
pub enum DamageOutcome {
    /// The victim survives with reduced health.
    Hurt,
    /// A companion actor is knocked out and recovers to full health.
    KnockedOut,
    /// The player died; the game ends.
    PlayerDead,
    /// Any other actor dies and is removed from the world.
    Despawned,
}

/// Applies one point of damage to a victim and decides its fate: a
/// companion is knocked out and restored to full health, the player's
/// death ends the game, anyone else is despawned at zero health.
pub fn apply_damage(health: &mut Health, is_companion: bool, is_player: bool) -> (out:
    DamageOutcome)
    requires
        old(health).wf(),
    ensures
        final(health).wf(),
        final(health).max == old(health).max,
        old(health).current > 1 ==> {
            &&& out == DamageOutcome::Hurt
            &&& final(health).current == old(health).current - 1
        },
        old(health).current <= 1 && is_companion ==> {
            &&& out == DamageOutcome::KnockedOut
            &&& final(health).current == old(health).max
        },
        old(health).current <= 1 && !is_companion && is_player ==> {
            &&& out == DamageOutcome::PlayerDead
            &&& final(health).current == 0
        },
        old(health).current <= 1 && !is_companion && !is_player ==> {
            &&& out == DamageOutcome::Despawned
            &&& final(health).current == 0
        },
{
    if health.current > 1 {
        health.current = health.current - 1;
        DamageOutcome::Hurt
    } else if is_companion {
        health.current = health.max;
        DamageOutcome::KnockedOut
    } else if is_player {
        health.current = 0;
        DamageOutcome::PlayerDead
    } else {
        health.current = 0;
        DamageOutcome::Despawned
    }
}

/// Rewards a killer: its maximum health grows by one and it keeps its
/// current health, saturating at the largest representable value.
pub fn reward_killer(health: &mut Health)
    requires
        old(health).wf(),
    ensures
        final(health).wf(),
        old(health).max < i32::MAX ==> final(health).max == old(health).max + 1,
        old(health).max == i32::MAX ==> final(health).max == old(health).max,
        final(health).current == old(health).current,
{
    if health.max < i32::MAX {
        health.max = health.max + 1;
    }
}

/// Advances a spike trap's blades for one decision tick: an elapsed
/// timer flips them, otherwise they hold their position.
pub fn spike_advance(extended: bool, timer_elapsed: bool) -> (r: bool)
    ensures
        r == (extended != timer_elapsed),
{
    if timer_elapsed {
        !extended
    } else {
        extended
    }
}

/// Entity `v` stands on the spike's cell.
pub open spec fn standing_on(victims: Seq<(u64, (i32, i32))>, spike_pos: (i32, i32), v: u64) -> bool {
    exists|k: int| 0 <= k < victims.len() && (#[trigger] victims[k]) == (v, spike_pos)
}

/// The victims a spike trap hits this tick: everyone standing on the
/// spike's cell, but only while the spikes are extended.
pub fn spike_hits(spike_pos: (i32, i32), extended: bool, victims: &Vec<(u64, (i32, i32))>) -> (r:
    Vec<u64>)
    ensures
        !extended ==> r@.len() == 0,
        forall|j: int| 0 <= j < r@.len() ==> standing_on(victims@, spike_pos, #[trigger] r@[j]),
        extended ==> forall|k: int|
            0 <= k < victims@.len() && (#[trigger] victims@[k]).1 == spike_pos ==> r@.contains(
                victims@[k].0,
            ),
{
    let mut r: Vec<u64> = Vec::new();
    if !extended {
        return r;
    }
    let mut k: usize = 0;
    while k < victims.len()
        invariant
            k <= victims@.len(),
            forall|j: int| 0 <= j < r@.len() ==> standing_on(victims@, spike_pos, #[trigger] r@[j]),
            forall|m: int|
                0 <= m < k as int && (#[trigger] victims@[m]).1 == spike_pos ==> r@.contains(
                    victims@[m].0,
                ),
        decreases victims@.len() - k,
    {
        let (e, pos) = victims[k];
        let ghost prev = r@;
        if pos.0 == spike_pos.0 && pos.1 == spike_pos.1 {
            r.push(e);
            proof {
                assert(victims@[k as int] == (r@[r@.len() - 1], spike_pos));
                assert forall|j: int| 0 <= j < r@.len() implies standing_on(
                    victims@,
                    spike_pos,
                    #[trigger] r@[j],
                ) by {
                    if j < prev.len() {
                        assert(r@[j] == prev[j]);
                        assert(standing_on(victims@, spike_pos, prev[j]));
                    } else {
                        assert(victims@[k as int] == (r@[j], spike_pos));
                    }
                }
                assert forall|m: int|
                    0 <= m < k as int + 1 && (#[trigger] victims@[m]).1 == spike_pos implies r@.contains(
                    victims@[m].0,
                ) by {
                    if m < k as int {
                        assert(prev.contains(victims@[m].0));
                        let w = choose|w: int| 0 <= w < prev.len() && prev[w] == victims@[m].0;
                        assert(r@[w] == victims@[m].0);
                    } else {
                        assert(r@[r@.len() - 1] == victims@[m].0);
                    }
                }
            }
        }
        k = k + 1;
    }
    r
}

} // verus!
