//! Idle wandering: a chicken occasionally changes its sprite frame or
//! takes a random single step onto an enterable neighbouring cell.
//! The roll-to-choice mapping is a verified function of the drawn
//! roll, so every outcome is pinned once the roll is known.

use vstd::prelude::*;

use bracket_random::prelude::RandomNumberGenerator;

use crate::ai::movement::{Action, ActionRequest};
use crate::grid::cell_open;
use crate::position::{in_bounds, index_spec};
use crate::region_map::RegionMap;
use crate::rng::rng_range;
use crate::tile_type::TileType;

verus! {

/// What an idle chicken decided to do this tick.
#[derive(Clone, Copy, Debug, PartialEq, Eq)]
pub enum ChickenChoice {
    /// Do nothing.
    Rest,
    /// Switch to the given sprite frame.
    Animate(usize),
    /// Take the requested single step.
    Step(ActionRequest),
}

/// The choice a chicken makes for each possible roll: four rolls pick
/// a sprite frame, four more try one step in a fixed direction, taken
/// only onto an enterable cell; every other roll rests.
pub open spec fn chicken_choice_spec(
    entity: u64,
    pos: (i32, i32),
    base: Seq<TileType>,
    features: Seq<TileType>,
    roll: i32,
) -> ChickenChoice {
    if roll == 1 {
        ChickenChoice::Animate(0)
    } else if roll == 2 {
        ChickenChoice::Animate(1)
    } else if roll == 3 {
        ChickenChoice::Animate(2)
    } else if roll == 4 {
        ChickenChoice::Animate(26)
    } else if 6 <= roll <= 9 {
        let d: (int, int) = if roll == 6 {
            (-1, 0)
        } else if roll == 7 {
            (1, 0)
        } else if roll == 8 {
            (0, -1)
        } else {
            (0, 1)
        };
        let tx = pos.0 + d.0;
        let ty = pos.1 + d.1;
        if in_bounds(tx, ty) && cell_open(base, features, index_spec(tx, ty)) {
            ChickenChoice::Step(
                ActionRequest {
                    entity,
                    action: Action::Move {
                        from: pos,
                        to: (tx as i32, ty as i32),
                        jumping: false,
                    },
                    priority: 1,
                },
            )
        } else {
            ChickenChoice::Rest
        }
    } else {
        ChickenChoice::Rest
    }
}

/// The chicken's choice for one drawn roll, exactly as
/// `chicken_choice_spec` lays it out.
pub fn chicken_decide(entity: u64, pos: (i32, i32), map: &RegionMap, roll: i32) -> (r:
    ChickenChoice)
    requires
        map.wf(),
        in_bounds(pos.0 as int, pos.1 as int),
        0 <= roll < 100,
    ensures
        r == chicken_choice_spec(entity, pos, map.base_tiles@, map.features@, roll),
{
    let delta: Option<(i32, i32)> = match roll {
        1 => return ChickenChoice::Animate(0),
        2 => return ChickenChoice::Animate(1),
        3 => return ChickenChoice::Animate(2),
        4 => return ChickenChoice::Animate(26),
        6 => Some((-1, 0)),
        7 => Some((1, 0)),
        8 => Some((0, -1)),
        9 => Some((0, 1)),
        _ => None,
    };
    match delta {
        Some(d) => {
            let to = (pos.0 + d.0, pos.1 + d.1);
            if map.can_player_enter(to.0, to.1) {
                ChickenChoice::Step(
                    ActionRequest {
                        entity,
                        action: Action::Move { from: pos, to, jumping: false },
                        priority: 1,
                    },
                )
            } else {
                ChickenChoice::Rest
            }
        },
        None => ChickenChoice::Rest,
    }
}

/// The idle decision for one chicken: one roll is drawn, and the
/// result is the pinned choice for that roll — so some roll under one
/// hundred accounts for whatever comes back.
pub fn chicken_ai(entity: u64, pos: (i32, i32), map: &RegionMap, rng: &mut RandomNumberGenerator)
    -> (r: ChickenChoice)
    requires
        map.wf(),
        in_bounds(pos.0 as int, pos.1 as int),
    ensures
        exists|roll: i32|
            0 <= roll < 100 && r == #[trigger] chicken_choice_spec(
                entity,
                pos,
                map.base_tiles@,
                map.features@,
                roll,
            ),
        r matches ChickenChoice::Animate(s) ==> (s == 0 || s == 1 || s == 2 || s == 26),
        r matches ChickenChoice::Step(req) ==> {
            &&& req.entity == entity
            &&& req.priority == 1
            &&& req.action matches Action::Move { from, to, jumping } && from == pos && !jumping
                && in_bounds(to.0 as int, to.1 as int) && cell_open(
                map.base_tiles@,
                map.features@,
                index_spec(to.0 as int, to.1 as int),
            ) && (to == (((pos.0 - 1) as i32), pos.1) || to == (((pos.0 + 1) as i32), pos.1) || to
                == (pos.0, ((pos.1 - 1) as i32)) || to == (pos.0, ((pos.1 + 1) as i32)))
        },
{
    let roll = rng_range(rng, 0, 100);
    let choice = chicken_decide(entity, pos, map, roll);
    proof {
        assert(choice == chicken_choice_spec(entity, pos, map.base_tiles@, map.features@, roll));
    }
    choice
}

} // verus!
