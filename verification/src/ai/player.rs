//! The player's behaviour: translating distilled input into a move or
//! jump request, winning on the golden egg, and the context action
//! that attacks an adjacent hostile or probes the faced cell.

use vstd::prelude::*;

use crate::ai::facing::Facing;
use crate::ai::movement::{Action, ActionRequest};
use crate::grid::cell_open;
use crate::position::{in_bounds, index_spec, NUM_TILES_X, NUM_TILES_Y};
use crate::region_map::RegionMap;
use crate::tile_type::TileType;

verus! {

/// The player's distilled movement input for one tick; reading the
/// keyboard is the input collaborator's job.
#[derive(Clone, Copy, Debug, PartialEq, Eq, Structural)]
pub enum PlayerInput {
    /// A held direction: a one-cell walk that also turns the player.
    Walk(Facing),
    /// The jump key: a two-cell leap in the current facing.
    Jump,
    /// No movement input.
    Idle,
}

/// What the player's movement resolves to this tick.
#[derive(Clone, Copy, Debug, PartialEq, Eq)]
pub enum PlayerMove {
    /// The destination holds the golden egg: the game is won.
    Won,
    /// An ordinary move request for the arbiter.
    Request(ActionRequest),
    /// No movement: blocked, or no input.
    Stay,
}

/// Clamps a coordinate onto the grid.
pub open spec fn clamp_spec(v: int, max: int) -> int {
    if v < 0 {
        0
    } else if v > max {
        max
    } else {
        v
    }
}

/// The coordinate delta of one input, from the player's facing.
pub open spec fn input_delta(input: PlayerInput, facing: Facing) -> (int, int) {
    match input {
        PlayerInput::Walk(d) => match d {
            Facing::Left => (-1, 0),
            Facing::Right => (1, 0),
            Facing::Up => (0, -1),
            Facing::Down => (0, 1),
        },
        PlayerInput::Jump => match facing {
            Facing::Left => (-2, 0),
            Facing::Right => (2, 0),
            Facing::Up => (0, -2),
            Facing::Down => (0, 2),
        },
        PlayerInput::Idle => (0, 0),
    }
}

/// The outcome of one movement tick: the new facing, and either a
/// win, a move request, or standing still.
pub open spec fn player_move_spec(
    entity: u64,
    pos: (i32, i32),
    facing: Facing,
    input: PlayerInput,
    base: Seq<TileType>,
    features: Seq<TileType>,
) -> (Facing, PlayerMove) {
    let new_facing = match input {
        PlayerInput::Walk(d) => d,
        _ => facing,
    };
    let delta = input_delta(input, new_facing);
    let dest = (
        clamp_spec(pos.0 + delta.0, NUM_TILES_X as int - 1),
        clamp_spec(pos.1 + delta.1, NUM_TILES_Y as int - 1),
    );
    if delta == (0int, 0int) {
        (new_facing, PlayerMove::Stay)
    } else if !cell_open(base, features, index_spec(dest.0, dest.1)) {
        (new_facing, PlayerMove::Stay)
    } else if features[index_spec(dest.0, dest.1)] == TileType::GoldEgg {
        (new_facing, PlayerMove::Won)
    } else {
        (
            new_facing,
            PlayerMove::Request(
                ActionRequest {
                    entity,
                    action: Action::Move {
                        from: pos,
                        to: (dest.0 as i32, dest.1 as i32),
                        jumping: input is Jump,
                    },
                    priority: 1,
                },
            ),
        )
    }
}

/// Resolves one tick of player movement, exactly as
/// `player_move_spec` lays it out.
pub fn player_movement(
    entity: u64,
    pos: (i32, i32),
    facing: Facing,
    input: PlayerInput,
    map: &RegionMap,
) -> (r: (Facing, PlayerMove))
    requires
        map.wf(),
        in_bounds(pos.0 as int, pos.1 as int),
    ensures
        r == player_move_spec(entity, pos, facing, input, map.base_tiles@, map.features@),
{
    let new_facing = match input {
        PlayerInput::Walk(d) => d,
        _ => facing,
    };
    let delta: (i32, i32) = match input {
        PlayerInput::Walk(_) => match new_facing {
            Facing::Left => (-1, 0),
            Facing::Right => (1, 0),
            Facing::Up => (0, -1),
            Facing::Down => (0, 1),
        },
        PlayerInput::Jump => match new_facing {
            Facing::Left => (-2, 0),
            Facing::Right => (2, 0),
            Facing::Up => (0, -2),
            Facing::Down => (0, 2),
        },
        PlayerInput::Idle => (0, 0),
    };
    if delta.0 == 0 && delta.1 == 0 {
        return (new_facing, PlayerMove::Stay);
    }
    let mut dx = pos.0 + delta.0;
    if dx < 0 {
        dx = 0;
    }
    if dx > NUM_TILES_X as i32 - 1 {
        dx = NUM_TILES_X as i32 - 1;
    }
    let mut dy = pos.1 + delta.1;
    if dy < 0 {
        dy = 0;
    }
    if dy > NUM_TILES_Y as i32 - 1 {
        dy = NUM_TILES_Y as i32 - 1;
    }
    if !map.can_player_enter(dx, dy) {
        return (new_facing, PlayerMove::Stay);
    }
    let idx = crate::position::tile_index(dx, dy);
    if map.features[idx] == TileType::GoldEgg {
        (new_facing, PlayerMove::Won)
    } else {
        (
            new_facing,
            PlayerMove::Request(
                ActionRequest {
                    entity,
                    action: Action::Move {
                        from: pos,
                        to: (dx, dy),
                        jumping: matches!(input, PlayerInput::Jump),
                    },
                    priority: 1,
                },
            ),
        )
    }
}

/// Close enough for the context attack: Euclidean distance below 1.4
/// cells, which over integer cells is a squared distance of at most
/// one.
pub open spec fn in_poke_range(a: (i32, i32), b: (i32, i32)) -> bool {
    (a.0 - b.0) * (a.0 - b.0) + (a.1 - b.1) * (a.1 - b.1) <= 1
}

/// The context action's attack half: the first hostile adjacent to
/// the player is attacked with movement-pre-empting priority; nothing
/// when no hostile is adjacent, in which case the caller probes the
/// faced cell instead.
pub fn player_interaction(entity: u64, pos: (i32, i32), hostiles: &Vec<(u64, (i32, i32))>) -> (r:
    Option<ActionRequest>)
    requires
        in_bounds(pos.0 as int, pos.1 as int),
        forall|k: int|
            0 <= k < hostiles@.len() ==> in_bounds(
                (#[trigger] hostiles@[k]).1.0 as int,
                hostiles@[k].1.1 as int,
            ),
    ensures
        r is None ==> forall|k: int|
            0 <= k < hostiles@.len() ==> !in_poke_range(pos, (#[trigger] hostiles@[k]).1),
        r matches Some(req) ==> exists|k: int|
            0 <= k < hostiles@.len() && in_poke_range(pos, (#[trigger] hostiles@[k]).1) && req == (
            ActionRequest {
                entity,
                action: Action::WantsToAttack {
                    from: pos,
                    to: hostiles@[k].1,
                    target: hostiles@[k].0,
                },
                priority: 5,
            }) && forall|m: int| 0 <= m < k ==> !in_poke_range(pos, (#[trigger] hostiles@[m]).1),
{
    let mut k: usize = 0;
    while k < hostiles.len()
        invariant
            in_bounds(pos.0 as int, pos.1 as int),
            forall|m: int|
                0 <= m < hostiles@.len() ==> in_bounds(
                    (#[trigger] hostiles@[m]).1.0 as int,
                    hostiles@[m].1.1 as int,
                ),
            k <= hostiles@.len(),
            forall|m: int| 0 <= m < k as int ==> !in_poke_range(pos, (#[trigger] hostiles@[m]).1),
        decreases hostiles@.len() - k,
    {
        let (target, tpos) = hostiles[k];
        let dx = pos.0 - tpos.0;
        let dy = pos.1 - tpos.1;
        proof {
            assert(0 <= dx * dx <= 961 && 0 <= dy * dy <= 961) by (nonlinear_arith)
                requires
                    -31 <= dx <= 31,
                    -19 <= dy <= 19,
            ;
        }
        if dx * dx + dy * dy <= 1 {
            proof {
                assert(in_poke_range(pos, hostiles@[k as int].1));
            }
            return Some(
                ActionRequest {
                    entity,
                    action: Action::WantsToAttack { from: pos, to: tpos, target },
                    priority: 5,
                },
            );
        }
        k = k + 1;
    }
    None
}

/// The cell the player is facing, one step ahead; it may lie off the
/// grid, and the caller must check before probing it.
pub fn facing_target(pos: (i32, i32), facing: Facing) -> (r: (i32, i32))
    requires
        in_bounds(pos.0 as int, pos.1 as int),
    ensures
        facing == Facing::Left ==> r == (((pos.0 - 1) as i32), pos.1),
        facing == Facing::Right ==> r == (((pos.0 + 1) as i32), pos.1),
        facing == Facing::Up ==> r == (pos.0, ((pos.1 - 1) as i32)),
        facing == Facing::Down ==> r == (pos.0, ((pos.1 + 1) as i32)),
{
    match facing {
        Facing::Left => (pos.0 - 1, pos.1),
        Facing::Right => (pos.0 + 1, pos.1),
        Facing::Up => (pos.0, pos.1 - 1),
        Facing::Down => (pos.0, pos.1 + 1),
    }
}

} // verus!
