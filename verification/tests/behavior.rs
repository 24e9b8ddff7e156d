use chicken_core::ai::attack::attacks;
use chicken_core::ai::chase::chase_after;
use chicken_core::ai::flee::flee_from;
use chicken_core::ai::henry::{henry_attacks, henry_chase, henry_follow};
use chicken_core::ai::movement::{Action, ActionRequest};
use chicken_core::ai::player::{
    facing_target, player_interaction, player_movement, PlayerInput, PlayerMove,
};
use chicken_core::ai::facing::Facing;
use chicken_core::ai::wander::{chicken_ai, ChickenChoice};
use chicken_core::combat::{apply_damage, reward_killer, spike_hits, DamageOutcome, Health};
use chicken_core::cost_field::build_cost_field;
use chicken_core::fov::{needs_recompute, FieldOfView};
use chicken_core::maps::MapToBuild;
use chicken_core::position::{tile_index, TilePosition, NUM_TILES};
use chicken_core::region_map::RegionMap;
use chicken_core::rng::rng_seeded;
use chicken_core::tile_type::TileType;

fn open_field_map() -> RegionMap {
    RegionMap {
        name: "Open Field".to_string(),
        base_tiles: vec![TileType::Grass; NUM_TILES],
        features: vec![TileType::Empty; NUM_TILES],
        player_start: (1, 1),
        exits: Vec::new(),
        spawns: Vec::new(),
        id: MapToBuild::FarmerTomCoup,
    }
}

fn fov_seeing(cells: &[(i32, i32)]) -> FieldOfView {
    FieldOfView {
        range: 8,
        fov_set: cells.iter().map(|&(x, y)| TilePosition { x, y }).collect(),
    }
}

#[test]
fn fleeing_agent_steps_to_a_higher_cost_neighbour() {
    // Scenario: a flee-capable agent at (5, 5), a scary entity visible
    // at (5, 6), cost field bounded at 9.
    let map = open_field_map();
    let fov = fov_seeing(&[(5, 6)]);
    let request = flee_from(7, (5, 5), &fov, &vec![(5, 6)], &map).unwrap();
    assert_eq!(request.entity, 7);
    assert_eq!(request.priority, 2);
    let (from, to) = match request.action {
        Action::Move { from, to, jumping } => {
            assert!(!jumping);
            (from, to)
        }
        _ => panic!("expected a move"),
    };
    assert_eq!(from, (5, 5));
    // The destination is a 4-connected neighbour ...
    assert_eq!((to.0 - 5).abs() + (to.1 - 5).abs(), 1);
    // ... whose cost-field value strictly exceeds the value at (5, 5).
    let open = map.open_map();
    let field = build_cost_field(&open, &vec![tile_index(5, 6)], 9);
    let here = field.costs[tile_index(5, 5)].unwrap();
    let there = field.costs[tile_index(to.0, to.1)].unwrap();
    assert!(there > here);
    // The fixed tie-break order makes the step deterministic: left.
    assert_eq!(to, (4, 5));
}

#[test]
fn fleeing_needs_a_visible_threat() {
    let map = open_field_map();
    let empty_fov = fov_seeing(&[]);
    assert!(flee_from(7, (5, 5), &empty_fov, &vec![(5, 6)], &map).is_none());
    let elsewhere = fov_seeing(&[(9, 9)]);
    assert!(flee_from(7, (5, 5), &elsewhere, &vec![(5, 6)], &map).is_none());
}

#[test]
fn chasing_agent_steps_toward_the_target() {
    let map = open_field_map();
    let fov = fov_seeing(&[(9, 5)]);
    let request = chase_after(3, (5, 5), &fov, &vec![(9, 5)], &map).unwrap();
    match request.action {
        Action::Move { to, .. } => assert_eq!(to, (6, 5)),
        _ => panic!("expected a move"),
    }
    // Standing on the target there is nothing closer.
    let on_top = chase_after(3, (9, 5), &fov, &vec![(9, 5)], &map);
    assert!(on_top.is_none());
}

#[test]
fn attack_requests_cover_adjacent_and_diagonal_targets() {
    let me = vec![(1u64, (5, 5))];
    let them = vec![(2u64, (6, 5)), (3u64, (6, 6)), (4u64, (8, 5))];
    let requests = attacks(&me, &them);
    assert_eq!(requests.len(), 2);
    assert!(requests.iter().all(|r| r.priority == 5 && r.entity == 1));
    let targets: Vec<u64> = requests
        .iter()
        .map(|r| match r.action {
            Action::WantsToAttack { target, .. } => target,
            _ => panic!("expected an attack"),
        })
        .collect();
    assert_eq!(targets, vec![2, 3]);
}

#[test]
fn chicken_decisions_stay_legal_for_every_roll() {
    let map = open_field_map();
    let mut rng = rng_seeded(11);
    for _ in 0..200 {
        match chicken_ai(42, (5, 5), &map, &mut rng) {
            ChickenChoice::Rest => {}
            ChickenChoice::Animate(s) => assert!([0, 1, 2, 26].contains(&s)),
            ChickenChoice::Step(req) => {
                assert_eq!(req.entity, 42);
                assert_eq!(req.priority, 1);
                match req.action {
                    Action::Move { from, to, jumping } => {
                        assert_eq!(from, (5, 5));
                        assert!(!jumping);
                        assert!(map.can_player_enter(to.0, to.1));
                        assert_eq!((to.0 - 5).abs() + (to.1 - 5).abs(), 1);
                    }
                    _ => panic!("chickens only walk"),
                }
            }
        }
    }
}

#[test]
fn companion_bites_only_adjacent_hostiles() {
    let hostiles = vec![(2u64, (5, 6)), (3u64, (6, 6)), (4u64, (5, 5))];
    let bitten = henry_attacks((5, 5), &hostiles);
    // (5,6) is orthogonally adjacent, (5,5) is the same cell; the
    // diagonal (6,6) is out of bite range.
    assert_eq!(bitten, vec![2, 4]);
}

#[test]
fn companion_chases_a_visible_hostile() {
    let map = open_field_map();
    let fov = fov_seeing(&[(9, 5)]);
    let step = henry_chase((5, 5), &fov, &vec![(9, 5)], &map);
    assert_eq!(step, Some((6, 5)));
    let blind = fov_seeing(&[]);
    assert_eq!(henry_chase((5, 5), &blind, &vec![(9, 5)], &map), None);
}

#[test]
fn companion_follows_the_distant_player() {
    let map = open_field_map();
    // Close enough: no follow step.
    assert_eq!(henry_follow((5, 5), (6, 5), &map), None);
    // Far to the right: a single step right.
    assert_eq!(henry_follow((5, 5), (9, 5), &map), Some(((6, 5), false, Facing::Right)));
    // Far below: a single step down.
    assert_eq!(henry_follow((5, 5), (5, 9), &map), Some(((5, 6), false, Facing::Down)));
}

#[test]
fn companion_jumps_a_fence_toward_the_player() {
    let mut map = open_field_map();
    map.features[tile_index(6, 5)] = TileType::FenceVertical;
    map.features[tile_index(5, 4)] = TileType::FenceHorizontal;
    map.features[tile_index(5, 6)] = TileType::FenceHorizontal;
    let step = henry_follow((5, 5), (9, 5), &map);
    assert_eq!(step, Some(((7, 5), true, Facing::Right)));
}

#[test]
fn player_walks_and_turns() {
    let map = open_field_map();
    let (facing, mv) = player_movement(1, (5, 5), Facing::Left, PlayerInput::Walk(Facing::Right), &map);
    assert_eq!(facing, Facing::Right);
    match mv {
        PlayerMove::Request(ActionRequest { action: Action::Move { to, jumping, .. }, .. }) => {
            assert_eq!(to, (6, 5));
            assert!(!jumping);
        }
        _ => panic!("expected a move request"),
    }
}

#[test]
fn player_is_stopped_by_a_fence_but_jumps_it() {
    let mut map = open_field_map();
    map.features[tile_index(6, 5)] = TileType::FenceVertical;
    let (_, blocked) = player_movement(1, (5, 5), Facing::Right, PlayerInput::Walk(Facing::Right), &map);
    assert_eq!(blocked, PlayerMove::Stay);
    let (_, jumped) = player_movement(1, (5, 5), Facing::Right, PlayerInput::Jump, &map);
    match jumped {
        PlayerMove::Request(ActionRequest { action: Action::Move { to, jumping, .. }, .. }) => {
            assert_eq!(to, (7, 5));
            assert!(jumping);
        }
        _ => panic!("expected a jump request"),
    }
}

#[test]
fn player_wins_on_the_golden_egg() {
    let mut map = open_field_map();
    map.features[tile_index(6, 5)] = TileType::GoldEgg;
    let (_, mv) = player_movement(1, (5, 5), Facing::Left, PlayerInput::Walk(Facing::Right), &map);
    assert_eq!(mv, PlayerMove::Won);
}

#[test]
fn player_context_action_attacks_the_adjacent_hostile_first() {
    let hostiles = vec![(8u64, (9, 9)), (9u64, (5, 6))];
    let request = player_interaction(1, (5, 5), &hostiles).unwrap();
    assert_eq!(request.priority, 5);
    match request.action {
        Action::WantsToAttack { target, to, .. } => {
            assert_eq!(target, 9);
            assert_eq!(to, (5, 6));
        }
        _ => panic!("expected an attack"),
    }
    assert!(player_interaction(1, (5, 5), &vec![(8u64, (9, 9))]).is_none());
}

#[test]
fn facing_target_is_one_step_ahead() {
    assert_eq!(facing_target((5, 5), Facing::Left), (4, 5));
    assert_eq!(facing_target((5, 5), Facing::Right), (6, 5));
    assert_eq!(facing_target((5, 5), Facing::Up), (5, 4));
    assert_eq!(facing_target((5, 5), Facing::Down), (5, 6));
}

#[test]
fn fov_stores_and_finds_cells() {
    let mut fov = FieldOfView::new(8);
    assert!(fov.is_empty());
    fov.set_visible(vec![TilePosition { x: 3, y: 4 }, TilePosition { x: 5, y: 5 }]);
    assert!(fov.contains(3, 4));
    assert!(fov.contains(5, 5));
    assert!(!fov.contains(4, 4));
    assert!(!fov.is_empty());
}

#[test]
fn fov_recompute_policy_follows_position_changes() {
    assert!(needs_recompute(true, false));
    assert!(needs_recompute(false, true));
    assert!(!needs_recompute(false, false));
}

#[test]
fn damage_walks_through_every_outcome() {
    let mut h = Health { current: 3, max: 10 };
    assert_eq!(apply_damage(&mut h, false, false), DamageOutcome::Hurt);
    assert_eq!(h.current, 2);
    let mut companion = Health { current: 1, max: 10 };
    assert_eq!(apply_damage(&mut companion, true, false), DamageOutcome::KnockedOut);
    assert_eq!(companion.current, 10);
    let mut player = Health { current: 1, max: 10 };
    assert_eq!(apply_damage(&mut player, false, true), DamageOutcome::PlayerDead);
    assert_eq!(player.current, 0);
    let mut wolf = Health { current: 1, max: 4 };
    assert_eq!(apply_damage(&mut wolf, false, false), DamageOutcome::Despawned);
    assert_eq!(wolf.current, 0);
}

#[test]
fn killers_grow_stronger() {
    let mut h = Health { current: 6, max: 9 };
    reward_killer(&mut h);
    assert_eq!(h.max, 10);
    assert_eq!(h.current, 6);
}

#[test]
fn spikes_hit_everyone_on_the_cell_only_when_extended() {
    let victims = vec![(1u64, (4, 4)), (2u64, (5, 5)), (3u64, (4, 4))];
    assert_eq!(spike_hits((4, 4), true, &victims), vec![1, 3]);
    assert!(spike_hits((4, 4), false, &victims).is_empty());
}
