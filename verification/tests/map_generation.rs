use chicken_core::cost_field::build_cost_field;
use chicken_core::maps::{builder, spawn_big_feature, MapToBuild, MapTransfer};
use chicken_core::position::{tile_index, NUM_TILES, NUM_TILES_X, NUM_TILES_Y};
use chicken_core::reachability::PRUNE_DEPTH;
use chicken_core::region_map::{place_companion, RegionMap};
use chicken_core::rng::rng_seeded;
use chicken_core::tile_type::TileType;

fn no_indirection_chains(layer: &[TileType]) {
    for t in layer {
        if let TileType::ReferTo(r) = t {
            assert!(*r < NUM_TILES);
            assert!(!matches!(layer[*r], TileType::ReferTo(_)));
        }
    }
}

fn check_transfer_shape(m: &MapTransfer) {
    assert_eq!(m.tiles.len(), NUM_TILES);
    assert_eq!(m.features.len(), NUM_TILES);
    no_indirection_chains(&m.tiles);
    no_indirection_chains(&m.features);
    assert!(m.player_start.0 >= 0 && m.player_start.0 < NUM_TILES_X as i32);
    assert!(m.player_start.1 >= 0 && m.player_start.1 < NUM_TILES_Y as i32);
    for (idx, _) in &m.exits {
        assert!(*idx < NUM_TILES);
    }
    for (_, x, y) in &m.spawns {
        assert!(*x >= 0 && *x < NUM_TILES_X as i32);
        assert!(*y >= 0 && *y < NUM_TILES_Y as i32);
    }
}

#[test]
fn every_builder_produces_a_well_formed_map() {
    for id in [
        MapToBuild::FarmerTomCoup,
        MapToBuild::FarmHouse,
        MapToBuild::Cave1,
        MapToBuild::Cave2,
        MapToBuild::Forest,
    ] {
        let mut rng = rng_seeded(7);
        let m = builder(id, &mut rng, None);
        check_transfer_shape(&m);
    }
}

#[test]
fn cave_generation_is_reproducible_given_the_seed() {
    // Scenario: the cave-style map built twice with the same seed is
    // identical; a different seed gives a different layout.
    let mut rng_a = rng_seeded(1234);
    let a = builder(MapToBuild::Cave1, &mut rng_a, None);
    let mut rng_b = rng_seeded(1234);
    let b = builder(MapToBuild::Cave1, &mut rng_b, None);
    assert_eq!(a.tiles, b.tiles);
    assert_eq!(a.features, b.features);
    assert_eq!(a.exits, b.exits);
    assert_eq!(a.spawns, b.spawns);
    let mut rng_c = rng_seeded(99);
    let c = builder(MapToBuild::Cave1, &mut rng_c, None);
    assert_ne!(a.tiles, c.tiles);
}

#[test]
fn coup_exits_lead_to_the_farm_house() {
    let mut rng = rng_seeded(5);
    let m = builder(MapToBuild::FarmerTomCoup, &mut rng, None);
    assert_eq!(m.exits, vec![(15, 1), (16, 1), (17, 1)]);
    assert_eq!(m.name, "Farmer Tom's Coup");
}

#[test]
fn farm_house_exits_lead_south_and_north() {
    let mut rng = rng_seeded(5);
    let m = builder(MapToBuild::FarmHouse, &mut rng, None);
    assert_eq!(
        m.exits,
        vec![(623, 0), (624, 0), (625, 0), (26, 4), (27, 4), (28, 4), (29, 4)],
    );
}

#[test]
fn cave_exits_join_both_neighbouring_maps() {
    let mut rng = rng_seeded(5);
    let m = builder(MapToBuild::Cave1, &mut rng, None);
    assert_eq!(
        m.exits,
        vec![(634, 1), (635, 1), (636, 1), (637, 1), (3, 3), (4, 3), (5, 3)],
    );
    assert_eq!(m.name, "Sunken Cavern");
}

#[test]
fn deep_cave_is_a_dead_end_with_the_egg() {
    let mut rng = rng_seeded(5);
    let m = builder(MapToBuild::Cave2, &mut rng, None);
    assert!(m.exits.is_empty());
    assert_eq!(m.features[tile_index(30, 8)], TileType::GoldEgg);
    assert_eq!(m.features[tile_index(3, 5)], TileType::Grain);
    assert_eq!(m.player_start, (4, 18));
}

#[test]
fn forest_has_no_isolated_open_pocket() {
    let mut rng = rng_seeded(31);
    let m = builder(MapToBuild::Forest, &mut rng, None);
    let region = RegionMap {
        name: m.name,
        base_tiles: m.tiles,
        features: m.features,
        player_start: m.player_start,
        exits: m.exits,
        spawns: m.spawns,
        id: MapToBuild::Forest,
    };
    let open = region.open_map();
    let field = build_cost_field(&open, &vec![tile_index(27, NUM_TILES_Y as i32 - 1)], PRUNE_DEPTH);
    for idx in 0..NUM_TILES {
        if open[idx] {
            assert!(field.costs[idx].is_some(), "open cell {} is unreachable", idx);
        }
    }
}

#[test]
fn pruning_twice_finds_nothing_new() {
    // A hand-made map with an isolated pocket in the top-left corner.
    let tiles = vec![TileType::Grass; NUM_TILES];
    let mut features = vec![TileType::Empty; NUM_TILES];
    for y in 0..5 {
        features[tile_index(4, y)] = TileType::Bush;
    }
    for x in 0..5 {
        features[tile_index(x, 4)] = TileType::Bush;
    }
    let starts = vec![tile_index(20, 10)];
    let cut = chicken_core::reachability::unreachable(&tiles, &features, &starts);
    assert!(!cut.is_empty());
    // The pocket's interior is cut; the seed side is not.
    assert!(cut.contains(&tile_index(0, 0)));
    assert!(!cut.contains(&tile_index(20, 10)));
    // Converting the cut cells to bushes and pruning again reports
    // exactly the same set: the second pass finds nothing new.
    for idx in &cut {
        features[*idx] = TileType::Bush;
    }
    let again = chicken_core::reachability::unreachable(&tiles, &features, &starts);
    assert_eq!(cut, again);
}

#[test]
fn big_features_point_back_at_their_anchor() {
    let mut features = vec![TileType::Empty; NUM_TILES];
    spawn_big_feature(10, 5, TileType::HayCart, &mut features);
    let base = tile_index(10, 5);
    assert_eq!(features[base], TileType::HayCart);
    assert_eq!(features[tile_index(11, 5)], TileType::ReferTo(base));
    assert_eq!(features[tile_index(12, 6)], TileType::ReferTo(base));
    assert_eq!(features[tile_index(9, 5)], TileType::Empty);
    no_indirection_chains(&features);
}

#[test]
fn indirection_blocks_entry_through_either_layer() {
    let mut region = RegionMap {
        name: "Yard".to_string(),
        base_tiles: vec![TileType::Grass; NUM_TILES],
        features: vec![TileType::Empty; NUM_TILES],
        player_start: (1, 1),
        exits: Vec::new(),
        spawns: Vec::new(),
        id: MapToBuild::FarmHouse,
    };
    spawn_big_feature(10, 5, TileType::HayCart, &mut region.features);
    // Both the anchor and its indirection cells are impassable.
    assert!(!region.can_player_enter(10, 5));
    assert!(!region.can_player_enter(11, 5));
    assert!(!region.can_player_enter(12, 6));
    // Off the cart, the grass is open.
    assert!(region.can_player_enter(9, 5));
    // Out of bounds is never enterable.
    assert!(!region.can_player_enter(-1, 5));
    assert!(!region.can_player_enter(5, 20));
}

#[test]
fn stepping_on_an_exit_swaps_the_map_and_places_the_player() {
    // Scenario: the player stands on a registered exit cell; by the
    // next tick the region holds a different grid and the player is at
    // the new map's designated entry coordinate for the map it came
    // from.
    let mut rng = rng_seeded(77);
    let mut region = RegionMap::new(MapToBuild::FarmerTomCoup, &mut rng);
    let old_tiles = region.base_tiles.clone();
    // The coup's road mouth is a registered exit to the farm house.
    let player_idx = tile_index(16, 0);
    let dest = region.exit_at(player_idx).expect("the road mouth is an exit");
    assert_eq!(dest, 1);
    let entry = region.transition_to(dest, &mut rng);
    // Coming from the coup, the farm house entry is the road mouth at
    // the bottom edge.
    assert_eq!(entry, (17, 19));
    assert_eq!(entry, region.player_start);
    assert_eq!(region.name, "Farmer Tom's House");
    assert_ne!(region.base_tiles, old_tiles);
    // A non-exit cell triggers nothing.
    assert!(region.exit_at(tile_index(10, 10)).is_none());
}

#[test]
fn companion_is_placed_beside_the_player() {
    assert_eq!(place_companion((17, 19)), (16, 19));
    assert_eq!(place_companion((3, 0)), (2, 0));
}

#[test]
fn transitions_cover_every_destination_id() {
    let mut rng = rng_seeded(3);
    let mut region = RegionMap::new(MapToBuild::FarmHouse, &mut rng);
    let entry = region.transition_to(4, &mut rng);
    // Entering the forest from anywhere but the cave: bottom of the
    // cleared channel.
    assert_eq!(entry, (27, 19));
    let entry = region.transition_to(2, &mut rng);
    assert_eq!(entry, (27, 19));
    // From the first cave into the deep cave.
    let entry = region.transition_to(3, &mut rng);
    assert_eq!(entry, (4, 18));
    // Any unknown id falls back to the coup.
    let entry = region.transition_to(99, &mut rng);
    assert_eq!(entry, (17, 0));
}

#[test]
fn every_designated_entry_is_enterable() {
    // Each builder's entry coordinate must land on an enterable cell,
    // from every side the player can arrive from.
    let arrivals = [
        (MapToBuild::FarmerTomCoup, Some(MapToBuild::FarmHouse)),
        (MapToBuild::FarmerTomCoup, None),
        (MapToBuild::FarmHouse, Some(MapToBuild::FarmerTomCoup)),
        (MapToBuild::FarmHouse, Some(MapToBuild::Cave1)),
        (MapToBuild::Cave1, Some(MapToBuild::FarmHouse)),
        (MapToBuild::Cave1, Some(MapToBuild::Cave2)),
        (MapToBuild::Cave2, Some(MapToBuild::Cave1)),
        (MapToBuild::Forest, Some(MapToBuild::FarmHouse)),
        (MapToBuild::Forest, Some(MapToBuild::Cave1)),
    ];
    for (seed, (map, from)) in arrivals.into_iter().enumerate() {
        let mut rng = rng_seeded(seed as u64);
        let m = builder(map, &mut rng, from);
        let region = RegionMap {
            name: m.name,
            base_tiles: m.tiles,
            features: m.features,
            player_start: m.player_start,
            exits: m.exits,
            spawns: m.spawns,
            id: map,
        };
        assert!(region.can_player_enter(region.player_start.0, region.player_start.1));
    }
}
