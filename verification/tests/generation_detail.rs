use chicken_core::ai::wander::{chicken_decide, ChickenChoice};
use chicken_core::combat::{spike_advance, Health};
use chicken_core::maps::{builder, spawn_wolves_near_corner, MapToBuild};
use chicken_core::message::MessageColor;
use chicken_core::position::{tile_index, NUM_TILES, NUM_TILES_X, NUM_TILES_Y};
use chicken_core::region_map::RegionMap;
use chicken_core::rng::rng_seeded;
use chicken_core::tile_type::TileType;

fn open_field_map() -> RegionMap {
    RegionMap {
        name: "Open Field".to_string(),
        base_tiles: vec![TileType::Grass; NUM_TILES],
        features: vec![TileType::Empty; NUM_TILES],
        player_start: (1, 1),
        exits: Vec::new(),
        spawns: Vec::new(),
        id: MapToBuild::FarmerTomCoup,
    }
}

#[test]
fn every_map_carries_its_display_name() {
    let cases = [
        (MapToBuild::FarmerTomCoup, "Farmer Tom's Coup"),
        (MapToBuild::FarmHouse, "Farmer Tom's House"),
        (MapToBuild::Cave1, "Sunken Cavern"),
        (MapToBuild::Cave2, "Farmer Tom's House"),
        (MapToBuild::Forest, "Into the Woods"),
    ];
    for (map, name) in cases {
        let mut rng = rng_seeded(2);
        assert_eq!(builder(map, &mut rng, None).name, name);
    }
}

#[test]
fn deep_cave_gauntlet_alternates_fire_and_floor() {
    let mut rng = rng_seeded(9);
    let m = builder(MapToBuild::Cave2, &mut rng, None);
    for y in 9..=16 {
        for x in 2..=8 {
            let expected = if x == 7 && y == 10 {
                TileType::CaveFloor
            } else if y % 2 == 0 {
                TileType::Fire
            } else {
                TileType::CaveFloor
            };
            assert_eq!(m.tiles[tile_index(x, y)], expected, "at ({x}, {y})");
        }
    }
    // Entry chamber, larder, and the egg chamber are all floor.
    assert_eq!(m.tiles[tile_index(4, 18)], TileType::CaveFloor);
    assert_eq!(m.tiles[tile_index(4, 6)], TileType::CaveFloor);
    assert_eq!(m.tiles[tile_index(20, 8)], TileType::CaveFloor);
}

#[test]
fn deep_cave_spawns_are_spikes_plus_the_white_wolf() {
    let mut rng = rng_seeded(10);
    let m = builder(MapToBuild::Cave2, &mut rng, None);
    let (wolf, spikes) = m.spawns.split_last().unwrap();
    assert_eq!(wolf, &("WhiteWolf".to_string(), 20, 8));
    for (tag, x, y) in spikes {
        assert!((2..=8).contains(x) && (9..=16).contains(y) && y % 2 == 1);
        if (x + y) % 2 == 0 {
            assert_eq!(tag, "Spikes1");
        } else {
            assert_eq!(tag, "Spikes2");
        }
    }
    // Every even-parity floor cell got its fixed spikes.
    for y in [9, 11, 13, 15] {
        for x in 2..=8 {
            if (x + y) % 2 == 0 {
                assert!(m.spawns.contains(&("Spikes1".to_string(), x, y)));
            }
        }
    }
}

#[test]
fn farm_house_furniture_stands_where_it_belongs() {
    let mut rng = rng_seeded(21);
    let m = builder(MapToBuild::FarmHouse, &mut rng, None);
    let hay = tile_index(10, 5);
    assert_eq!(m.features[hay], TileType::HayCart);
    assert_eq!(m.features[tile_index(12, 6)], TileType::ReferTo(hay));
    let barn = tile_index(14, 5);
    assert_eq!(m.features[barn], TileType::Barn);
    assert_eq!(m.features[tile_index(15, 7)], TileType::ReferTo(barn));
    let butte = tile_index(0, 11);
    assert_eq!(m.features[butte], TileType::LeftButte);
    assert_eq!(m.features[tile_index(1, 17)], TileType::ReferTo(butte));
    assert_eq!(m.features[tile_index(23, 13)], TileType::Anvil);
    assert_eq!(m.features[tile_index(17, 7)], TileType::Grain);
    assert!(m.spawns.contains(&("Farmer".to_string(), 18, 7)));
    // The cobbled yard and the road south.
    assert_eq!(m.tiles[tile_index(13, 6)], TileType::CobbleTL);
    assert_eq!(m.tiles[tile_index(24, 14)], TileType::CobbleBR);
    assert_eq!(m.tiles[tile_index(18, 10)], TileType::Cobble);
    assert_eq!(m.tiles[tile_index(16, 17)], TileType::Road);
    // Border bushes, away from the pathway and road mouths.
    assert_eq!(m.features[tile_index(5, 0)], TileType::Bush);
    assert_eq!(m.features[tile_index(5, 19)], TileType::Bush);
    assert_eq!(m.features[tile_index(31, 9)], TileType::Bush);
    assert_eq!(m.features[tile_index(0, 3)], TileType::Bush);
}

#[test]
fn cave_exit_cells_are_enterable_and_spawns_are_wolves() {
    let mut rng = rng_seeded(33);
    let m = builder(MapToBuild::Cave1, &mut rng, None);
    let region = RegionMap {
        name: m.name,
        base_tiles: m.tiles,
        features: m.features,
        player_start: m.player_start,
        exits: m.exits,
        spawns: m.spawns,
        id: MapToBuild::Cave1,
    };
    for (idx, _) in &region.exits {
        let x = (idx % NUM_TILES_X) as i32;
        let y = (idx / NUM_TILES_X) as i32;
        assert!(region.can_player_enter(x, y), "exit ({x}, {y}) blocked");
    }
    for (tag, _, _) in &region.spawns {
        assert_eq!(tag, "WeakWolf");
    }
}

#[test]
fn forest_channel_and_borders_hold_their_shape() {
    let mut rng = rng_seeded(44);
    let m = builder(MapToBuild::Forest, &mut rng, None);
    let region = RegionMap {
        name: m.name,
        base_tiles: m.tiles,
        features: m.features,
        player_start: m.player_start,
        exits: m.exits,
        spawns: m.spawns,
        id: MapToBuild::Forest,
    };
    assert_eq!(region.base_tiles[tile_index(27, 0)], TileType::CaveFloor);
    for y in 0..NUM_TILES_Y as i32 {
        assert!(region.can_player_enter(27, y), "channel row {y} blocked");
        assert_eq!(region.features[tile_index(0, y)], TileType::Bush);
        assert_eq!(region.features[tile_index(31, y)], TileType::Bush);
    }
    for x in 0..NUM_TILES_X as i32 {
        if x != 27 {
            assert_eq!(region.features[tile_index(x, 0)], TileType::Bush);
        }
        if !(26..=29).contains(&x) {
            assert_eq!(region.features[tile_index(x, 19)], TileType::Bush);
        }
    }
    let grain_cells =
        region.features.iter().filter(|t| **t == TileType::Grain).count();
    assert!(grain_cells <= 1);
    assert!(region.spawns.len() <= 9);
    for (tag, _, _) in &region.spawns {
        assert_eq!(tag, "Spider");
    }
}

#[test]
fn corner_wolves_take_the_five_nearest_free_cells() {
    let tiles = vec![TileType::Grass; NUM_TILES];
    let features = vec![TileType::Empty; NUM_TILES];
    let mut spawns: Vec<(String, i32, i32)> = Vec::new();
    spawn_wolves_near_corner(&tiles, &features, &mut spawns);
    // On a fully free map: the corner itself, then ties resolved to
    // the earliest cell index (the lower row number).
    let expected = vec![
        ("WeakWolf".to_string(), 0, 19),
        ("WeakWolf".to_string(), 0, 18),
        ("WeakWolf".to_string(), 1, 19),
        ("WeakWolf".to_string(), 1, 18),
        ("WeakWolf".to_string(), 0, 17),
    ];
    assert_eq!(spawns, expected);
}

#[test]
fn wolf_count_follows_the_free_cell_count() {
    let tiles = vec![TileType::Water; NUM_TILES];
    let features = vec![TileType::Empty; NUM_TILES];
    let mut spawns: Vec<(String, i32, i32)> = Vec::new();
    // No free grass at all: no wolves.
    spawn_wolves_near_corner(&tiles, &features, &mut spawns);
    assert!(spawns.is_empty());
    // Exactly one free cell: still no wolves (one fewer than free).
    let mut tiles2 = vec![TileType::Water; NUM_TILES];
    tiles2[tile_index(4, 4)] = TileType::Grass;
    spawn_wolves_near_corner(&tiles2, &features, &mut spawns);
    assert!(spawns.is_empty());
    // Three free cells: two wolves.
    tiles2[tile_index(5, 4)] = TileType::Grass;
    tiles2[tile_index(6, 4)] = TileType::Grass;
    spawn_wolves_near_corner(&tiles2, &features, &mut spawns);
    assert_eq!(spawns.len(), 2);
}

#[test]
fn spike_blades_flip_only_when_the_timer_elapses() {
    assert!(spike_advance(false, true));
    assert!(!spike_advance(true, true));
    assert!(spike_advance(true, false));
    assert!(!spike_advance(false, false));
}

#[test]
fn chicken_choices_are_pinned_per_roll() {
    let map = open_field_map();
    assert_eq!(chicken_decide(5, (5, 5), &map, 1), ChickenChoice::Animate(0));
    assert_eq!(chicken_decide(5, (5, 5), &map, 2), ChickenChoice::Animate(1));
    assert_eq!(chicken_decide(5, (5, 5), &map, 3), ChickenChoice::Animate(2));
    assert_eq!(chicken_decide(5, (5, 5), &map, 4), ChickenChoice::Animate(26));
    match chicken_decide(5, (5, 5), &map, 6) {
        ChickenChoice::Step(req) => match req.action {
            chicken_core::ai::movement::Action::Move { to, .. } => assert_eq!(to, (4, 5)),
            _ => panic!("expected a move"),
        },
        other => panic!("expected a step, got {:?}", other),
    }
    assert_eq!(chicken_decide(5, (5, 5), &map, 0), ChickenChoice::Rest);
    assert_eq!(chicken_decide(5, (5, 5), &map, 42), ChickenChoice::Rest);
    // A blocked direction turns the step into a rest.
    let mut walled = open_field_map();
    walled.features[tile_index(4, 5)] = TileType::FenceVertical;
    assert_eq!(chicken_decide(5, (5, 5), &walled, 6), ChickenChoice::Rest);
}

#[test]
fn region_interaction_reports_both_layers_in_order() {
    let mut region = open_field_map();
    region.base_tiles[tile_index(3, 3)] = TileType::Grain;
    region.features[tile_index(3, 3)] = TileType::Cauldron;
    let mut health = Health { current: 2, max: 8 };
    let msgs = region.interact(3, 3, &mut health);
    assert_eq!(health.current, 8);
    assert_eq!(msgs.len(), 3);
    assert_eq!(msgs[0].text, "Yummy, grain!");
    assert!(matches!(msgs[0].color, MessageColor::Green));
    assert_eq!(msgs[1].text, "I guess that explains why you're a 6 foot tall chicken!");
    assert_eq!(msgs[2].text, "Farmer Tom's Magic Miracle Grow");
    assert!(matches!(msgs[2].color, MessageColor::Yellow));
}

#[test]
fn forest_scatters_at_most_ten_webs() {
    let mut rng = rng_seeded(58);
    let m = builder(MapToBuild::Forest, &mut rng, None);
    let webs = m.features.iter().filter(|t| **t == TileType::Web).count();
    assert!(webs <= 10);
}
