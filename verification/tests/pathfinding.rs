use chicken_core::cost_field::{build_cost_field, CostField, StepMode};
use chicken_core::maps::MapToBuild;
use chicken_core::position::{tile_index, NUM_TILES};
use chicken_core::region_map::RegionMap;
use chicken_core::tile_type::TileType;

fn open_field_map() -> RegionMap {
    RegionMap {
        name: "Open Field".to_string(),
        base_tiles: vec![TileType::Grass; NUM_TILES],
        features: vec![TileType::Empty; NUM_TILES],
        player_start: (1, 1),
        exits: Vec::new(),
        spawns: Vec::new(),
        id: MapToBuild::FarmerTomCoup,
    }
}

fn field_on_open_map(sources: Vec<usize>, max_cost: u32) -> (CostField, Vec<bool>) {
    let map = open_field_map();
    let open = map.open_map();
    let field = build_cost_field(&open, &sources, max_cost);
    (field, open)
}

#[test]
fn cost_field_counts_steps_from_the_source() {
    let (field, _) = field_on_open_map(vec![tile_index(5, 5)], 9);
    assert_eq!(field.costs[tile_index(5, 5)], Some(0));
    assert_eq!(field.costs[tile_index(6, 5)], Some(1));
    assert_eq!(field.costs[tile_index(5, 7)], Some(2));
    assert_eq!(field.costs[tile_index(8, 9)], Some(7));
    assert_eq!(field.costs[tile_index(14, 5)], Some(9));
    assert_eq!(field.costs[tile_index(15, 5)], None);
    assert_eq!(field.costs[tile_index(31, 19)], None);
}

#[test]
fn cost_field_takes_the_nearest_of_many_sources() {
    let (field, _) = field_on_open_map(vec![tile_index(0, 0), tile_index(10, 0)], 9);
    assert_eq!(field.costs[tile_index(1, 0)], Some(1));
    assert_eq!(field.costs[tile_index(9, 0)], Some(1));
    assert_eq!(field.costs[tile_index(5, 0)], Some(5));
}

#[test]
fn cost_field_flows_around_walls() {
    let mut map = open_field_map();
    // A vertical fence through column 3, open only at (3, 0).
    for y in 1..20 {
        map.features[tile_index(3, y)] = TileType::FenceVertical;
    }
    let open = map.open_map();
    let field = build_cost_field(&open, &vec![tile_index(0, 5)], 30);
    // Straight across would be 4 steps; around the top gap is 14.
    assert_eq!(field.costs[tile_index(2, 5)], Some(2));
    assert_eq!(field.costs[tile_index(3, 5)], None);
    assert_eq!(field.costs[tile_index(4, 5)], Some(14));
}

#[test]
fn cost_field_is_deterministic() {
    let a = field_on_open_map(vec![tile_index(7, 3)], 9).0;
    let b = field_on_open_map(vec![tile_index(7, 3)], 9).0;
    assert_eq!(a.costs, b.costs);
}

#[test]
fn best_step_minimize_walks_toward_the_source() {
    let (field, open) = field_on_open_map(vec![tile_index(5, 5)], 9);
    // From (8, 5) the left neighbour is strictly closer.
    let step = field.best_step(tile_index(8, 5), &open, StepMode::Minimize);
    assert_eq!(step, Some(tile_index(7, 5)));
    // At the source itself no neighbour improves.
    let stay = field.best_step(tile_index(5, 5), &open, StepMode::Minimize);
    assert_eq!(stay, None);
}

#[test]
fn best_step_maximize_walks_away_from_the_source() {
    let (field, open) = field_on_open_map(vec![tile_index(5, 5)], 9);
    let step = field.best_step(tile_index(5, 6), &open, StepMode::Maximize);
    // Left, right and down all cost 2; the fixed order picks left.
    assert_eq!(step, Some(tile_index(4, 6)));
}

#[test]
fn best_step_breaks_ties_left_first() {
    let (field, open) = field_on_open_map(vec![tile_index(5, 5)], 9);
    // From (5, 8): left and right both cost 4, up costs 2, down 4.
    // Minimize picks the unique best, up.
    assert_eq!(field.best_step(tile_index(5, 8), &open, StepMode::Minimize), Some(tile_index(5, 7)));
    // Maximize from the same cell: left, right, down all cost 4; left wins.
    assert_eq!(field.best_step(tile_index(5, 8), &open, StepMode::Maximize), Some(tile_index(4, 8)));
}

#[test]
fn best_step_ignores_unreached_neighbours() {
    let (field, open) = field_on_open_map(vec![tile_index(5, 5)], 3);
    // (5, 9) is beyond the cutoff: unset, and fleeing from it finds nothing.
    assert_eq!(field.costs[tile_index(5, 9)], None);
    assert_eq!(field.best_step(tile_index(5, 9), &open, StepMode::Maximize), None);
    // Chasing from an unreached cell moves toward any reached neighbour.
    assert_eq!(field.best_step(tile_index(5, 9), &open, StepMode::Minimize), Some(tile_index(5, 8)));
}
