//! Farmer Tom's coup: the starting farm map, with a fenced dirt coup,
//! a cauldron, randomized bush boundaries, scattered flowers and
//! chickens, a road out, and a few wolves lurking near the far corner.

use vstd::prelude::*;

use bracket_random::prelude::RandomNumberGenerator;

use crate::grid::cell_open;
use crate::grid::layer_wf;
use crate::maps::{
    fill_layer, set_cell, set_tile, spawn_wolves_near_corner, transfer_wf, MapToBuild, MapTransfer,
};
use crate::position::{in_bounds, index_spec, NUM_TILES, NUM_TILES_X, NUM_TILES_Y};
use crate::rng::rng_range;
use crate::tile_type::TileType;

verus! {

/// The feature overlay of the fenced coup, before the cauldron is
/// placed: fences along the top and bottom rows and the two side
/// columns, nothing inside.
pub open spec fn coup_fence(cx: int, cy: int) -> TileType {
    if cy == 7 || cy == 12 {
        TileType::FenceHorizontal
    } else if cx == 11 || cx == 20 {
        TileType::FenceVertical
    } else {
        TileType::Empty
    }
}

/// The finished feature overlay of the coup: the fences, with the
/// cauldron standing inside at `(13, 10)`.
pub open spec fn coup_feature(cx: int, cy: int) -> TileType {
    if cx == 13 && cy == 10 {
        TileType::Cauldron
    } else {
        coup_fence(cx, cy)
    }
}

/// Builds the coup. Entering from another map places the player at
/// the road mouth `(17, 0)`; a fresh game starts at the map centre.
/// The three road cells on the top edge are the exits to the
/// farm-house map; the fenced dirt coup with its cauldron and the
/// road north are pinned exactly.
pub fn build_farmer_tom_coup(rng: &mut RandomNumberGenerator, from: Option<MapToBuild>) -> (r:
    MapTransfer)
    ensures
        transfer_wf(&r),
        r.name@ == "Farmer Tom's Coup"@,
        from is Some ==> r.player_start == (17i32, 0i32),
        from is None ==> r.player_start == (16i32, 10i32),
        r.exits@ == seq![(15usize, 1usize), (16usize, 1usize), (17usize, 1usize)],
        cell_open(r.tiles@, r.features@, index_spec(r.player_start.0 as int, r.player_start.1 as int)),
        forall|cx: int, cy: int|
            11 <= cx <= 20 && 7 <= cy <= 12 ==> #[trigger] r.tiles@[index_spec(cx, cy)]
                == TileType::Dirt && r.features@[index_spec(cx, cy)] == coup_feature(cx, cy),
        forall|cx: int, cy: int|
            15 <= cx <= 17 && 0 <= cy <= 6 ==> #[trigger] r.tiles@[index_spec(cx, cy)]
                == TileType::Road && r.features@[index_spec(cx, cy)] == TileType::Empty,
{
    let mut tiles = fill_layer(TileType::Grass);
    let mut features = fill_layer(TileType::Empty);
    let mut exits: Vec<(usize, usize)> = Vec::new();
    let mut spawns: Vec<(String, i32, i32)> = Vec::new();

    let player_start: (i32, i32) = if from.is_some() {
        (17, 0)
    } else {
        (NUM_TILES_X as i32 / 2, NUM_TILES_Y as i32 / 2)
    };

    // The fenced coup.
    let mut x: i32 = 11;
    while x < 21
        invariant
            layer_wf(tiles@),
            layer_wf(features@),
            tiles@.len() == NUM_TILES as int,
            features@.len() == NUM_TILES as int,
            11 <= x <= 21,
            forall|cx: int, cy: int|
                11 <= cx <= 20 && 7 <= cy <= 12 && cx < x ==> #[trigger] tiles@[index_spec(cx, cy)]
                    == TileType::Dirt && features@[index_spec(cx, cy)] == coup_fence(cx, cy),
            forall|cx: int, cy: int|
                11 <= cx <= 20 && 7 <= cy <= 12 && cx >= x ==> #[trigger] features@[index_spec(
                    cx,
                    cy,
                )] == TileType::Empty,
        decreases 21 - x,
    {
        let mut y: i32 = 7;
        while y < 13
            invariant
                layer_wf(tiles@),
                layer_wf(features@),
                tiles@.len() == NUM_TILES as int,
                features@.len() == NUM_TILES as int,
                11 <= x < 21,
                7 <= y <= 13,
                forall|cx: int, cy: int|
                    11 <= cx <= 20 && 7 <= cy <= 12 && (cx < x || (cx == x && cy < y))
                        ==> #[trigger] tiles@[index_spec(cx, cy)] == TileType::Dirt
                        && features@[index_spec(cx, cy)] == coup_fence(cx, cy),
                forall|cx: int, cy: int|
                    11 <= cx <= 20 && 7 <= cy <= 12 && (cx > x || (cx == x && cy >= y))
                        ==> #[trigger] features@[index_spec(cx, cy)] == TileType::Empty,
            decreases 13 - y,
        {
            set_tile(&mut tiles, x, y, TileType::Dirt);
            if y == 7 || y == 12 {
                set_tile(&mut features, x, y, TileType::FenceHorizontal);
            } else if x == 11 || x == 20 {
                set_tile(&mut features, x, y, TileType::FenceVertical);
            }
            y = y + 1;
        }
        x = x + 1;
    }

    // The cauldron that explains everything.
    set_tile(&mut features, 13, 10, TileType::Cauldron);
    proof {
        assert forall|cx: int, cy: int| 11 <= cx <= 20 && 7 <= cy <= 12 implies #[trigger] tiles@[
        index_spec(cx, cy)] == TileType::Dirt && features@[index_spec(cx, cy)] == coup_feature(
            cx,
            cy,
        ) by {}
    }

    // Bush boundaries of randomized thickness.
    let mut x: i32 = 0;
    while x < NUM_TILES_X as i32
        invariant
            layer_wf(features@),
            features@.len() == NUM_TILES as int,
            tiles@.len() == NUM_TILES as int,
            0 <= x <= NUM_TILES_X as int,
            forall|cx: int, cy: int|
                11 <= cx <= 20 && 7 <= cy <= 12 ==> #[trigger] tiles@[index_spec(cx, cy)]
                    == TileType::Dirt && features@[index_spec(cx, cy)] == coup_feature(cx, cy),
        decreases NUM_TILES_X as int - x,
    {
        set_tile(&mut features, x, 0, TileType::Bush);
        set_tile(&mut features, x, NUM_TILES_Y as i32 - 1, TileType::Bush);
        let b = rng_range(rng, 1, 5);
        let mut y: i32 = 0;
        while y < b
            invariant
                layer_wf(features@),
                features@.len() == NUM_TILES as int,
                0 <= x < NUM_TILES_X as int,
                0 <= y <= b,
                b < 5,
                forall|cx: int, cy: int|
                    11 <= cx <= 20 && 7 <= cy <= 12 ==> #[trigger] tiles@[index_spec(cx, cy)]
                        == TileType::Dirt && features@[index_spec(cx, cy)] == coup_feature(cx, cy),
            decreases b - y,
        {
            set_tile(&mut features, x, NUM_TILES_Y as i32 - 1 - y, TileType::Bush);
            y = y + 1;
        }
        let b = rng_range(rng, 1, 5);
        let mut y: i32 = 0;
        while y < b
            invariant
                layer_wf(features@),
                features@.len() == NUM_TILES as int,
                0 <= x < NUM_TILES_X as int,
                0 <= y <= b,
                b < 5,
                forall|cx: int, cy: int|
                    11 <= cx <= 20 && 7 <= cy <= 12 ==> #[trigger] tiles@[index_spec(cx, cy)]
                        == TileType::Dirt && features@[index_spec(cx, cy)] == coup_feature(cx, cy),
            decreases b - y,
        {
            set_tile(&mut features, x, y, TileType::Bush);
            y = y + 1;
        }
        x = x + 1;
    }
    let mut y: i32 = 0;
    while y < NUM_TILES_Y as i32
        invariant
            layer_wf(features@),
            features@.len() == NUM_TILES as int,
            0 <= y <= NUM_TILES_Y as int,
            forall|cx: int, cy: int|
                11 <= cx <= 20 && 7 <= cy <= 12 ==> #[trigger] tiles@[index_spec(cx, cy)]
                    == TileType::Dirt && features@[index_spec(cx, cy)] == coup_feature(cx, cy),
        decreases NUM_TILES_Y as int - y,
    {
        set_tile(&mut features, 0, y, TileType::Bush);
        set_tile(&mut features, NUM_TILES_X as i32 - 1, y, TileType::Bush);
        let b = rng_range(rng, 1, 5);
        let mut x: i32 = 0;
        while x < b
            invariant
                layer_wf(features@),
                features@.len() == NUM_TILES as int,
                0 <= y < NUM_TILES_Y as int,
                0 <= x <= b,
                b < 5,
                forall|cx: int, cy: int|
                    11 <= cx <= 20 && 7 <= cy <= 12 ==> #[trigger] tiles@[index_spec(cx, cy)]
                        == TileType::Dirt && features@[index_spec(cx, cy)] == coup_feature(cx, cy),
            decreases b - x,
        {
            set_tile(&mut features, x, y, TileType::Bush);
            x = x + 1;
        }
        let b = rng_range(rng, 1, 5);
        let mut x: i32 = 0;
        while x < b
            invariant
                layer_wf(features@),
                features@.len() == NUM_TILES as int,
                0 <= y < NUM_TILES_Y as int,
                0 <= x <= b,
                b < 5,
                forall|cx: int, cy: int|
                    11 <= cx <= 20 && 7 <= cy <= 12 ==> #[trigger] tiles@[index_spec(cx, cy)]
                        == TileType::Dirt && features@[index_spec(cx, cy)] == coup_feature(cx, cy),
            decreases b - x,
        {
            set_tile(&mut features, NUM_TILES_X as i32 - 1 - x, y, TileType::Bush);
            x = x + 1;
        }
        y = y + 1;
    }

    // Pretty flowers, and free-range chickens.
    let mut i: usize = 0;
    while i < NUM_TILES
        invariant
            layer_wf(tiles@),
            layer_wf(features@),
            tiles@.len() == NUM_TILES as int,
            features@.len() == NUM_TILES as int,
            i <= NUM_TILES,
            forall|cx: int, cy: int|
                11 <= cx <= 20 && 7 <= cy <= 12 ==> #[trigger] tiles@[index_spec(cx, cy)]
                    == TileType::Dirt && features@[index_spec(cx, cy)] == coup_feature(cx, cy),
            forall|k: int|
                0 <= k < spawns@.len() ==> in_bounds(
                    (#[trigger] spawns@[k]).1 as int,
                    spawns@[k].2 as int,
                ),
        decreases NUM_TILES - i,
    {
        if features[i] == TileType::Empty && tiles[i] == TileType::Grass {
            if rng_range(rng, 1, 10) < 2 {
                set_cell(&mut features, i, TileType::Flower);
            }
            if rng_range(rng, 1, 20) < 2 {
                spawns.push(("Chicken".to_owned(), (i % NUM_TILES_X) as i32, (i / NUM_TILES_X) as i32));
            }
        }
        i = i + 1;
    }

    // The road north, whose top cells lead to the farm house.
    let mut y: i32 = 0;
    while y < 7
        invariant
            layer_wf(tiles@),
            layer_wf(features@),
            tiles@.len() == NUM_TILES as int,
            features@.len() == NUM_TILES as int,
            0 <= y <= 7,
            forall|cx: int, cy: int|
                11 <= cx <= 20 && 7 <= cy <= 12 ==> #[trigger] tiles@[index_spec(cx, cy)]
                    == TileType::Dirt && features@[index_spec(cx, cy)] == coup_feature(cx, cy),
            forall|cx: int, cy: int|
                15 <= cx <= 17 && 0 <= cy < y ==> #[trigger] tiles@[index_spec(cx, cy)]
                    == TileType::Road && features@[index_spec(cx, cy)] == TileType::Empty,
            y == 0 ==> exits@.len() == 0,
            y > 0 ==> exits@ == seq![(15usize, 1usize), (16usize, 1usize), (17usize, 1usize)],
        decreases 7 - y,
    {
        let mut x: i32 = 15;
        while x < 18
            invariant
                layer_wf(tiles@),
                layer_wf(features@),
                tiles@.len() == NUM_TILES as int,
                features@.len() == NUM_TILES as int,
                0 <= y < 7,
                15 <= x <= 18,
                forall|cx: int, cy: int|
                    11 <= cx <= 20 && 7 <= cy <= 12 ==> #[trigger] tiles@[index_spec(cx, cy)]
                        == TileType::Dirt && features@[index_spec(cx, cy)] == coup_feature(cx, cy),
                forall|cx: int, cy: int|
                    15 <= cx <= 17 && 0 <= cy <= 6 && (cy < y || (cy == y && cx < x))
                        ==> #[trigger] tiles@[index_spec(cx, cy)] == TileType::Road
                        && features@[index_spec(cx, cy)] == TileType::Empty,
                y > 0 ==> exits@ == seq![(15usize, 1usize), (16usize, 1usize), (17usize, 1usize)],
                y == 0 ==> exits@.len() == x - 15 && forall|k: int|
                    0 <= k < exits@.len() ==> #[trigger] exits@[k] == ((15 + k) as usize, 1usize),
            decreases 18 - x,
        {
            set_tile(&mut tiles, x, y, TileType::Road);
            set_tile(&mut features, x, y, TileType::Empty);
            if y == 0 {
                let idx = crate::position::tile_index(x, y);
                exits.push((idx, 1));
            }
            x = x + 1;
        }
        proof {
            assert(exits@ =~= seq![(15usize, 1usize), (16usize, 1usize), (17usize, 1usize)]);
        }
        y = y + 1;
    }

    // Wolves, far from the coup.
    spawn_wolves_near_corner(&tiles, &features, &mut spawns);

    proof {
        assert(cell_open(tiles@, features@, index_spec(17, 0)));
        assert(cell_open(tiles@, features@, index_spec(16, 10)));
    }

    MapTransfer {
        tiles,
        features,
        name: "Farmer Tom's Coup".to_owned(),
        player_start,
        exits,
        spawns,
    }
}

} // verus!
