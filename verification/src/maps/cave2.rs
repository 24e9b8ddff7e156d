//! The deepest cave: a hand-laid gauntlet of fire rows and spike
//! traps guarding the golden egg. It has no exits; reaching the egg
//! wins the game.

use vstd::prelude::*;

use bracket_random::prelude::RandomNumberGenerator;

use crate::grid::layer_wf;
use crate::maps::{fill_layer, has_spawn, set_tile, MapToBuild, MapTransfer};
use crate::position::{in_bounds, index_spec, NUM_TILES, NUM_TILES_Y};
use crate::rng::rng_range;
use crate::tile_type::TileType;

verus! {

/// The gauntlet's terrain as the loops first lay it: fire on the even
/// rows, bare cave floor on the odd ones.
pub open spec fn gauntlet_laid(cx: int, cy: int) -> TileType {
    if cy % 2 == 0 {
        TileType::Fire
    } else {
        TileType::CaveFloor
    }
}

/// The gauntlet's final terrain: as laid, except that the corridor
/// from the larder punches one floor cell through the fire row at
/// `(7, 10)`.
pub open spec fn gauntlet_tile(cx: int, cy: int) -> TileType {
    if cx == 7 && cy == 10 {
        TileType::CaveFloor
    } else {
        gauntlet_laid(cx, cy)
    }
}

/// A legal spike directive of the deep cave: it sits on an odd
/// (floor) gauntlet row, fixed spikes on the cells of even coordinate
/// sum and timed spikes on the others.
pub open spec fn spike_spawn_ok(s: (String, i32, i32)) -> bool {
    &&& 2 <= s.1 <= 8
    &&& 9 <= s.2 <= 16
    &&& s.2 % 2 == 1
    &&& ((s.0@ == "Spikes1"@ && (s.1 + s.2) % 2 == 0) || (s.0@ == "Spikes2"@ && (s.1 + s.2) % 2
        == 1))
}

/// Builds the deep cave. The player always enters at `(4, 18)`, an
/// enterable cell of the entry chamber; the map has no exit cells,
/// and the golden egg waits at `(30, 8)` behind the fire-and-spike
/// gauntlet. Every spike directive sits on a gauntlet floor cell with
/// the parity its kind demands, every even-parity floor cell gets its
/// fixed spikes, and the white wolf guards the egg at `(20, 8)`.
pub fn build(rng: &mut RandomNumberGenerator, _from: Option<MapToBuild>) -> (r: MapTransfer)
    ensures
        crate::maps::transfer_wf(&r),
        r.name@ == "Farmer Tom's House"@,
        r.player_start == (4i32, 18i32),
        r.exits@.len() == 0,
        r.features@[index_spec(30, 8)] == TileType::GoldEgg,
        r.features@[index_spec(3, 5)] == TileType::Grain,
        crate::grid::cell_open(r.tiles@, r.features@, index_spec(4, 18)),
        forall|cx: int, cy: int|
            3 <= cx <= 5 && 17 <= cy <= 18 ==> #[trigger] r.tiles@[index_spec(cx, cy)]
                == TileType::CaveFloor,
        forall|cx: int, cy: int|
            3 <= cx <= 5 && 5 <= cy <= 8 ==> #[trigger] r.tiles@[index_spec(cx, cy)]
                == TileType::CaveFloor,
        forall|cx: int, cy: int|
            2 <= cx <= 8 && 9 <= cy <= 16 ==> #[trigger] r.tiles@[index_spec(cx, cy)]
                == gauntlet_tile(cx, cy),
        forall|cx: int, cy: int|
            10 <= cx <= 24 && 5 <= cy <= 11 ==> #[trigger] r.tiles@[index_spec(cx, cy)]
                == TileType::CaveFloor,
        forall|cx: int| 10 <= cx <= 30 ==> #[trigger] r.tiles@[index_spec(cx, 8)]
            == TileType::CaveFloor,
        r.spawns@.len() >= 1,
        r.spawns@.last().0@ == "WhiteWolf"@ && r.spawns@.last().1 == 20 && r.spawns@.last().2 == 8,
        forall|k: int| 0 <= k < r.spawns@.len() - 1 ==> spike_spawn_ok(#[trigger] r.spawns@[k]),
        forall|cx: int, cy: int|
            2 <= cx <= 8 && 9 <= cy <= 16 && cy % 2 == 1 && (cx + cy) % 2 == 0 ==> has_spawn(
                r.spawns@,
                "Spikes1"@,
                cx,
                cy,
            ),
{
    let mut tiles = fill_layer(TileType::Water);
    let mut features = fill_layer(TileType::Empty);
    let exits: Vec<(usize, usize)> = Vec::new();
    let mut spawns: Vec<(String, i32, i32)> = Vec::new();
    // The entry side is the same whichever map the player came from.
    let player_start: (i32, i32) = (4, NUM_TILES_Y as i32 - 2);

    // Entry chamber at the bottom; the dead-end cave registers no exits.
    let mut y: i32 = NUM_TILES_Y as i32 - 3;
    while y < NUM_TILES_Y as i32 - 1
        invariant
            layer_wf(tiles@),
            tiles@.len() == NUM_TILES as int,
            17 <= y <= NUM_TILES_Y as int - 1,
            forall|cx: int, cy: int|
                3 <= cx <= 5 && 17 <= cy < y ==> #[trigger] tiles@[index_spec(cx, cy)]
                    == TileType::CaveFloor,
        decreases NUM_TILES_Y as int - 1 - y,
    {
        let mut x: i32 = 3;
        while x <= 5
            invariant
                layer_wf(tiles@),
                tiles@.len() == NUM_TILES as int,
                17 <= y < NUM_TILES_Y as int - 1,
                3 <= x <= 6,
                forall|cx: int, cy: int|
                    3 <= cx <= 5 && 17 <= cy <= 18 && (cy < y || (cy == y && cx < x))
                        ==> #[trigger] tiles@[index_spec(cx, cy)] == TileType::CaveFloor,
            decreases 6 - x,
        {
            set_tile(&mut tiles, x, y, TileType::CaveFloor);
            x = x + 1;
        }
        y = y + 1;
    }

    // The gauntlet: alternating fire rows and spike-trapped floor.
    // Fixed spikes go on every floor cell of even coordinate sum;
    // timed spikes on a random subset of the others.
    let mut y: i32 = 9;
    while y < NUM_TILES_Y as i32 - 3
        invariant
            layer_wf(tiles@),
            tiles@.len() == NUM_TILES as int,
            9 <= y <= NUM_TILES_Y as int - 3,
            forall|cx: int, cy: int|
                3 <= cx <= 5 && 17 <= cy <= 18 ==> #[trigger] tiles@[index_spec(cx, cy)]
                    == TileType::CaveFloor,
            forall|cx: int, cy: int|
                2 <= cx <= 8 && 9 <= cy < y ==> #[trigger] tiles@[index_spec(cx, cy)]
                    == gauntlet_laid(cx, cy),
            forall|k: int|
                0 <= k < spawns@.len() ==> spike_spawn_ok(#[trigger] spawns@[k]) && spawns@[k].2
                    < y,
            forall|cx: int, cy: int|
                2 <= cx <= 8 && 9 <= cy < y && cy % 2 == 1 && (cx + cy) % 2 == 0 ==> has_spawn(
                    spawns@,
                    "Spikes1"@,
                    cx,
                    cy,
                ),
        decreases NUM_TILES_Y as int - 3 - y,
    {
        let mut x: i32 = 2;
        while x <= 8
            invariant
                layer_wf(tiles@),
                tiles@.len() == NUM_TILES as int,
                9 <= y < NUM_TILES_Y as int - 3,
                2 <= x <= 9,
                forall|cx: int, cy: int|
                    3 <= cx <= 5 && 17 <= cy <= 18 ==> #[trigger] tiles@[index_spec(cx, cy)]
                        == TileType::CaveFloor,
                forall|cx: int, cy: int|
                    2 <= cx <= 8 && 9 <= cy <= 16 && (cy < y || (cy == y && cx < x))
                        ==> #[trigger] tiles@[index_spec(cx, cy)] == gauntlet_laid(cx, cy),
                forall|k: int|
                    0 <= k < spawns@.len() ==> spike_spawn_ok(#[trigger] spawns@[k]) && (
                    spawns@[k].2 < y || (spawns@[k].2 == y && spawns@[k].1 < x)),
                forall|cx: int, cy: int|
                    2 <= cx <= 8 && 9 <= cy <= 16 && (cy < y || (cy == y && cx < x)) && cy % 2 == 1
                        && (cx + cy) % 2 == 0 ==> has_spawn(spawns@, "Spikes1"@, cx, cy),
            decreases 9 - x,
        {
            let ghost prev = spawns@;
            if y % 2 == 0 {
                set_tile(&mut tiles, x, y, TileType::Fire);
            } else {
                set_tile(&mut tiles, x, y, TileType::CaveFloor);
                if (x + y) % 2 == 0 {
                    spawns.push(("Spikes1".to_owned(), x, y));
                } else {
                    if rng_range(rng, 1, 5) > 1 {
                        spawns.push(("Spikes2".to_owned(), x, y));
                    }
                }
            }
            proof {
                assert forall|cx: int, cy: int|
                    2 <= cx <= 8 && 9 <= cy <= 16 && (cy < y || (cy == y && cx < x + 1)) && cy % 2
                        == 1 && (cx + cy) % 2 == 0 implies has_spawn(
                    spawns@,
                    "Spikes1"@,
                    cx,
                    cy,
                ) by {
                    if cy < y || cx < x as int {
                        assert(has_spawn(prev, "Spikes1"@, cx, cy));
                        let k = choose|k: int|
                            0 <= k < prev.len() && (#[trigger] prev[k]).0@ == "Spikes1"@
                                && prev[k].1 == cx && prev[k].2 == cy;
                        assert(spawns@[k] == prev[k]);
                    } else {
                        assert(spawns@.last().0@ == "Spikes1"@ && spawns@.last().1 == cx
                            && spawns@.last().2 == cy);
                    }
                }
            }
            x = x + 1;
        }
        y = y + 1;
    }

    // The larder chamber, with a grain snack.
    let mut y: i32 = 5;
    while y < 9
        invariant
            layer_wf(tiles@),
            tiles@.len() == NUM_TILES as int,
            5 <= y <= 9,
            forall|cx: int, cy: int|
                3 <= cx <= 5 && 17 <= cy <= 18 ==> #[trigger] tiles@[index_spec(cx, cy)]
                    == TileType::CaveFloor,
            forall|cx: int, cy: int|
                2 <= cx <= 8 && 9 <= cy <= 16 ==> #[trigger] tiles@[index_spec(cx, cy)]
                    == gauntlet_laid(cx, cy),
            forall|cx: int, cy: int|
                3 <= cx <= 5 && 5 <= cy < y ==> #[trigger] tiles@[index_spec(cx, cy)]
                    == TileType::CaveFloor,
        decreases 9 - y,
    {
        let mut x: i32 = 3;
        while x <= 5
            invariant
                layer_wf(tiles@),
                tiles@.len() == NUM_TILES as int,
                5 <= y < 9,
                3 <= x <= 6,
                forall|cx: int, cy: int|
                    3 <= cx <= 5 && 17 <= cy <= 18 ==> #[trigger] tiles@[index_spec(cx, cy)]
                        == TileType::CaveFloor,
                forall|cx: int, cy: int|
                    2 <= cx <= 8 && 9 <= cy <= 16 ==> #[trigger] tiles@[index_spec(cx, cy)]
                        == gauntlet_laid(cx, cy),
                forall|cx: int, cy: int|
                    3 <= cx <= 5 && 5 <= cy <= 8 && (cy < y || (cy == y && cx < x))
                        ==> #[trigger] tiles@[index_spec(cx, cy)] == TileType::CaveFloor,
            decreases 6 - x,
        {
            set_tile(&mut tiles, x, y, TileType::CaveFloor);
            x = x + 1;
        }
        y = y + 1;
    }
    set_tile(&mut features, 3, 5, TileType::Grain);

    // Winding connections toward the egg chamber. The second column
    // punches through the fire row at (7, 10).
    let mut y: i32 = 6;
    while y < 10
        invariant
            layer_wf(tiles@),
            tiles@.len() == NUM_TILES as int,
            6 <= y <= 10,
            forall|cx: int, cy: int|
                3 <= cx <= 5 && 17 <= cy <= 18 ==> #[trigger] tiles@[index_spec(cx, cy)]
                    == TileType::CaveFloor,
            forall|cx: int, cy: int|
                2 <= cx <= 8 && 9 <= cy <= 16 ==> #[trigger] tiles@[index_spec(cx, cy)]
                    == gauntlet_laid(cx, cy),
            forall|cx: int, cy: int|
                3 <= cx <= 5 && 5 <= cy <= 8 ==> #[trigger] tiles@[index_spec(cx, cy)]
                    == TileType::CaveFloor,
        decreases 10 - y,
    {
        set_tile(&mut tiles, 6, y, TileType::CaveFloor);
        y = y + 1;
    }
    let mut y: i32 = 7;
    while y < 11
        invariant
            layer_wf(tiles@),
            tiles@.len() == NUM_TILES as int,
            7 <= y <= 11,
            forall|cx: int, cy: int|
                3 <= cx <= 5 && 17 <= cy <= 18 ==> #[trigger] tiles@[index_spec(cx, cy)]
                    == TileType::CaveFloor,
            forall|cx: int, cy: int|
                2 <= cx <= 8 && 9 <= cy <= 16 ==> #[trigger] tiles@[index_spec(cx, cy)] == (if cx
                    == 7 && cy == 10 && y > 10 {
                    TileType::CaveFloor
                } else {
                    gauntlet_laid(cx, cy)
                }),
            forall|cx: int, cy: int|
                3 <= cx <= 5 && 5 <= cy <= 8 ==> #[trigger] tiles@[index_spec(cx, cy)]
                    == TileType::CaveFloor,
        decreases 11 - y,
    {
        set_tile(&mut tiles, 7, y, TileType::CaveFloor);
        y = y + 1;
    }
    let mut x: i32 = 4;
    while x < 11
        invariant
            layer_wf(tiles@),
            tiles@.len() == NUM_TILES as int,
            4 <= x <= 11,
            forall|cx: int, cy: int|
                3 <= cx <= 5 && 17 <= cy <= 18 ==> #[trigger] tiles@[index_spec(cx, cy)]
                    == TileType::CaveFloor,
            forall|cx: int, cy: int|
                2 <= cx <= 8 && 9 <= cy <= 16 ==> #[trigger] tiles@[index_spec(cx, cy)]
                    == gauntlet_tile(cx, cy),
            forall|cx: int, cy: int|
                3 <= cx <= 5 && 5 <= cy <= 8 ==> #[trigger] tiles@[index_spec(cx, cy)]
                    == TileType::CaveFloor,
        decreases 11 - x,
    {
        set_tile(&mut tiles, x, 5, TileType::CaveFloor);
        x = x + 1;
    }
    let mut y: i32 = 5;
    while y < 12
        invariant
            layer_wf(tiles@),
            tiles@.len() == NUM_TILES as int,
            5 <= y <= 12,
            forall|cx: int, cy: int|
                3 <= cx <= 5 && 17 <= cy <= 18 ==> #[trigger] tiles@[index_spec(cx, cy)]
                    == TileType::CaveFloor,
            forall|cx: int, cy: int|
                2 <= cx <= 8 && 9 <= cy <= 16 ==> #[trigger] tiles@[index_spec(cx, cy)]
                    == gauntlet_tile(cx, cy),
            forall|cx: int, cy: int|
                3 <= cx <= 5 && 5 <= cy <= 8 ==> #[trigger] tiles@[index_spec(cx, cy)]
                    == TileType::CaveFloor,
            forall|cx: int, cy: int|
                10 <= cx <= 24 && 5 <= cy < y ==> #[trigger] tiles@[index_spec(cx, cy)]
                    == TileType::CaveFloor,
        decreases 12 - y,
    {
        let mut x: i32 = 10;
        while x < 25
            invariant
                layer_wf(tiles@),
                tiles@.len() == NUM_TILES as int,
                5 <= y < 12,
                10 <= x <= 25,
                forall|cx: int, cy: int|
                    3 <= cx <= 5 && 17 <= cy <= 18 ==> #[trigger] tiles@[index_spec(cx, cy)]
                        == TileType::CaveFloor,
                forall|cx: int, cy: int|
                    2 <= cx <= 8 && 9 <= cy <= 16 ==> #[trigger] tiles@[index_spec(cx, cy)]
                        == gauntlet_tile(cx, cy),
                forall|cx: int, cy: int|
                    3 <= cx <= 5 && 5 <= cy <= 8 ==> #[trigger] tiles@[index_spec(cx, cy)]
                        == TileType::CaveFloor,
                forall|cx: int, cy: int|
                    10 <= cx <= 24 && 5 <= cy <= 11 && (cy < y || (cy == y && cx < x))
                        ==> #[trigger] tiles@[index_spec(cx, cy)] == TileType::CaveFloor,
            decreases 25 - x,
        {
            set_tile(&mut tiles, x, y, TileType::CaveFloor);
            x = x + 1;
        }
        y = y + 1;
    }
    let mut x: i32 = 10;
    while x < 31
        invariant
            layer_wf(tiles@),
            tiles@.len() == NUM_TILES as int,
            10 <= x <= 31,
            forall|cx: int, cy: int|
                3 <= cx <= 5 && 17 <= cy <= 18 ==> #[trigger] tiles@[index_spec(cx, cy)]
                    == TileType::CaveFloor,
            forall|cx: int, cy: int|
                2 <= cx <= 8 && 9 <= cy <= 16 ==> #[trigger] tiles@[index_spec(cx, cy)]
                    == gauntlet_tile(cx, cy),
            forall|cx: int, cy: int|
                3 <= cx <= 5 && 5 <= cy <= 8 ==> #[trigger] tiles@[index_spec(cx, cy)]
                    == TileType::CaveFloor,
            forall|cx: int, cy: int|
                10 <= cx <= 24 && 5 <= cy <= 11 ==> #[trigger] tiles@[index_spec(cx, cy)]
                    == TileType::CaveFloor,
            forall|cx: int| 10 <= cx < x ==> #[trigger] tiles@[index_spec(cx, 8)]
                == TileType::CaveFloor,
        decreases 31 - x,
    {
        set_tile(&mut tiles, x, 8, TileType::CaveFloor);
        x = x + 1;
    }

    // The prize, and its guardian.
    set_tile(&mut features, 30, 8, TileType::GoldEgg);
    let ghost mid = spawns@;
    spawns.push(("WhiteWolf".to_owned(), 20, 8));

    proof {
        assert(tiles@[index_spec(4, 18)] == TileType::CaveFloor);
        assert(features@[index_spec(4, 18)] == TileType::Empty);
        assert(crate::grid::cell_open(tiles@, features@, index_spec(4, 18)));
        assert forall|cx: int, cy: int|
            2 <= cx <= 8 && 9 <= cy <= 16 && cy % 2 == 1 && (cx + cy) % 2 == 0 implies has_spawn(
            spawns@,
            "Spikes1"@,
            cx,
            cy,
        ) by {
            assert(has_spawn(mid, "Spikes1"@, cx, cy));
            let k = choose|k: int|
                0 <= k < mid.len() && (#[trigger] mid[k]).0@ == "Spikes1"@ && mid[k].1 == cx
                    && mid[k].2 == cy;
            assert(spawns@[k] == mid[k]);
        }
    }
    MapTransfer {
        tiles,
        features,
        name: "Farmer Tom's House".to_owned(),
        player_start,
        exits,
        spawns,
    }
}

} // verus!
