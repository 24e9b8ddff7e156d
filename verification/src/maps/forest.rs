//! The woods: a cellular-automata bush maze over grass, a cleared
//! channel to the exits, reachability pruning so no open pocket is cut
//! off, and scattered grain, webs and spiders.

use vstd::prelude::*;

use bracket_random::prelude::RandomNumberGenerator;

use crate::grid::{cell_open, layer_wf, open_map_spec};
use crate::maps::{fill_layer, set_cell, set_tile, transfer_wf, MapToBuild, MapTransfer};
use crate::position::{in_bounds, index_spec, NUM_TILES, NUM_TILES_X, NUM_TILES_Y};
use crate::reachability::{lemma_prune_idempotent, pruned_open, unflooded};
use crate::rng::rng_range;
use crate::tile_type::TileType;

verus! {

/// No cell of the layer is an indirection cell.
spec fn no_refer(layer: Seq<TileType>) -> bool {
    forall|i: int| 0 <= i < layer.len() ==> !((#[trigger] layer[i]) is ReferTo)
}

/// The set of cells whose feature is a spider web.
pub open spec fn web_cells(features: Seq<TileType>) -> Set<int> {
    Set::new(|c: int| 0 <= c < NUM_TILES as int && features[c] == TileType::Web)
}

/// Every cell of the terrain layer is concrete and walkable.
spec fn all_walkable(layer: Seq<TileType>) -> bool {
    forall|i: int|
        0 <= i < layer.len() ==> crate::tile_type::tile_walkable(#[trigger] layer[i]) && !(layer[i]
            is ReferTo)
}

/// The cleared channel column holds no feature in any row.
spec fn channel_clear(features: Seq<TileType>, rows: int) -> bool {
    forall|y: int|
        0 <= y < rows ==> #[trigger] features[y * (NUM_TILES_X as int) + 27] == TileType::Empty
}

/// Walking down the cleared channel column reaches every one of its
/// cells from the bottom end.
proof fn lemma_column_reachable(open: Seq<bool>, sources: Set<int>, y: int)
    requires
        open.len() == NUM_TILES as int,
        sources.contains(635),
        forall|y2: int|
            0 <= y2 < NUM_TILES_Y as int ==> #[trigger] open[y2 * (NUM_TILES_X as int) + 27],
        0 <= y < NUM_TILES_Y as int,
    ensures
        crate::cost_field::reachable_within(
            open,
            sources,
            y * (NUM_TILES_X as int) + 27,
            (NUM_TILES_Y as int - 1 - y) as nat,
        ),
    decreases NUM_TILES_Y as int - y,
{
    let cell = y * (NUM_TILES_X as int) + 27;
    if y == NUM_TILES_Y as int - 1 {
        assert(cell == 635);
    } else {
        lemma_column_reachable(open, sources, y + 1);
        let below = (y + 1) * (NUM_TILES_X as int) + 27;
        assert(crate::cost_field::adjacent(below, cell));
        assert(open[cell]);
        assert(crate::cost_field::reachable_within(
            open,
            sources,
            cell,
            (NUM_TILES_Y as int - 1 - y) as nat,
        ));
    }
}

/// The number of blocked 8-neighbours of an interior cell.
pub open spec fn ca_neighbors(map: Seq<bool>, idx: int) -> int {
    (if map[idx - 1] {
        1int
    } else {
        0int
    }) + (if map[idx + 1] {
        1int
    } else {
        0int
    }) + (if map[idx - NUM_TILES_X as int] {
        1int
    } else {
        0int
    }) + (if map[idx + NUM_TILES_X as int] {
        1int
    } else {
        0int
    }) + (if map[idx - (NUM_TILES_X as int - 1)] {
        1int
    } else {
        0int
    }) + (if map[idx - (NUM_TILES_X as int + 1)] {
        1int
    } else {
        0int
    }) + (if map[idx + (NUM_TILES_X as int - 1)] {
        1int
    } else {
        0int
    }) + (if map[idx + (NUM_TILES_X as int + 1)] {
        1int
    } else {
        0int
    })
}

/// One generation of the automaton at one cell, reading only the
/// previous generation: an interior cell becomes blocked exactly when
/// more than four of its eight neighbours are blocked, or none is;
/// every other cell keeps its prior value. The probed interior stops
/// two cells short of the right and bottom edges.
pub open spec fn ca_step(map: Seq<bool>, idx: int) -> bool {
    let cx = idx % (NUM_TILES_X as int);
    let cy = idx / (NUM_TILES_X as int);
    if 1 <= cx < NUM_TILES_X as int - 2 && 1 <= cy < NUM_TILES_Y as int - 2 {
        ca_neighbors(map, idx) > 4 || ca_neighbors(map, idx) == 0
    } else {
        map[idx]
    }
}

/// One smoothing pass of the bush automaton, applying `ca_step` to
/// every cell against the previous generation.
fn smooth(map: &Vec<bool>) -> (out: Vec<bool>)
    requires
        map@.len() == NUM_TILES as int,
    ensures
        out@.len() == NUM_TILES as int,
        forall|i: int| 0 <= i < NUM_TILES as int ==> #[trigger] out@[i] == ca_step(map@, i),
{
    let mut out: Vec<bool> = Vec::new();
    let mut y: usize = 0;
    while y < NUM_TILES_Y
        invariant
            map@.len() == NUM_TILES as int,
            y <= NUM_TILES_Y,
            out@.len() == y as int * NUM_TILES_X as int,
            forall|i: int| 0 <= i < out@.len() ==> #[trigger] out@[i] == ca_step(map@, i),
        decreases NUM_TILES_Y - y,
    {
        let mut x: usize = 0;
        while x < NUM_TILES_X
            invariant
                map@.len() == NUM_TILES as int,
                y < NUM_TILES_Y,
                x <= NUM_TILES_X,
                out@.len() == y as int * NUM_TILES_X as int + x as int,
                forall|i: int| 0 <= i < out@.len() ==> #[trigger] out@[i] == ca_step(map@, i),
            decreases NUM_TILES_X - x,
        {
            let idx = y * NUM_TILES_X + x;
            proof {
                assert(idx as int % (NUM_TILES_X as int) == x as int && idx as int / (
                NUM_TILES_X as int) == y as int) by {
                    assert(idx as int == y as int * (NUM_TILES_X as int) + x as int);
                };
            }
            if x >= 1 && x < NUM_TILES_X - 2 && y >= 1 && y < NUM_TILES_Y - 2 {
                let mut neighbors: u32 = 0;
                if map[idx - 1] {
                    neighbors = neighbors + 1;
                }
                if map[idx + 1] {
                    neighbors = neighbors + 1;
                }
                if map[idx - NUM_TILES_X] {
                    neighbors = neighbors + 1;
                }
                if map[idx + NUM_TILES_X] {
                    neighbors = neighbors + 1;
                }
                if map[idx - (NUM_TILES_X - 1)] {
                    neighbors = neighbors + 1;
                }
                if map[idx - (NUM_TILES_X + 1)] {
                    neighbors = neighbors + 1;
                }
                if map[idx + (NUM_TILES_X - 1)] {
                    neighbors = neighbors + 1;
                }
                if map[idx + (NUM_TILES_X + 1)] {
                    neighbors = neighbors + 1;
                }
                out.push(neighbors > 4 || neighbors == 0);
            } else {
                out.push(map[idx]);
            }
            x = x + 1;
        }
        y = y + 1;
    }
    out
}

/// Builds the woods. Entering from the first cave places the player on
/// the top-edge exit cell; otherwise at the bottom of the cleared
/// channel. The one exit cell at `(27, 0)` leads to the first cave,
/// and after pruning, every cell that can still be entered is
/// reachable from the channel's bottom end: the map has no isolated
/// open pockets.
pub fn build(rng: &mut RandomNumberGenerator, from: Option<MapToBuild>) -> (r: MapTransfer)
    ensures
        transfer_wf(&r),
        from == Some(MapToBuild::Cave1) ==> r.player_start == (27i32, 0i32),
        (from matches Some(m) && m != MapToBuild::Cave1) ==> r.player_start == (27i32, 19i32),
        from is None ==> r.player_start == (27i32, 19i32),
        r.exits@ == seq![(27usize, 2usize)],
        r.name@ == "Into the Woods"@,
        r.tiles@[index_spec(27, 0)] == TileType::CaveFloor,
        cell_open(r.tiles@, r.features@, index_spec(r.player_start.0 as int, r.player_start.1 as int)),
        forall|cy: int|
            0 <= cy < NUM_TILES_Y as int ==> cell_open(
                r.tiles@,
                r.features@,
                #[trigger] index_spec(27, cy),
            ),
        forall|cx: int|
            0 <= cx < NUM_TILES_X as int && cx != 27 ==> #[trigger] r.features@[index_spec(cx, 0)]
                == TileType::Bush,
        forall|cx: int|
            0 <= cx < NUM_TILES_X as int && !(26 <= cx <= 29) ==> #[trigger] r.features@[index_spec(
                cx,
                19,
            )] == TileType::Bush,
        forall|cy: int|
            0 <= cy < NUM_TILES_Y as int ==> #[trigger] r.features@[index_spec(0, cy)]
                == TileType::Bush,
        forall|cy: int|
            0 <= cy < NUM_TILES_Y as int ==> #[trigger] r.features@[index_spec(31, cy)]
                == TileType::Bush,
        forall|c1: int, c2: int|
            0 <= c1 < NUM_TILES as int && 0 <= c2 < NUM_TILES as int && #[trigger] r.features@[c1]
                == TileType::Grain && #[trigger] r.features@[c2] == TileType::Grain ==> c1 == c2,
        forall|k: int| 0 <= k < r.spawns@.len() ==> (#[trigger] r.spawns@[k]).0@ == "Spider"@,
        r.spawns@.len() <= 9,
        web_cells(r.features@).finite() && web_cells(r.features@).len() <= 10,
        forall|i: int|
            0 <= i < NUM_TILES as int && cell_open(r.tiles@, r.features@, i) ==> !unflooded(
                open_map_spec(r.tiles@, r.features@),
                crate::cost_field::source_set(seq![635usize]),
                i,
            ),
{
    let mut tiles = fill_layer(TileType::Dirt);
    let mut features = fill_layer(TileType::Empty);
    let mut exits: Vec<(usize, usize)> = Vec::new();
    let mut spawns: Vec<(String, i32, i32)> = Vec::new();

    let player_start: (i32, i32) = match from {
        Some(MapToBuild::Cave1) => (27, 0),
        Some(_) => (27, NUM_TILES_Y as i32 - 1),
        None => (27, NUM_TILES_Y as i32 - 1),
    };

    // Seed the passability automaton (true marks a blocked cell).
    let mut map: Vec<bool> = Vec::new();
    let mut i: usize = 0;
    while i < NUM_TILES
        invariant
            i <= NUM_TILES,
            map@.len() == i as int,
        decreases NUM_TILES - i,
    {
        let roll = rng_range(rng, 1, 101);
        map.push(roll <= 55);
        i = i + 1;
    }

    // Ten smoothing passes.
    let mut pass: usize = 0;
    while pass < 10
        invariant
            map@.len() == NUM_TILES as int,
            pass <= 10,
        decreases 10 - pass,
    {
        map = smooth(&map);
        pass = pass + 1;
    }

    // Blocked cells become bushes on grass; open cells, bare grass.
    let mut i: usize = 0;
    while i < NUM_TILES
        invariant
            layer_wf(tiles@),
            layer_wf(features@),
            no_refer(features@),
            all_walkable(tiles@),
            tiles@.len() == NUM_TILES as int,
            features@.len() == NUM_TILES as int,
            map@.len() == NUM_TILES as int,
            i <= NUM_TILES,
            forall|c: int|
                0 <= c < NUM_TILES as int ==> #[trigger] features@[c] == TileType::Bush
                    || features@[c] == TileType::Empty,
        decreases NUM_TILES - i,
    {
        set_cell(&mut tiles, i, TileType::Grass);
        if map[i] {
            set_cell(&mut features, i, TileType::Bush);
        } else {
            set_cell(&mut features, i, TileType::Empty);
        }
        i = i + 1;
    }

    // Bush border.
    let mut x: i32 = 0;
    while x < NUM_TILES_X as i32
        invariant
            layer_wf(features@),
            no_refer(features@),
            features@.len() == NUM_TILES as int,
            0 <= x <= NUM_TILES_X as int,
            forall|c: int|
                0 <= c < NUM_TILES as int ==> #[trigger] features@[c] == TileType::Bush
                    || features@[c] == TileType::Empty,
            forall|cx: int|
                0 <= cx < x ==> #[trigger] features@[index_spec(cx, 0)] == TileType::Bush,
            forall|cx: int|
                0 <= cx < x ==> #[trigger] features@[index_spec(cx, 19)] == TileType::Bush,
        decreases NUM_TILES_X as int - x,
    {
        set_tile(&mut features, x, 0, TileType::Bush);
        set_tile(&mut features, x, NUM_TILES_Y as i32 - 1, TileType::Bush);
        x = x + 1;
    }
    let mut y: i32 = 0;
    while y < NUM_TILES_Y as i32 - 1
        invariant
            layer_wf(features@),
            no_refer(features@),
            features@.len() == NUM_TILES as int,
            0 <= y <= NUM_TILES_Y as int - 1,
            forall|c: int|
                0 <= c < NUM_TILES as int ==> #[trigger] features@[c] == TileType::Bush
                    || features@[c] == TileType::Empty,
            forall|cx: int|
                0 <= cx < NUM_TILES_X as int ==> #[trigger] features@[index_spec(cx, 0)]
                    == TileType::Bush,
            forall|cx: int|
                0 <= cx < NUM_TILES_X as int ==> #[trigger] features@[index_spec(cx, 19)]
                    == TileType::Bush,
            forall|cy: int| 0 <= cy < y ==> #[trigger] features@[index_spec(0, cy)]
                == TileType::Bush,
            forall|cy: int| 0 <= cy < y ==> #[trigger] features@[index_spec(31, cy)]
                == TileType::Bush,
        decreases NUM_TILES_Y as int - 1 - y,
    {
        set_tile(&mut features, 0, y, TileType::Bush);
        set_tile(&mut features, NUM_TILES_X as i32 - 1, y, TileType::Bush);
        y = y + 1;
    }
    proof {
        assert(features@[index_spec(0, 19)] == TileType::Bush);
        assert(features@[index_spec(31, 19)] == TileType::Bush);
        assert forall|cy: int|
            0 <= cy < NUM_TILES_Y as int implies #[trigger] features@[index_spec(0, cy)]
            == TileType::Bush by {}
        assert forall|cy: int|
            0 <= cy < NUM_TILES_Y as int implies #[trigger] features@[index_spec(31, cy)]
            == TileType::Bush by {}
    }

    // Clear a channel from the entrance to the exit.
    let mut y: i32 = 5;
    while y < NUM_TILES_Y as i32
        invariant
            layer_wf(features@),
            no_refer(features@),
            features@.len() == NUM_TILES as int,
            5 <= y <= NUM_TILES_Y as int,
            forall|c: int|
                0 <= c < NUM_TILES as int ==> #[trigger] features@[c] == TileType::Bush
                    || features@[c] == TileType::Empty,
            forall|cx: int|
                0 <= cx < NUM_TILES_X as int && cx != 27 ==> #[trigger] features@[index_spec(
                    cx,
                    0,
                )] == TileType::Bush,
            forall|cx: int|
                0 <= cx < NUM_TILES_X as int && !(26 <= cx <= 29) ==> #[trigger] features@[
                index_spec(cx, 19)] == TileType::Bush,
            forall|cy: int|
                0 <= cy < NUM_TILES_Y as int ==> #[trigger] features@[index_spec(0, cy)]
                    == TileType::Bush,
            forall|cy: int|
                0 <= cy < NUM_TILES_Y as int ==> #[trigger] features@[index_spec(31, cy)]
                    == TileType::Bush,
            forall|y2: int|
                5 <= y2 < y ==> #[trigger] features@[y2 * (NUM_TILES_X as int) + 27]
                    == TileType::Empty,
        decreases NUM_TILES_Y as int - y,
    {
        let mut x: i32 = 26;
        while x <= 29
            invariant
                layer_wf(features@),
                no_refer(features@),
                features@.len() == NUM_TILES as int,
                5 <= y < NUM_TILES_Y as int,
                26 <= x <= 30,
                forall|c: int|
                    0 <= c < NUM_TILES as int ==> #[trigger] features@[c] == TileType::Bush
                        || features@[c] == TileType::Empty,
                forall|cx: int|
                    0 <= cx < NUM_TILES_X as int && cx != 27 ==> #[trigger] features@[index_spec(
                        cx,
                        0,
                    )] == TileType::Bush,
                forall|cx: int|
                    0 <= cx < NUM_TILES_X as int && !(26 <= cx <= 29) ==> #[trigger] features@[
                    index_spec(cx, 19)] == TileType::Bush,
                forall|cy: int|
                    0 <= cy < NUM_TILES_Y as int ==> #[trigger] features@[index_spec(0, cy)]
                        == TileType::Bush,
                forall|cy: int|
                    0 <= cy < NUM_TILES_Y as int ==> #[trigger] features@[index_spec(31, cy)]
                        == TileType::Bush,
                forall|y2: int|
                    5 <= y2 < y ==> #[trigger] features@[y2 * (NUM_TILES_X as int) + 27]
                        == TileType::Empty,
                x > 27 ==> features@[y * (NUM_TILES_X as int) + 27] == TileType::Empty,
            decreases 30 - x,
        {
            set_tile(&mut features, x, y, TileType::Empty);
            x = x + 1;
        }
        y = y + 1;
    }
    let mut x: i32 = 1;
    while x < NUM_TILES_X as i32 - 1
        invariant
            layer_wf(features@),
            no_refer(features@),
            features@.len() == NUM_TILES as int,
            1 <= x <= NUM_TILES_X as int - 1,
            forall|c: int|
                0 <= c < NUM_TILES as int ==> #[trigger] features@[c] == TileType::Bush
                    || features@[c] == TileType::Empty,
            forall|cx: int|
                0 <= cx < NUM_TILES_X as int && cx != 27 ==> #[trigger] features@[index_spec(
                    cx,
                    0,
                )] == TileType::Bush,
            forall|cx: int|
                0 <= cx < NUM_TILES_X as int && !(26 <= cx <= 29) ==> #[trigger] features@[
                index_spec(cx, 19)] == TileType::Bush,
            forall|cy: int|
                0 <= cy < NUM_TILES_Y as int ==> #[trigger] features@[index_spec(0, cy)]
                    == TileType::Bush,
            forall|cy: int|
                0 <= cy < NUM_TILES_Y as int ==> #[trigger] features@[index_spec(31, cy)]
                    == TileType::Bush,
            forall|y2: int|
                5 <= y2 < NUM_TILES_Y as int ==> #[trigger] features@[y2 * (NUM_TILES_X as int)
                    + 27] == TileType::Empty,
        decreases NUM_TILES_X as int - 1 - x,
    {
        set_tile(&mut features, x, 5, TileType::Empty);
        x = x + 1;
    }

    // The exit to the cave.
    let mut y: i32 = 0;
    while y < 5
        invariant
            layer_wf(features@),
            no_refer(features@),
            features@.len() == NUM_TILES as int,
            0 <= y <= 5,
            forall|c: int|
                0 <= c < NUM_TILES as int ==> #[trigger] features@[c] == TileType::Bush
                    || features@[c] == TileType::Empty,
            forall|cx: int|
                0 <= cx < NUM_TILES_X as int && cx != 27 ==> #[trigger] features@[index_spec(
                    cx,
                    0,
                )] == TileType::Bush,
            forall|cx: int|
                0 <= cx < NUM_TILES_X as int && !(26 <= cx <= 29) ==> #[trigger] features@[
                index_spec(cx, 19)] == TileType::Bush,
            forall|cy: int|
                0 <= cy < NUM_TILES_Y as int ==> #[trigger] features@[index_spec(0, cy)]
                    == TileType::Bush,
            forall|cy: int|
                0 <= cy < NUM_TILES_Y as int ==> #[trigger] features@[index_spec(31, cy)]
                    == TileType::Bush,
            forall|y2: int|
                5 <= y2 < NUM_TILES_Y as int ==> #[trigger] features@[y2 * (NUM_TILES_X as int)
                    + 27] == TileType::Empty,
            forall|y2: int|
                0 <= y2 < y ==> #[trigger] features@[y2 * (NUM_TILES_X as int) + 27]
                    == TileType::Empty,
        decreases 5 - y,
    {
        set_tile(&mut features, 27, y, TileType::Empty);
        y = y + 1;
    }
    let exit_idx = crate::position::tile_index(27, 0);
    exits.push((exit_idx, 2));
    set_tile(&mut tiles, 27, 0, TileType::CaveFloor);

    // Reachability pruning: close off every open cell the channel's
    // bottom end cannot reach.
    let mut starts: Vec<usize> = Vec::new();
    starts.push(crate::position::tile_index(27, NUM_TILES_Y as i32 - 1));
    proof {
        assert(starts@ =~= seq![635usize]);
    }
    let ghost pre_tiles = tiles@;
    let ghost pre_features = features@;
    let ghost pre_open = open_map_spec(pre_tiles, pre_features);
    let ghost srcs = crate::cost_field::source_set(seq![635usize]);
    proof {
        // The cleared channel column is open all the way down, so both
        // entry cells survive the pruning flood.
        assert(channel_clear(pre_features, NUM_TILES_Y as int));
        assert(all_walkable(pre_tiles));
        assert forall|y2: int| 0 <= y2 < NUM_TILES_Y as int implies #[trigger] pre_open[y2 * (
        NUM_TILES_X as int) + 27] by {
            let c = y2 * (NUM_TILES_X as int) + 27;
            assert(pre_features[c] == TileType::Empty);
            assert(crate::tile_type::tile_walkable(pre_tiles[c]) && !(pre_tiles[c] is ReferTo));
            assert(cell_open(pre_tiles, pre_features, c));
        }
        assert(srcs.contains(635)) by {
            assert((seq![635usize])[0] as int == 635);
        }
        assert forall|cy: int| 0 <= cy < NUM_TILES_Y as int implies !(#[trigger] unflooded(
            pre_open,
            srcs,
            cy * (NUM_TILES_X as int) + 27,
        )) by {
            lemma_column_reachable(pre_open, srcs, cy);
            crate::cost_field::lemma_reachable_mono(
                pre_open,
                srcs,
                cy * (NUM_TILES_X as int) + 27,
                (NUM_TILES_Y as int - 1 - cy) as nat,
                crate::reachability::PRUNE_DEPTH as nat,
            );
        }
        assert(!unflooded(pre_open, srcs, 27));
        assert(!unflooded(pre_open, srcs, 635));
    }
    let cut = crate::reachability::unreachable(&tiles, &features, &starts);
    let mut k: usize = 0;
    while k < cut.len()
        invariant
            layer_wf(tiles@),
            layer_wf(features@),
            tiles@ == pre_tiles,
            features@.len() == NUM_TILES as int,
            k <= cut@.len(),
            forall|m: int| 0 <= m < cut@.len() ==> (#[trigger] cut@[m]) < NUM_TILES,
            forall|i: int|
                0 <= i < NUM_TILES as int ==> #[trigger] features@[i] == (if exists|m: int|
                    0 <= m < k as int && cut@[m] == i as usize {
                    TileType::Bush
                } else {
                    pre_features[i]
                }),
        decreases cut@.len() - k,
    {
        let idx = cut[k];
        set_cell(&mut features, idx, TileType::Bush);
        proof {
            assert forall|i: int| 0 <= i < NUM_TILES as int implies #[trigger] features@[i] == (if
                exists|m: int| 0 <= m < k as int + 1 && cut@[m] == i as usize {
                TileType::Bush
            } else {
                pre_features[i]
            }) by {
                if i == idx as int {
                    assert(cut@[k as int] == i as usize);
                }
            }
        }
        k = k + 1;
    }
    proof {
        // After the pass, the walkability of the grid is exactly the
        // pruned walkability of the grid before it.
        assert(no_refer(pre_features));
        assert forall|i: int| 0 <= i < NUM_TILES as int implies #[trigger] open_map_spec(
            tiles@,
            features@,
        )[i] == pruned_open(pre_open, srcs)[i] by {
            if unflooded(pre_open, srcs, i) {
                assert(cut@.contains(i as usize));
                let m = choose|m: int| 0 <= m < cut@.len() && cut@[m] == i as usize;
                assert(features@[i] == TileType::Bush);
            } else {
                if exists|m: int| 0 <= m < cut@.len() && cut@[m] == i as usize {
                    let m = choose|m: int| 0 <= m < cut@.len() && cut@[m] == i as usize;
                    assert(unflooded(pre_open, srcs, cut@[m] as int));
                    assert(false);
                }
                assert(features@[i] == pre_features[i]);
            }
        }
        assert(open_map_spec(tiles@, features@) =~= pruned_open(pre_open, srcs));
        lemma_prune_idempotent(pre_open, srcs);
        assert(pruned_open(pre_open, srcs)[27] && pruned_open(pre_open, srcs)[635]);
        assert(cell_open(tiles@, features@, 27) && cell_open(tiles@, features@, 635));
        assert forall|cy: int| 0 <= cy < NUM_TILES_Y as int implies open_map_spec(
            tiles@,
            features@,
        )[#[trigger] (cy * (NUM_TILES_X as int) + 27)] by {
            assert(pre_open[cy * (NUM_TILES_X as int) + 27]);
        }
        // The pruning writes only bushes, so the bush-or-empty shape
        // and the border rows and columns are untouched.
        assert forall|c: int| 0 <= c < NUM_TILES as int implies #[trigger] features@[c]
            == TileType::Bush || features@[c] == TileType::Empty by {
            assert(pre_features[c] == TileType::Bush || pre_features[c] == TileType::Empty);
        }
        assert forall|cx: int|
            0 <= cx < NUM_TILES_X as int && cx != 27 implies #[trigger] features@[index_spec(
            cx,
            0,
        )] == TileType::Bush by {
            assert(pre_features[index_spec(cx, 0)] == TileType::Bush);
        }
        assert forall|cx: int|
            0 <= cx < NUM_TILES_X as int && !(26 <= cx <= 29) implies #[trigger] features@[
        index_spec(cx, 19)] == TileType::Bush by {
            assert(pre_features[index_spec(cx, 19)] == TileType::Bush);
        }
        assert forall|cy: int|
            0 <= cy < NUM_TILES_Y as int implies #[trigger] features@[index_spec(0, cy)]
            == TileType::Bush by {
            assert(pre_features[index_spec(0, cy)] == TileType::Bush);
        }
        assert forall|cy: int|
            0 <= cy < NUM_TILES_Y as int implies #[trigger] features@[index_spec(31, cy)]
            == TileType::Bush by {
            assert(pre_features[index_spec(31, cy)] == TileType::Bush);
        }
    }
    let ghost pruned_tiles = tiles@;
    let ghost pruned_features = features@;

    // Scatter grain, webs and spiders over the remaining open spots.
    let mut open_spots: Vec<usize> = Vec::new();
    let mut i: usize = 0;
    while i < NUM_TILES
        invariant
            features@.len() == NUM_TILES as int,
            i <= NUM_TILES,
            open_spots@.len() <= i as int,
            forall|m: int| 0 <= m < open_spots@.len() ==> (#[trigger] open_spots@[m]) < i,
            forall|m1: int, m2: int|
                0 <= m1 < m2 < open_spots@.len() ==> open_spots@[m1] < open_spots@[m2],
            forall|m: int|
                0 <= m < open_spots@.len() ==> features@[(#[trigger] open_spots@[m]) as int]
                    == TileType::Empty,
        decreases NUM_TILES - i,
    {
        if features[i] == TileType::Empty {
            open_spots.push(i);
        }
        i = i + 1;
    }
    let ghost mut webs: Set<int> = Set::empty();
    let mut i: usize = 0;
    while i < 20
        invariant
            layer_wf(tiles@),
            layer_wf(features@),
            tiles@ == pruned_tiles,
            features@.len() == NUM_TILES as int,
            i <= 20,
            forall|m: int| 0 <= m < open_spots@.len() ==> (#[trigger] open_spots@[m]) < NUM_TILES,
            open_spots@.len() <= NUM_TILES as int,
            forall|m1: int, m2: int|
                0 <= m1 < m2 < open_spots@.len() ==> open_spots@[m1] < open_spots@[m2],
            forall|m: int|
                0 <= m < open_spots@.len() ==> features@[(#[trigger] open_spots@[m]) as int]
                    == TileType::Empty,
            open_map_spec(tiles@, features@) == open_map_spec(pruned_tiles, pruned_features),
            no_refer(features@),
            forall|cx: int|
                0 <= cx < NUM_TILES_X as int && cx != 27 ==> #[trigger] features@[index_spec(
                    cx,
                    0,
                )] == TileType::Bush,
            forall|cx: int|
                0 <= cx < NUM_TILES_X as int && !(26 <= cx <= 29) ==> #[trigger] features@[
                index_spec(cx, 19)] == TileType::Bush,
            forall|cy: int|
                0 <= cy < NUM_TILES_Y as int ==> #[trigger] features@[index_spec(0, cy)]
                    == TileType::Bush,
            forall|cy: int|
                0 <= cy < NUM_TILES_Y as int ==> #[trigger] features@[index_spec(31, cy)]
                    == TileType::Bush,
            i == 0 ==> forall|c: int|
                0 <= c < NUM_TILES as int ==> #[trigger] features@[c] != TileType::Grain,
            forall|c1: int, c2: int|
                0 <= c1 < NUM_TILES as int && 0 <= c2 < NUM_TILES as int && #[trigger] features@[c1]
                    == TileType::Grain && #[trigger] features@[c2] == TileType::Grain ==> c1 == c2,
            forall|k2: int| 0 <= k2 < spawns@.len() ==> (#[trigger] spawns@[k2]).0@ == "Spider"@,
            spawns@.len() <= (if i as int <= 11 {
                0int
            } else {
                i as int - 11
            }),
            webs.finite(),
            forall|c: int| #[trigger] webs.contains(c) ==> 0 <= c < NUM_TILES as int,
            forall|c: int|
                0 <= c < NUM_TILES as int ==> ((#[trigger] features@[c]) == TileType::Web
                    <==> webs.contains(c)),
            webs.len() <= (if i as int <= 1 {
                0int
            } else if i as int <= 11 {
                i as int - 1
            } else {
                10int
            }),
            forall|k2: int|
                0 <= k2 < spawns@.len() ==> in_bounds(
                    (#[trigger] spawns@[k2]).1 as int,
                    spawns@[k2].2 as int,
                ),
        decreases 20 - i,
    {
        if open_spots.len() == 0 {
            i = 20;
        } else {
            let ghost before = features@;
            let ghost olds = open_spots@;
            let spot_index = rng_range(rng, 0, open_spots.len() as i32) as usize;
            let spot = open_spots[spot_index];
            proof {
                assert(before[spot as int] == TileType::Empty);
            }
            if i == 0 {
                set_cell(&mut features, spot, TileType::Grain);
            } else if i <= 10 {
                set_cell(&mut features, spot, TileType::Web);
                proof {
                    vstd::set::axiom_set_insert_len(webs, spot as int);
                    webs = webs.insert(spot as int);
                }
            } else {
                spawns.push(
                    ("Spider".to_owned(), (spot % NUM_TILES_X) as i32, (spot / NUM_TILES_X) as i32),
                );
            }
            proof {
                assert forall|c: int| 0 <= c < NUM_TILES as int implies #[trigger] cell_open(
                    tiles@,
                    features@,
                    c,
                ) == cell_open(tiles@, before, c) by {
                    assert(!(features@[c] is ReferTo));
                    assert(!(before[c] is ReferTo));
                }
                assert(open_map_spec(tiles@, features@) =~= open_map_spec(tiles@, before));
            }
            open_spots.remove(spot_index);
            proof {
                assert forall|m: int| 0 <= m < open_spots@.len() implies #[trigger] open_spots@[m]
                    == (if m < spot_index as int {
                    olds[m]
                } else {
                    olds[m + 1]
                }) by {}
                assert forall|m: int| 0 <= m < open_spots@.len() implies features@[(
                #[trigger] open_spots@[m]) as int] == TileType::Empty by {
                    if m < spot_index as int {
                        assert(olds[m] < olds[spot_index as int]);
                    } else {
                        assert(olds[m + 1] > olds[spot_index as int]);
                    }
                }
            }
            i = i + 1;
        }
    }

    proof {
        assert(web_cells(features@) =~= webs);
        assert(web_cells(features@).finite() && web_cells(features@).len() <= 10);
        assert(open_map_spec(tiles@, features@)[27] == open_map_spec(
            pruned_tiles,
            pruned_features,
        )[27]);
        assert(cell_open(tiles@, features@, 27));
        assert(open_map_spec(tiles@, features@)[635] == open_map_spec(
            pruned_tiles,
            pruned_features,
        )[635]);
        assert(cell_open(tiles@, features@, 635));
        assert forall|i2: int|
            0 <= i2 < NUM_TILES as int && cell_open(tiles@, features@, i2) implies !unflooded(
            open_map_spec(tiles@, features@),
            srcs,
            i2,
        ) by {
            assert(open_map_spec(tiles@, features@) == pruned_open(pre_open, srcs));
            assert(pruned_open(pre_open, srcs)[i2]);
            assert(!unflooded(pre_open, srcs, i2));
        }
    }

    MapTransfer {
        tiles,
        features,
        name: "Into the Woods".to_owned(),
        player_start,
        exits,
        spawns,
    }
}

} // verus!
