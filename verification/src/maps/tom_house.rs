//! Farmer Tom's house: a cobbled yard with a hay cart, a barn, a rocky
//! outcropping, randomized bush boundaries, a road south back to the
//! coup, and a pathway north toward the woods.

use vstd::prelude::*;

use bracket_random::prelude::RandomNumberGenerator;

use crate::grid::cell_open;
use crate::grid::layer_wf;
use crate::maps::{
    fill_layer, has_spawn, in_rect, set_cell, set_tile, spawn_big_feature,
    spawn_wolves_near_corner, transfer_wf, MapToBuild, MapTransfer,
};
use crate::position::{in_bounds, index_spec, NUM_TILES, NUM_TILES_X, NUM_TILES_Y};
use crate::rng::rng_range;
use crate::tile_type::TileType;

verus! {

/// No cell of the layer is an indirection cell.
spec fn no_refer(layer: Seq<TileType>) -> bool {
    forall|i: int| 0 <= i < layer.len() ==> !((#[trigger] layer[i]) is ReferTo)
}

/// The cell holds the given multi-cell object, anchored at `base`:
/// the anchor carries the object's type, every other covered cell an
/// indirection back to it.
pub open spec fn footprint_cell(features: Seq<TileType>, i: int, base: int, t: TileType) -> bool {
    features[i] == (if i == base {
        t
    } else {
        TileType::ReferTo(base as usize)
    })
}

/// The cobbled yard's tile at `(cx, cy)`: edge and corner pieces
/// around a plain cobble interior.
pub open spec fn cobble_tile(cx: int, cy: int) -> TileType {
    if cx == 13 && cy == 6 {
        TileType::CobbleTL
    } else if cx == 24 && cy == 6 {
        TileType::CobbleTR
    } else if cx == 13 && cy == 14 {
        TileType::CobbleBL
    } else if cx == 24 && cy == 14 {
        TileType::CobbleBR
    } else if cy == 6 {
        TileType::CobbleT
    } else if cy == 14 {
        TileType::CobbleB
    } else if cx == 13 {
        TileType::CobbleL
    } else if cx == 24 {
        TileType::CobbleR
    } else {
        TileType::Cobble
    }
}

/// The cobbled yard before its four corner pieces are set.
spec fn cobble_laid(cx: int, cy: int) -> TileType {
    if cy == 6 {
        TileType::CobbleT
    } else if cy == 14 {
        TileType::CobbleB
    } else if cx == 13 {
        TileType::CobbleL
    } else if cx == 24 {
        TileType::CobbleR
    } else {
        TileType::Cobble
    }
}

/// Builds the farm-house map. Entering from the first cave places the
/// player beside the cave mouth at `(28, 3)`; from anywhere else, at
/// the road mouth `(17, 19)`; a fresh game starts at the centre. The
/// three road cells on the bottom edge exit to the coup, the four
/// pathway cells on the top edge exit to the forest, and the yard's
/// fixed furniture — hay cart, barn, rocky outcropping, anvil, grain,
/// cobbles, road and bush border — is pinned exactly.
#[verifier::rlimit(100)]
pub fn build_toms_house(rng: &mut RandomNumberGenerator, from: Option<MapToBuild>) -> (r:
    MapTransfer)
    ensures
        transfer_wf(&r),
        r.name@ == "Farmer Tom's House"@,
        from == Some(MapToBuild::Cave1) ==> r.player_start == (28i32, 3i32),
        (from matches Some(m) && m != MapToBuild::Cave1) ==> r.player_start == (17i32, 19i32),
        from is None ==> r.player_start == (16i32, 10i32),
        r.exits@ == seq![
            (623usize, 0usize),
            (624usize, 0usize),
            (625usize, 0usize),
            (26usize, 4usize),
            (27usize, 4usize),
            (28usize, 4usize),
            (29usize, 4usize),
        ],
        cell_open(r.tiles@, r.features@, index_spec(r.player_start.0 as int, r.player_start.1 as int)),
        forall|i: int|
            #[trigger] in_rect(i, 10, 5, 3, 2) ==> footprint_cell(
                r.features@,
                i,
                170,
                TileType::HayCart,
            ),
        forall|i: int|
            #[trigger] in_rect(i, 14, 5, 2, 3) ==> footprint_cell(
                r.features@,
                i,
                174,
                TileType::Barn,
            ),
        forall|i: int|
            #[trigger] in_rect(i, 0, 11, 2, 7) ==> footprint_cell(
                r.features@,
                i,
                352,
                TileType::LeftButte,
            ),
        r.features@[index_spec(23, 13)] == TileType::Anvil,
        r.features@[index_spec(17, 7)] == TileType::Grain,
        has_spawn(r.spawns@, "Farmer"@, 18, 7),
        forall|cx: int, cy: int|
            13 <= cx <= 24 && 6 <= cy <= 14 ==> #[trigger] r.tiles@[index_spec(cx, cy)]
                == cobble_tile(cx, cy),
        forall|cx: int, cy: int|
            15 <= cx <= 17 && 15 <= cy <= 19 ==> #[trigger] r.tiles@[index_spec(cx, cy)]
                == TileType::Road && r.features@[index_spec(cx, cy)] == TileType::Empty,
        forall|cx: int|
            0 <= cx < NUM_TILES_X as int && !(26 <= cx <= 29) ==> #[trigger] r.features@[index_spec(
                cx,
                0,
            )] == TileType::Bush,
        forall|cx: int|
            0 <= cx < NUM_TILES_X as int && !(15 <= cx <= 17) ==> #[trigger] r.features@[index_spec(
                cx,
                19,
            )] == TileType::Bush,
        forall|cy: int|
            0 <= cy < NUM_TILES_Y as int ==> #[trigger] r.features@[index_spec(31, cy)]
                == TileType::Bush,
        forall|cy: int|
            0 <= cy < NUM_TILES_Y as int && !(11 <= cy <= 17) ==> #[trigger] r.features@[index_spec(
                0,
                cy,
            )] == TileType::Bush,
{
    let mut tiles = fill_layer(TileType::Grass);
    let mut features = fill_layer(TileType::Empty);
    let mut exits: Vec<(usize, usize)> = Vec::new();
    let mut spawns: Vec<(String, i32, i32)> = Vec::new();

    let player_start: (i32, i32) = match from {
        Some(MapToBuild::Cave1) => (28, 3),
        Some(_) => (17, NUM_TILES_Y as i32 - 1),
        None => (NUM_TILES_X as i32 / 2, NUM_TILES_Y as i32 / 2),
    };

    // Bush boundaries of randomized thickness. The fixed top and
    // bottom rows are laid down deterministically.
    let mut x: i32 = 0;
    while x < NUM_TILES_X as i32
        invariant
            layer_wf(features@),
            no_refer(features@),
            features@.len() == NUM_TILES as int,
            0 <= x <= NUM_TILES_X as int,
            forall|cx: int|
                0 <= cx < x ==> #[trigger] features@[index_spec(cx, 0)] == TileType::Bush,
            forall|cx: int|
                0 <= cx < x ==> #[trigger] features@[index_spec(cx, 19)] == TileType::Bush,
            features@[index_spec(16, 10)] == TileType::Empty,
            features@[index_spec(28, 3)] == TileType::Empty,
        decreases NUM_TILES_X as int - x,
    {
        set_tile(&mut features, x, 0, TileType::Bush);
        set_tile(&mut features, x, NUM_TILES_Y as i32 - 1, TileType::Bush);
        let b = rng_range(rng, 1, 3);
        let mut y: i32 = 0;
        while y < b
            invariant
                layer_wf(features@),
                no_refer(features@),
                features@.len() == NUM_TILES as int,
                0 <= x < NUM_TILES_X as int,
                0 <= y <= b,
                b < 3,
                forall|cx: int|
                    0 <= cx <= x ==> #[trigger] features@[index_spec(cx, 0)] == TileType::Bush,
                forall|cx: int|
                    0 <= cx <= x ==> #[trigger] features@[index_spec(cx, 19)] == TileType::Bush,
                features@[index_spec(16, 10)] == TileType::Empty,
                features@[index_spec(28, 3)] == TileType::Empty,
        decreases b - y,
        {
            set_tile(&mut features, x, NUM_TILES_Y as i32 - 1 - y, TileType::Bush);
            y = y + 1;
        }
        x = x + 1;
    }
    let mut y: i32 = 0;
    while y < NUM_TILES_Y as i32
        invariant
            layer_wf(features@),
            no_refer(features@),
            features@.len() == NUM_TILES as int,
            0 <= y <= NUM_TILES_Y as int,
            forall|cx: int|
                0 <= cx < NUM_TILES_X as int ==> #[trigger] features@[index_spec(cx, 0)]
                    == TileType::Bush,
            forall|cx: int|
                0 <= cx < NUM_TILES_X as int ==> #[trigger] features@[index_spec(cx, 19)]
                    == TileType::Bush,
            forall|cy: int| 0 <= cy < y ==> #[trigger] features@[index_spec(0, cy)]
                == TileType::Bush,
            forall|cy: int| 0 <= cy < y ==> #[trigger] features@[index_spec(31, cy)]
                == TileType::Bush,
            features@[index_spec(16, 10)] == TileType::Empty,
            features@[index_spec(28, 3)] == TileType::Empty,
        decreases NUM_TILES_Y as int - y,
    {
        set_tile(&mut features, 0, y, TileType::Bush);
        set_tile(&mut features, NUM_TILES_X as i32 - 1, y, TileType::Bush);
        let b = rng_range(rng, 1, 3);
        let mut x: i32 = 0;
        while x < b
            invariant
                layer_wf(features@),
                no_refer(features@),
                features@.len() == NUM_TILES as int,
                0 <= y < NUM_TILES_Y as int,
                0 <= x <= b,
                b < 3,
                forall|cx: int|
                    0 <= cx < NUM_TILES_X as int ==> #[trigger] features@[index_spec(cx, 0)]
                        == TileType::Bush,
                forall|cx: int|
                    0 <= cx < NUM_TILES_X as int ==> #[trigger] features@[index_spec(cx, 19)]
                        == TileType::Bush,
                forall|cy: int|
                    0 <= cy <= y ==> #[trigger] features@[index_spec(0, cy)] == TileType::Bush,
                forall|cy: int|
                    0 <= cy <= y ==> #[trigger] features@[index_spec(31, cy)] == TileType::Bush,
                features@[index_spec(16, 10)] == TileType::Empty,
                features@[index_spec(28, 3)] == TileType::Empty,
            decreases b - x,
        {
            set_tile(&mut features, NUM_TILES_X as i32 - 1 - x, y, TileType::Bush);
            x = x + 1;
        }
        y = y + 1;
    }

    // The road south, whose bottom cells lead back to the coup.
    let half_width = NUM_TILES_X as i32 / 2;
    let mut y: i32 = NUM_TILES_Y as i32 - 5;
    while y < NUM_TILES_Y as i32
        invariant
            layer_wf(tiles@),
            layer_wf(features@),
            no_refer(features@),
            tiles@.len() == NUM_TILES as int,
            features@.len() == NUM_TILES as int,
            15 <= y <= NUM_TILES_Y as int,
            half_width == 16,
            forall|cx: int|
                0 <= cx < NUM_TILES_X as int ==> #[trigger] features@[index_spec(cx, 0)]
                    == TileType::Bush,
            forall|cx: int|
                0 <= cx < NUM_TILES_X as int && !(15 <= cx <= 17) ==> #[trigger] features@[
                index_spec(cx, 19)] == TileType::Bush,
            forall|cy: int|
                0 <= cy < NUM_TILES_Y as int ==> #[trigger] features@[index_spec(0, cy)]
                    == TileType::Bush,
            forall|cy: int|
                0 <= cy < NUM_TILES_Y as int ==> #[trigger] features@[index_spec(31, cy)]
                    == TileType::Bush,
            forall|cx: int, cy: int|
                15 <= cx <= 17 && 15 <= cy < y ==> #[trigger] tiles@[index_spec(cx, cy)]
                    == TileType::Road,
            forall|cx: int, cy: int|
                15 <= cx <= 17 && 15 <= cy < y ==> #[trigger] features@[index_spec(cx, cy)]
                    == TileType::Empty,
            features@[index_spec(16, 10)] == TileType::Empty,
            features@[index_spec(28, 3)] == TileType::Empty,
            tiles@[index_spec(28, 3)] == TileType::Grass,
            y <= NUM_TILES_Y as int - 1 ==> exits@.len() == 0,
            y == NUM_TILES_Y as int ==> exits@ == seq![
                (623usize, 0usize),
                (624usize, 0usize),
                (625usize, 0usize),
            ],
        decreases NUM_TILES_Y as int - y,
    {
        let mut x: i32 = half_width - 1;
        while x < half_width + 2
            invariant
                layer_wf(tiles@),
                layer_wf(features@),
                no_refer(features@),
                tiles@.len() == NUM_TILES as int,
                features@.len() == NUM_TILES as int,
                15 <= y < NUM_TILES_Y as int,
                half_width == 16,
                15 <= x <= half_width + 2,
                forall|cx: int|
                    0 <= cx < NUM_TILES_X as int ==> #[trigger] features@[index_spec(cx, 0)]
                        == TileType::Bush,
                forall|cx: int|
                    0 <= cx < NUM_TILES_X as int && !(15 <= cx <= 17) ==> #[trigger] features@[
                    index_spec(cx, 19)] == TileType::Bush,
                forall|cy: int|
                    0 <= cy < NUM_TILES_Y as int ==> #[trigger] features@[index_spec(0, cy)]
                        == TileType::Bush,
                forall|cy: int|
                    0 <= cy < NUM_TILES_Y as int ==> #[trigger] features@[index_spec(31, cy)]
                        == TileType::Bush,
                forall|cx: int, cy: int|
                    15 <= cx <= 17 && 15 <= cy <= 19 && (cy < y || (cy == y && cx < x))
                        ==> #[trigger] tiles@[index_spec(cx, cy)] == TileType::Road,
                forall|cx: int, cy: int|
                    15 <= cx <= 17 && 15 <= cy <= 19 && (cy < y || (cy == y && cx < x))
                        ==> #[trigger] features@[index_spec(cx, cy)] == TileType::Empty,
                features@[index_spec(16, 10)] == TileType::Empty,
                features@[index_spec(28, 3)] == TileType::Empty,
                tiles@[index_spec(28, 3)] == TileType::Grass,
                y < NUM_TILES_Y as int - 1 ==> exits@.len() == 0,
                y == NUM_TILES_Y as int - 1 && x == 15 ==> exits@.len() == 0,
                y == NUM_TILES_Y as int - 1 ==> exits@.len() == x - 15 && forall|k: int|
                    0 <= k < exits@.len() ==> #[trigger] exits@[k] == ((623 + k) as usize, 0usize),
            decreases half_width + 2 - x,
        {
            set_tile(&mut tiles, x, y, TileType::Road);
            set_tile(&mut features, x, y, TileType::Empty);
            if y == NUM_TILES_Y as i32 - 1 {
                let idx = crate::position::tile_index(x, y);
                exits.push((idx, 0));
            }
            x = x + 1;
        }
        proof {
            if y == NUM_TILES_Y as int - 1 {
                assert(exits@ =~= seq![(623usize, 0usize), (624usize, 0usize), (625usize, 0usize)]);
            }
        }
        y = y + 1;
    }

    // The cobbled yard, edges first, then the corner pieces.
    let mut x: i32 = 13;
    while x < 25
        invariant
            layer_wf(tiles@),
            tiles@.len() == NUM_TILES as int,
            13 <= x <= 25,
            forall|cx: int, cy: int|
                13 <= cx <= 24 && 6 <= cy <= 14 && cx < x ==> #[trigger] tiles@[index_spec(cx, cy)]
                    == cobble_laid(cx, cy),
            forall|cx: int, cy: int|
                15 <= cx <= 17 && 15 <= cy <= 19 ==> #[trigger] tiles@[index_spec(cx, cy)]
                    == TileType::Road,
            tiles@[index_spec(28, 3)] == TileType::Grass,
        decreases 25 - x,
    {
        let mut y: i32 = 6;
        while y < 15
            invariant
                layer_wf(tiles@),
                tiles@.len() == NUM_TILES as int,
                13 <= x < 25,
                6 <= y <= 15,
                forall|cx: int, cy: int|
                    13 <= cx <= 24 && 6 <= cy <= 14 && (cx < x || (cx == x && cy < y))
                        ==> #[trigger] tiles@[index_spec(cx, cy)] == cobble_laid(cx, cy),
                forall|cx: int, cy: int|
                    15 <= cx <= 17 && 15 <= cy <= 19 ==> #[trigger] tiles@[index_spec(cx, cy)]
                        == TileType::Road,
                tiles@[index_spec(28, 3)] == TileType::Grass,
            decreases 15 - y,
        {
            if y == 6 {
                set_tile(&mut tiles, x, y, TileType::CobbleT);
            } else if y == 14 {
                set_tile(&mut tiles, x, y, TileType::CobbleB);
            } else if x == 13 {
                set_tile(&mut tiles, x, y, TileType::CobbleL);
            } else if x == 24 {
                set_tile(&mut tiles, x, y, TileType::CobbleR);
            } else {
                set_tile(&mut tiles, x, y, TileType::Cobble);
            }
            y = y + 1;
        }
        x = x + 1;
    }
    set_tile(&mut tiles, 13, 6, TileType::CobbleTL);
    set_tile(&mut tiles, 24, 6, TileType::CobbleTR);
    set_tile(&mut tiles, 13, 14, TileType::CobbleBL);
    set_tile(&mut tiles, 24, 14, TileType::CobbleBR);
    proof {
        assert forall|cx: int, cy: int| 13 <= cx <= 24 && 6 <= cy <= 14 implies #[trigger] tiles@[
        index_spec(cx, cy)] == cobble_tile(cx, cy) by {}
        assert forall|cx: int, cy: int|
            15 <= cx <= 17 && 15 <= cy <= 19 implies #[trigger] tiles@[index_spec(cx, cy)]
            == TileType::Road by {}
        assert(tiles@[index_spec(16, 10)] == TileType::Cobble);
        assert(tiles@[index_spec(28, 3)] == TileType::Grass);
    }

    // The anvil.
    set_tile(&mut features, 23, 13, TileType::Anvil);
    proof {
        assert forall|cx: int, cy: int|
            15 <= cx <= 17 && 15 <= cy <= 19 implies #[trigger] features@[index_spec(cx, cy)]
            == TileType::Empty by {}
        assert forall|cx: int|
            0 <= cx < NUM_TILES_X as int implies #[trigger] features@[index_spec(cx, 0)]
            == TileType::Bush by {}
        assert forall|cx: int|
            0 <= cx < NUM_TILES_X as int && !(15 <= cx <= 17) implies #[trigger] features@[
        index_spec(cx, 19)] == TileType::Bush by {}
        assert forall|cy: int|
            0 <= cy < NUM_TILES_Y as int implies #[trigger] features@[index_spec(31, cy)]
            == TileType::Bush by {}
        assert forall|cy: int|
            0 <= cy < NUM_TILES_Y as int implies #[trigger] features@[index_spec(0, cy)]
            == TileType::Bush by {}
        assert(features@[index_spec(16, 10)] == TileType::Empty);
        assert(features@[index_spec(28, 3)] == TileType::Empty);
    }

    // The hay cart, the barn, and the rocky outcropping, each a
    // multi-cell feature anchored at its top-left corner.
    spawn_big_feature(10, 5, TileType::HayCart, &mut features);
    proof {
        assert forall|i: int| 0 <= i < NUM_TILES as int implies (
        #[trigger] features@[i] matches TileType::ReferTo(r) ==> r == 170) by {}
        assert forall|i: int| #[trigger] in_rect(i, 10, 5, 3, 2) implies footprint_cell(
            features@,
            i,
            170,
            TileType::HayCart,
        ) by {}
        assert forall|cx: int, cy: int|
            15 <= cx <= 17 && 15 <= cy <= 19 implies #[trigger] features@[index_spec(cx, cy)]
            == TileType::Empty by {}
        assert forall|cx: int|
            0 <= cx < NUM_TILES_X as int implies #[trigger] features@[index_spec(cx, 0)]
            == TileType::Bush by {}
        assert forall|cx: int|
            0 <= cx < NUM_TILES_X as int && !(15 <= cx <= 17) implies #[trigger] features@[
        index_spec(cx, 19)] == TileType::Bush by {}
        assert forall|cy: int|
            0 <= cy < NUM_TILES_Y as int implies #[trigger] features@[index_spec(31, cy)]
            == TileType::Bush by {}
        assert forall|cy: int|
            0 <= cy < NUM_TILES_Y as int implies #[trigger] features@[index_spec(0, cy)]
            == TileType::Bush by {}
        assert(features@[index_spec(23, 13)] == TileType::Anvil);
        assert(features@[index_spec(16, 10)] == TileType::Empty);
        assert(features@[index_spec(28, 3)] == TileType::Empty);
    }
    spawn_big_feature(14, 5, TileType::Barn, &mut features);
    proof {
        assert forall|i: int| 0 <= i < NUM_TILES as int implies (
        #[trigger] features@[i] matches TileType::ReferTo(r) ==> r == 170 || r == 174) by {}
        assert forall|i: int| #[trigger] in_rect(i, 14, 5, 2, 3) implies footprint_cell(
            features@,
            i,
            174,
            TileType::Barn,
        ) by {}
        assert forall|i: int| #[trigger] in_rect(i, 10, 5, 3, 2) implies footprint_cell(
            features@,
            i,
            170,
            TileType::HayCart,
        ) by {}
        assert forall|cx: int, cy: int|
            15 <= cx <= 17 && 15 <= cy <= 19 implies #[trigger] features@[index_spec(cx, cy)]
            == TileType::Empty by {}
        assert forall|cx: int|
            0 <= cx < NUM_TILES_X as int implies #[trigger] features@[index_spec(cx, 0)]
            == TileType::Bush by {}
        assert forall|cx: int|
            0 <= cx < NUM_TILES_X as int && !(15 <= cx <= 17) implies #[trigger] features@[
        index_spec(cx, 19)] == TileType::Bush by {}
        assert forall|cy: int|
            0 <= cy < NUM_TILES_Y as int implies #[trigger] features@[index_spec(31, cy)]
            == TileType::Bush by {}
        assert forall|cy: int|
            0 <= cy < NUM_TILES_Y as int implies #[trigger] features@[index_spec(0, cy)]
            == TileType::Bush by {}
        assert(features@[index_spec(23, 13)] == TileType::Anvil);
        assert(features@[index_spec(16, 10)] == TileType::Empty);
        assert(features@[index_spec(28, 3)] == TileType::Empty);
    }
    spawn_big_feature(0, 11, TileType::LeftButte, &mut features);
    proof {
        assert forall|i: int| #[trigger] in_rect(i, 0, 11, 2, 7) implies footprint_cell(
            features@,
            i,
            352,
            TileType::LeftButte,
        ) by {}
        assert forall|i: int| #[trigger] in_rect(i, 14, 5, 2, 3) implies footprint_cell(
            features@,
            i,
            174,
            TileType::Barn,
        ) by {}
        assert forall|i: int| #[trigger] in_rect(i, 10, 5, 3, 2) implies footprint_cell(
            features@,
            i,
            170,
            TileType::HayCart,
        ) by {}
        assert forall|cy: int|
            0 <= cy < NUM_TILES_Y as int && !(11 <= cy <= 17) implies #[trigger] features@[
        index_spec(0, cy)] == TileType::Bush by {}
        assert forall|cx: int, cy: int|
            15 <= cx <= 17 && 15 <= cy <= 19 implies #[trigger] features@[index_spec(cx, cy)]
            == TileType::Empty by {}
        assert forall|cx: int|
            0 <= cx < NUM_TILES_X as int implies #[trigger] features@[index_spec(cx, 0)]
            == TileType::Bush by {}
        assert forall|cx: int|
            0 <= cx < NUM_TILES_X as int && !(15 <= cx <= 17) implies #[trigger] features@[
        index_spec(cx, 19)] == TileType::Bush by {}
        assert forall|cy: int|
            0 <= cy < NUM_TILES_Y as int implies #[trigger] features@[index_spec(31, cy)]
            == TileType::Bush by {}
        assert(features@[index_spec(23, 13)] == TileType::Anvil);
        assert(features@[index_spec(16, 10)] == TileType::Empty);
        assert(features@[index_spec(28, 3)] == TileType::Empty);
    }

    // The pathway north, to the woods.
    let mut x: i32 = 26;
    while x <= 29
        invariant
            layer_wf(features@),
            features@.len() == NUM_TILES as int,
            26 <= x <= 30,
            forall|i: int|
                #[trigger] in_rect(i, 10, 5, 3, 2) ==> footprint_cell(
                    features@,
                    i,
                    170,
                    TileType::HayCart,
                ),
            forall|i: int|
                #[trigger] in_rect(i, 14, 5, 2, 3) ==> footprint_cell(
                    features@,
                    i,
                    174,
                    TileType::Barn,
                ),
            forall|i: int|
                #[trigger] in_rect(i, 0, 11, 2, 7) ==> footprint_cell(
                    features@,
                    i,
                    352,
                    TileType::LeftButte,
                ),
            features@[index_spec(23, 13)] == TileType::Anvil,
            forall|cx: int|
                0 <= cx < NUM_TILES_X as int && !(26 <= cx < x) ==> #[trigger] features@[index_spec(
                    cx,
                    0,
                )] == TileType::Bush,
            forall|cx: int|
                26 <= cx < x ==> #[trigger] features@[index_spec(cx, 0)] == TileType::Empty,
            forall|cx: int|
                0 <= cx < NUM_TILES_X as int && !(15 <= cx <= 17) ==> #[trigger] features@[
                index_spec(cx, 19)] == TileType::Bush,
            forall|cy: int|
                0 <= cy < NUM_TILES_Y as int ==> #[trigger] features@[index_spec(31, cy)]
                    == TileType::Bush,
            forall|cy: int|
                0 <= cy < NUM_TILES_Y as int && !(11 <= cy <= 17) ==> #[trigger] features@[
                index_spec(0, cy)] == TileType::Bush,
            forall|cx: int, cy: int|
                15 <= cx <= 17 && 15 <= cy <= 19 ==> #[trigger] features@[index_spec(cx, cy)]
                    == TileType::Empty,
            features@[index_spec(16, 10)] == TileType::Empty,
            features@[index_spec(28, 3)] == TileType::Empty,
            exits@.len() == 3 + (x - 26) && forall|k: int|
                0 <= k < 3 ==> #[trigger] exits@[k] == ((623 + k) as usize, 0usize),
            forall|k: int|
                3 <= k < exits@.len() ==> #[trigger] exits@[k] == ((26 + k - 3) as usize, 4usize),
        decreases 30 - x,
    {
        set_tile(&mut features, x, 0, TileType::Empty);
        let idx = crate::position::tile_index(x, 0);
        exits.push((idx, 4));
        x = x + 1;
    }
    proof {
        assert(exits@ =~= seq![
            (623usize, 0usize),
            (624usize, 0usize),
            (625usize, 0usize),
            (26usize, 4usize),
            (27usize, 4usize),
            (28usize, 4usize),
            (29usize, 4usize),
        ]);
    }

    // Pretty flowers, and free-range chickens. Flowers only land on
    // bare grass, so the yard's furniture and borders are untouched.
    let mut i: usize = 0;
    while i < NUM_TILES
        invariant
            layer_wf(tiles@),
            layer_wf(features@),
            tiles@.len() == NUM_TILES as int,
            features@.len() == NUM_TILES as int,
            i <= NUM_TILES,
            forall|i2: int|
                #[trigger] in_rect(i2, 10, 5, 3, 2) ==> footprint_cell(
                    features@,
                    i2,
                    170,
                    TileType::HayCart,
                ),
            forall|i2: int|
                #[trigger] in_rect(i2, 14, 5, 2, 3) ==> footprint_cell(
                    features@,
                    i2,
                    174,
                    TileType::Barn,
                ),
            forall|i2: int|
                #[trigger] in_rect(i2, 0, 11, 2, 7) ==> footprint_cell(
                    features@,
                    i2,
                    352,
                    TileType::LeftButte,
                ),
            features@[index_spec(23, 13)] == TileType::Anvil,
            forall|cx: int|
                0 <= cx < NUM_TILES_X as int && !(26 <= cx <= 29) ==> #[trigger] features@[
                index_spec(cx, 0)] == TileType::Bush,
            forall|cx: int|
                26 <= cx <= 29 ==> #[trigger] features@[index_spec(cx, 0)] == TileType::Empty
                    || features@[index_spec(cx, 0)] == TileType::Flower,
            forall|cx: int|
                0 <= cx < NUM_TILES_X as int && !(15 <= cx <= 17) ==> #[trigger] features@[
                index_spec(cx, 19)] == TileType::Bush,
            forall|cy: int|
                0 <= cy < NUM_TILES_Y as int ==> #[trigger] features@[index_spec(31, cy)]
                    == TileType::Bush,
            forall|cy: int|
                0 <= cy < NUM_TILES_Y as int && !(11 <= cy <= 17) ==> #[trigger] features@[
                index_spec(0, cy)] == TileType::Bush,
            forall|cx: int, cy: int|
                15 <= cx <= 17 && 15 <= cy <= 19 ==> #[trigger] features@[index_spec(cx, cy)]
                    == TileType::Empty,
            features@[index_spec(16, 10)] == TileType::Empty,
            features@[index_spec(28, 3)] == TileType::Empty || features@[index_spec(28, 3)]
                == TileType::Flower,
            forall|cx: int, cy: int|
                15 <= cx <= 17 && 15 <= cy <= 19 ==> #[trigger] tiles@[index_spec(cx, cy)]
                    == TileType::Road,
            tiles@[index_spec(16, 10)] == TileType::Cobble,
            tiles@[index_spec(28, 3)] == TileType::Grass,
            forall|k: int|
                0 <= k < spawns@.len() ==> in_bounds(
                    (#[trigger] spawns@[k]).1 as int,
                    spawns@[k].2 as int,
                ),
        decreases NUM_TILES - i,
    {
        if features[i] == TileType::Empty && tiles[i] == TileType::Grass {
            if rng_range(rng, 1, 10) < 2 {
                set_cell(&mut features, i, TileType::Flower);
                proof {
                    // Flowers never land on the road: its tiles are not
                    // grass.
                    assert forall|cx: int, cy: int|
                        15 <= cx <= 17 && 15 <= cy <= 19 implies #[trigger] features@[index_spec(
                        cx,
                        cy,
                    )] == TileType::Empty by {
                        assert(tiles@[index_spec(cx, cy)] == TileType::Road);
                    }
                    assert(features@[index_spec(16, 10)] == TileType::Empty) by {
                        assert(tiles@[index_spec(16, 10)] == TileType::Cobble);
                    }
                }
            }
            if rng_range(rng, 1, 20) < 2 {
                spawns.push(("Chicken".to_owned(), (i % NUM_TILES_X) as i32, (i / NUM_TILES_X) as i32));
            }
        }
        i = i + 1;
    }

    // The farmer, and the grain he guards.
    spawns.push(("Farmer".to_owned(), 18, 7));
    set_tile(&mut features, 17, 7, TileType::Grain);
    let ghost with_farmer = spawns@;
    proof {
        assert(with_farmer.last().0@ == "Farmer"@ && with_farmer.last().1 == 18
            && with_farmer.last().2 == 7);
        assert(has_spawn(with_farmer, "Farmer"@, 18, 7));
    }

    // Wolves, far from the yard.
    spawn_wolves_near_corner(&tiles, &features, &mut spawns);
    proof {
        let k = choose|k: int|
            0 <= k < with_farmer.len() && (#[trigger] with_farmer[k]).0@ == "Farmer"@
                && with_farmer[k].1 == 18 && with_farmer[k].2 == 7;
        assert(spawns@[k] == with_farmer[k]);
        assert(has_spawn(spawns@, "Farmer"@, 18, 7));
    }

    proof {
        assert(cell_open(tiles@, features@, index_spec(28, 3)));
        assert(cell_open(tiles@, features@, index_spec(16, 10)));
        assert(cell_open(tiles@, features@, index_spec(17, 19)));
    }

    MapTransfer {
        tiles,
        features,
        name: "Farmer Tom's House".to_owned(),
        player_start,
        exits,
        spawns,
    }
}

} // verus!
