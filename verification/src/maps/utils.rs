//! Decoration passes shared by the cave builders: random water
//! variants, and beach edges where cave floor meets water.

use vstd::prelude::*;

use bracket_random::prelude::RandomNumberGenerator;

use crate::grid::layer_wf;
use crate::position::{index_spec, NUM_TILES, NUM_TILES_X, NUM_TILES_Y};
use crate::rng::rng_range;
use crate::tile_type::TileType;

verus! {

/// A plain or variant water tile.
pub open spec fn is_water_tile(t: TileType) -> bool {
    ||| t == TileType::Water
    ||| t == TileType::WaterV2
    ||| t == TileType::WaterV3
    ||| t == TileType::WaterV4
    ||| t == TileType::WaterV5
    ||| t == TileType::WaterV6
}

/// What a plain water tile becomes for each possible roll: the first
/// five rolls each pick one sprite variant, every other roll leaves
/// the tile plain.
pub open spec fn water_variant_spec(roll: int) -> TileType {
    if roll == 0 {
        TileType::WaterV2
    } else if roll == 1 {
        TileType::WaterV3
    } else if roll == 2 {
        TileType::WaterV4
    } else if roll == 3 {
        TileType::WaterV5
    } else if roll == 4 {
        TileType::WaterV6
    } else {
        TileType::Water
    }
}

/// Replaces some plain water tiles with sprite variants: every other
/// cell is untouched, and each water cell ends as the pinned variant
/// of some roll under twenty.
pub fn decorate_water(tiles: &mut Vec<TileType>, rng: &mut RandomNumberGenerator)
    requires
        layer_wf(old(tiles)@),
    ensures
        layer_wf(final(tiles)@),
        final(tiles)@.len() == old(tiles)@.len(),
        forall|i: int|
            0 <= i < old(tiles)@.len() && old(tiles)@[i] != TileType::Water
                ==> #[trigger] final(tiles)@[i] == old(tiles)@[i],
        forall|i: int|
            0 <= i < old(tiles)@.len() && old(tiles)@[i] == TileType::Water ==> exists|roll: int|
                0 <= roll < 20 && #[trigger] final(tiles)@[i] == water_variant_spec(roll),
        forall|i: int|
            0 <= i < old(tiles)@.len() ==> #[trigger] final(tiles)@[i] == old(tiles)@[i] || (old(
                tiles)@[i] == TileType::Water && is_water_tile(final(tiles)@[i])),
{
    let ghost orig = tiles@;
    let mut i: usize = 0;
    while i < tiles.len()
        invariant
            layer_wf(orig),
            tiles@.len() == orig.len(),
            i <= tiles@.len(),
            forall|k: int|
                0 <= k < orig.len() && orig[k] != TileType::Water ==> #[trigger] tiles@[k]
                    == orig[k],
            forall|k: int|
                0 <= k < i as int && k < orig.len() && orig[k] == TileType::Water ==> exists|
                    roll: int,
                |
                    0 <= roll < 20 && #[trigger] tiles@[k] == water_variant_spec(roll),
            forall|k: int|
                i as int <= k < orig.len() ==> #[trigger] tiles@[k] == orig[k],
            forall|k: int|
                0 <= k < orig.len() ==> #[trigger] tiles@[k] == orig[k] || (orig[k]
                    == TileType::Water && is_water_tile(tiles@[k])),
        decreases tiles@.len() - i,
    {
        if tiles[i] == TileType::Water {
            let variant = rng_range(rng, 0, 20);
            match variant {
                0 => tiles.set(i, TileType::WaterV2),
                1 => tiles.set(i, TileType::WaterV3),
                2 => tiles.set(i, TileType::WaterV4),
                3 => tiles.set(i, TileType::WaterV5),
                4 => tiles.set(i, TileType::WaterV6),
                _ => {},
            }
            proof {
                assert(tiles@[i as int] == water_variant_spec(variant as int));
            }
        }
        i = i + 1;
    }
    proof {
        assert forall|i2: int| 0 <= i2 < tiles@.len() implies (#[trigger] tiles@[i2] matches
        TileType::ReferTo(r) ==> r < NUM_TILES && !(tiles@[r as int] is ReferTo)) by {
            if tiles@[i2] is ReferTo {
                assert(orig[i2] is ReferTo);
            }
        }
    }
}

/// The neighbour test of the beach pass: the coordinate is inside the
/// probed area and does not hold cave floor.
pub open spec fn beach_check(tiles: Seq<TileType>, x: int, y: int) -> bool {
    &&& 0 <= x < NUM_TILES_X as int - 1
    &&& 0 <= y < NUM_TILES_Y as int - 1
    &&& tiles[index_spec(x, y)] != TileType::CaveFloor
}

/// The edge tile a cave-floor cell turns into, from the pattern of its
/// non-floor 4-neighbours; any other cell keeps its tile.
pub open spec fn beach_tile(tiles: Seq<TileType>, i: int) -> TileType {
    if tiles[i] != TileType::CaveFloor {
        tiles[i]
    } else {
        let x = i % (NUM_TILES_X as int);
        let y = i / (NUM_TILES_X as int);
        let bits = (if beach_check(tiles, x - 1, y) {
            1int
        } else {
            0int
        }) + (if beach_check(tiles, x + 1, y) {
            2int
        } else {
            0int
        }) + (if beach_check(tiles, x, y - 1) {
            4int
        } else {
            0int
        }) + (if beach_check(tiles, x, y + 1) {
            8int
        } else {
            0int
        });
        if bits == 1 {
            TileType::WaterL
        } else if bits == 2 {
            TileType::WaterR
        } else if bits == 3 {
            TileType::WaterTB
        } else if bits == 4 {
            TileType::WaterT
        } else if bits == 5 {
            TileType::WaterTL
        } else if bits == 6 {
            TileType::WaterTR
        } else if bits == 8 {
            TileType::WaterB
        } else if bits == 9 {
            TileType::WaterBL
        } else if bits == 10 {
            TileType::WaterBR
        } else {
            TileType::CaveFloor
        }
    }
}

/// The neighbour test of the beach pass.
fn check(tiles: &Vec<TileType>, x: i32, y: i32) -> (r: bool)
    requires
        tiles@.len() == NUM_TILES as int,
    ensures
        r == beach_check(tiles@, x as int, y as int),
{
    x >= 0 && x < NUM_TILES_X as i32 - 1 && y >= 0 && y < NUM_TILES_Y as i32 - 1 && tiles[(
    y as usize) * NUM_TILES_X + (x as usize)] != TileType::CaveFloor
}

/// Turns every cave-floor cell that borders non-floor terrain into the
/// matching beach-edge tile, judging every cell against the layer as
/// it stood before the pass.
pub fn decorate_beach(tiles: &mut Vec<TileType>)
    requires
        layer_wf(old(tiles)@),
    ensures
        layer_wf(final(tiles)@),
        final(tiles)@.len() == old(tiles)@.len(),
        forall|i: int|
            0 <= i < old(tiles)@.len() ==> #[trigger] final(tiles)@[i] == beach_tile(
                old(tiles)@,
                i,
            ),
{
    let ghost orig = tiles@;
    let mut out: Vec<TileType> = Vec::new();
    let mut i: usize = 0;
    while i < NUM_TILES
        invariant
            layer_wf(orig),
            tiles@ == orig,
            i <= NUM_TILES,
            out@.len() == i as int,
            forall|k: int| 0 <= k < i as int ==> #[trigger] out@[k] == beach_tile(orig, k),
        decreases NUM_TILES - i,
    {
        let t = tiles[i];
        if t != TileType::CaveFloor {
            out.push(t);
        } else {
            let x = (i % NUM_TILES_X) as i32;
            let y = (i / NUM_TILES_X) as i32;
            let mut bits: i32 = 0;
            if check(tiles, x - 1, y) {
                bits = bits + 1;
            }
            if check(tiles, x + 1, y) {
                bits = bits + 2;
            }
            if check(tiles, x, y - 1) {
                bits = bits + 4;
            }
            if check(tiles, x, y + 1) {
                bits = bits + 8;
            }
            let output = if bits == 1 {
                TileType::WaterL
            } else if bits == 2 {
                TileType::WaterR
            } else if bits == 3 {
                TileType::WaterTB
            } else if bits == 4 {
                TileType::WaterT
            } else if bits == 5 {
                TileType::WaterTL
            } else if bits == 6 {
                TileType::WaterTR
            } else if bits == 8 {
                TileType::WaterB
            } else if bits == 9 {
                TileType::WaterBL
            } else if bits == 10 {
                TileType::WaterBR
            } else {
                TileType::CaveFloor
            };
            out.push(output);
        }
        i = i + 1;
    }
    *tiles = out;
    proof {
        assert forall|i2: int| 0 <= i2 < tiles@.len() implies (#[trigger] tiles@[i2] matches
        TileType::ReferTo(r) ==> r < NUM_TILES && !(tiles@[r as int] is ReferTo)) by {
            match tiles@[i2] {
                TileType::ReferTo(r) => {
                    assert(tiles@[i2] == beach_tile(orig, i2));
                    assert(orig[i2] is ReferTo);
                    assert(!(beach_tile(orig, r as int) is ReferTo));
                },
                _ => {},
            }
        }
    }
}

} // verus!
