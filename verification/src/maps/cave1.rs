//! The sunken cavern: randomly placed rectangular rooms joined by
//! L-shaped corridors, carved out of water, with beach edges and
//! water-sprite variants for decoration.

use vstd::prelude::*;

use bracket_random::prelude::RandomNumberGenerator;

use crate::grid::{cell_open, layer_wf};
use crate::maps::utils::{decorate_beach, decorate_water};
use crate::maps::{fill_layer, set_tile, transfer_wf, MapToBuild, MapTransfer, Rect};
use crate::position::{in_bounds, index_spec, NUM_TILES, NUM_TILES_X, NUM_TILES_Y};
use crate::rng::rng_range;
use crate::tile_type::{tile_walkable, TileType};

verus! {

/// A room rectangle the carving and corridor code can use safely: on
/// the grid, and with a centre whose right and lower neighbours are
/// also on the grid, since corridors are carved two cells wide.
pub open spec fn room_ok(r: Rect) -> bool {
    &&& 0 <= r.x1 <= r.x2 < NUM_TILES_X as int
    &&& 0 <= r.y1 <= r.y2 < NUM_TILES_Y as int
    &&& (r.x1 + r.x2) / 2 + 1 < NUM_TILES_X as int
    &&& (r.y1 + r.y2) / 2 + 1 < NUM_TILES_Y as int
}

/// Carves a two-cell-high horizontal corridor between two columns.
fn apply_horizontal_tunnel(x1: i32, x2: i32, y: i32, tiles: &mut Vec<TileType>)
    requires
        layer_wf(old(tiles)@),
        0 <= x1 < NUM_TILES_X as int,
        0 <= x2 < NUM_TILES_X as int,
        0 <= y,
        y + 1 < NUM_TILES_Y as int,
    ensures
        layer_wf(final(tiles)@),
        final(tiles)@.len() == old(tiles)@.len(),
        forall|i: int|
            0 <= i < final(tiles)@.len() ==> #[trigger] final(tiles)@[i] == old(tiles)@[i]
                || final(tiles)@[i] == TileType::CaveFloor,
{
    let ghost orig = tiles@;
    let lo = if x1 < x2 {
        x1
    } else {
        x2
    };
    let hi = if x1 < x2 {
        x2
    } else {
        x1
    };
    let mut x = lo;
    while x <= hi
        invariant
            layer_wf(tiles@),
            tiles@.len() == NUM_TILES as int,
            orig.len() == NUM_TILES as int,
            lo <= x <= hi + 1,
            0 <= lo,
            hi < NUM_TILES_X as int,
            0 <= y,
            y + 1 < NUM_TILES_Y as int,
            forall|i: int|
                0 <= i < tiles@.len() ==> #[trigger] tiles@[i] == orig[i] || tiles@[i]
                    == TileType::CaveFloor,
        decreases hi + 1 - x,
    {
        set_tile(tiles, x, y, TileType::CaveFloor);
        set_tile(tiles, x, y + 1, TileType::CaveFloor);
        x = x + 1;
    }
}

/// Carves a two-cell-wide vertical corridor between two rows.
fn apply_vertical_tunnel(y1: i32, y2: i32, x: i32, tiles: &mut Vec<TileType>)
    requires
        layer_wf(old(tiles)@),
        0 <= y1 < NUM_TILES_Y as int,
        0 <= y2 < NUM_TILES_Y as int,
        0 <= x,
        x + 1 < NUM_TILES_X as int,
    ensures
        layer_wf(final(tiles)@),
        final(tiles)@.len() == old(tiles)@.len(),
        forall|i: int|
            0 <= i < final(tiles)@.len() ==> #[trigger] final(tiles)@[i] == old(tiles)@[i]
                || final(tiles)@[i] == TileType::CaveFloor,
{
    let ghost orig = tiles@;
    let lo = if y1 < y2 {
        y1
    } else {
        y2
    };
    let hi = if y1 < y2 {
        y2
    } else {
        y1
    };
    let mut y = lo;
    while y <= hi
        invariant
            layer_wf(tiles@),
            tiles@.len() == NUM_TILES as int,
            orig.len() == NUM_TILES as int,
            lo <= y <= hi + 1,
            0 <= lo,
            hi < NUM_TILES_Y as int,
            0 <= x,
            x + 1 < NUM_TILES_X as int,
            forall|i: int|
                0 <= i < tiles@.len() ==> #[trigger] tiles@[i] == orig[i] || tiles@[i]
                    == TileType::CaveFloor,
        decreases hi + 1 - y,
    {
        set_tile(tiles, x, y, TileType::CaveFloor);
        set_tile(tiles, x + 1, y, TileType::CaveFloor);
        y = y + 1;
    }
}

/// Joins consecutive rooms with L-shaped corridors, choosing the bend
/// direction of each connection at random.
fn build_corridors(rng: &mut RandomNumberGenerator, rooms: &Vec<Rect>, tiles: &mut Vec<TileType>)
    requires
        layer_wf(old(tiles)@),
        old(tiles)@.len() == NUM_TILES as int,
        forall|k: int| 0 <= k < rooms@.len() ==> room_ok(#[trigger] rooms@[k]),
    ensures
        layer_wf(final(tiles)@),
        final(tiles)@.len() == NUM_TILES as int,
        forall|i: int|
            0 <= i < final(tiles)@.len() ==> #[trigger] final(tiles)@[i] == old(tiles)@[i]
                || final(tiles)@[i] == TileType::CaveFloor,
{
    let ghost orig = tiles@;
    let mut i: usize = 1;
    while i < rooms.len()
        invariant
            layer_wf(tiles@),
            tiles@.len() == NUM_TILES as int,
            orig.len() == NUM_TILES as int,
            1 <= i,
            forall|k: int| 0 <= k < rooms@.len() ==> room_ok(#[trigger] rooms@[k]),
            forall|c: int|
                0 <= c < tiles@.len() ==> #[trigger] tiles@[c] == orig[c] || tiles@[c]
                    == TileType::CaveFloor,
        decreases rooms@.len() - i,
    {
        let prev = rooms[i - 1].center();
        let new = rooms[i].center();
        if rng_range(rng, 0, 2) == 1 {
            apply_horizontal_tunnel(prev.0, new.0, prev.1, tiles);
            apply_vertical_tunnel(prev.1, new.1, new.0, tiles);
        } else {
            apply_vertical_tunnel(prev.1, new.1, prev.0, tiles);
            apply_horizontal_tunnel(prev.0, new.0, new.1, tiles);
        }
        i = i + 1;
    }
}

/// Orders rooms left to right by centre column (a stable insertion
/// sort), so corridors connect neighbours.
fn sort_rooms(rooms: &mut Vec<Rect>)
    requires
        forall|k: int| 0 <= k < old(rooms)@.len() ==> room_ok(#[trigger] old(rooms)@[k]),
    ensures
        final(rooms)@.len() == old(rooms)@.len(),
        forall|k: int| 0 <= k < final(rooms)@.len() ==> room_ok(#[trigger] final(rooms)@[k]),
{
    let mut a: usize = 1;
    while a < rooms.len()
        invariant
            rooms@.len() == old(rooms)@.len(),
            1 <= a,
            forall|k: int| 0 <= k < rooms@.len() ==> room_ok(#[trigger] rooms@[k]),
        decreases rooms@.len() - a,
    {
        let mut j = a;
        while j > 0
            invariant
                rooms@.len() == old(rooms)@.len(),
                j <= a < rooms@.len(),
                forall|k: int| 0 <= k < rooms@.len() ==> room_ok(#[trigger] rooms@[k]),
            decreases j,
        {
            let left = rooms[j - 1];
            let right = rooms[j];
            if left.center().0 > right.center().0 {
                rooms.set(j - 1, right);
                rooms.set(j, left);
                j = j - 1;
            } else {
                j = 0;
            }
        }
        a = a + 1;
    }
}

/// Builds the sunken cavern. Entering from the deep cave places the
/// player at the top-edge passage `(3, 0)`; from anywhere else, at
/// the bottom-edge passage `(27, 19)`; a fresh game starts at the
/// centre. The four bottom-edge cells exit to the farm house and the
/// three top-edge cells to the deep cave; every exit cell stays
/// enterable through the decoration passes, and every spawn directive
/// is a wolf.
#[verifier::rlimit(100)]
pub fn build(rng: &mut RandomNumberGenerator, from: Option<MapToBuild>) -> (r: MapTransfer)
    ensures
        transfer_wf(&r),
        r.name@ == "Sunken Cavern"@,
        from == Some(MapToBuild::Cave2) ==> r.player_start == (3i32, 0i32),
        (from matches Some(m) && m != MapToBuild::Cave2) ==> r.player_start == (27i32, 19i32),
        from is None ==> r.player_start == (16i32, 10i32),
        r.exits@ == seq![
            (634usize, 1usize),
            (635usize, 1usize),
            (636usize, 1usize),
            (637usize, 1usize),
            (3usize, 3usize),
            (4usize, 3usize),
            (5usize, 3usize),
        ],
        from is Some ==> cell_open(
            r.tiles@,
            r.features@,
            index_spec(r.player_start.0 as int, r.player_start.1 as int),
        ),
        forall|k: int|
            0 <= k < r.exits@.len() ==> cell_open(
                r.tiles@,
                r.features@,
                (#[trigger] r.exits@[k]).0 as int,
            ),
        forall|k: int| 0 <= k < r.spawns@.len() ==> (#[trigger] r.spawns@[k]).0@ == "WeakWolf"@,
{
    let mut tiles = fill_layer(TileType::Water);
    let features = fill_layer(TileType::Empty);
    let mut exits: Vec<(usize, usize)> = Vec::new();
    let mut spawns: Vec<(String, i32, i32)> = Vec::new();

    let player_start: (i32, i32) = match from {
        Some(MapToBuild::Cave2) => (3, 0),
        Some(_) => (27, NUM_TILES_Y as i32 - 1),
        None => (NUM_TILES_X as i32 / 2, NUM_TILES_Y as i32 / 2),
    };

    // The bottom-edge passage back to the farm house.
    let mut x: i32 = 26;
    while x <= 29
        invariant
            layer_wf(tiles@),
            tiles@.len() == NUM_TILES as int,
            26 <= x <= 30,
            forall|cx: int|
                26 <= cx < x ==> #[trigger] tiles@[index_spec(cx, 19)] == TileType::CaveFloor,
            exits@.len() == x - 26 && forall|k: int|
                0 <= k < exits@.len() ==> #[trigger] exits@[k] == ((634 + k) as usize, 1usize),
        decreases 30 - x,
    {
        set_tile(&mut tiles, x, NUM_TILES_Y as i32 - 1, TileType::CaveFloor);
        let idx = crate::position::tile_index(x, NUM_TILES_Y as i32 - 1);
        exits.push((idx, 1));
        x = x + 1;
    }

    // Sample candidate rooms, rejecting out-of-bounds and overlapping
    // ones; the retry budget guarantees termination on any random
    // sequence.
    let mut rooms: Vec<Rect> = Vec::new();
    rooms.push(Rect::with_exact(26, NUM_TILES_Y as i32 - 2, 29, NUM_TILES_Y as i32 - 1));
    let mut attempts: u32 = 0;
    while rooms.len() < 10 && attempts < 200
        invariant
            rooms@.len() >= 1,
            attempts <= 200,
            forall|k: int| 0 <= k < rooms@.len() ==> room_ok(#[trigger] rooms@[k]),
        decreases 200 - attempts,
    {
        let rx = rng_range(rng, 0, NUM_TILES_X as i32);
        let ry = rng_range(rng, 1, NUM_TILES_Y as i32);
        let rw = rng_range(rng, 2, 5);
        let rh = rng_range(rng, 2, 5);
        let try_room = Rect::with_size(rx, ry, rw, rh);
        if try_room.x1 > 0 && try_room.x1 < NUM_TILES_X as i32 && try_room.x2 > 0 && try_room.x2
            < NUM_TILES_X as i32 && try_room.y1 > 1 && try_room.y1 < NUM_TILES_Y as i32
            && try_room.y2 > 0 && try_room.y2 < NUM_TILES_Y as i32 {
            let mut overlaps = false;
            let mut k: usize = 0;
            while k < rooms.len()
                invariant
                    k <= rooms@.len(),
                decreases rooms@.len() - k,
            {
                if rooms[k].intersect(&try_room) {
                    overlaps = true;
                }
                k = k + 1;
            }
            if !overlaps {
                rooms.push(try_room);
            }
        }
        attempts = attempts + 1;
    }

    // The top-edge passage to the deep cave.
    rooms.push(Rect::with_exact(3, 0, 5, 0));
    let mut x: i32 = 3;
    while x <= 5
        invariant
            layer_wf(tiles@),
            tiles@.len() == NUM_TILES as int,
            3 <= x <= 6,
            forall|cx: int|
                26 <= cx <= 29 ==> #[trigger] tiles@[index_spec(cx, 19)] == TileType::CaveFloor,
            forall|cx: int|
                3 <= cx < x ==> #[trigger] tiles@[index_spec(cx, 0)] == TileType::CaveFloor,
            exits@.len() == 4 + (x - 3) && forall|k: int|
                0 <= k < 4 ==> #[trigger] exits@[k] == ((634 + k) as usize, 1usize),
            forall|k: int|
                4 <= k < exits@.len() ==> #[trigger] exits@[k] == ((3 + k - 4) as usize, 3usize),
        decreases 6 - x,
    {
        set_tile(&mut tiles, x, 0, TileType::CaveFloor);
        let idx = crate::position::tile_index(x, 0);
        exits.push((idx, 3));
        x = x + 1;
    }
    proof {
        assert(exits@ =~= seq![
            (634usize, 1usize),
            (635usize, 1usize),
            (636usize, 1usize),
            (637usize, 1usize),
            (3usize, 3usize),
            (4usize, 3usize),
            (5usize, 3usize),
        ]);
    }

    // Carve every room out of the water; like the sampling bounds,
    // the carve stops short of each room's far edges.
    let mut k: usize = 0;
    while k < rooms.len()
        invariant
            layer_wf(tiles@),
            tiles@.len() == NUM_TILES as int,
            k <= rooms@.len(),
            forall|cx: int|
                26 <= cx <= 29 ==> #[trigger] tiles@[index_spec(cx, 19)] == TileType::CaveFloor,
            forall|cx: int|
                3 <= cx <= 5 ==> #[trigger] tiles@[index_spec(cx, 0)] == TileType::CaveFloor,
            forall|m: int| 0 <= m < rooms@.len() ==> room_ok(#[trigger] rooms@[m]),
        decreases rooms@.len() - k,
    {
        let room = rooms[k];
        let mut y = room.y1;
        while y < room.y2
            invariant
                layer_wf(tiles@),
                tiles@.len() == NUM_TILES as int,
                room_ok(room),
                forall|cx: int|
                    26 <= cx <= 29 ==> #[trigger] tiles@[index_spec(cx, 19)] == TileType::CaveFloor,
                forall|cx: int|
                    3 <= cx <= 5 ==> #[trigger] tiles@[index_spec(cx, 0)] == TileType::CaveFloor,
                room.y1 <= y <= room.y2,
            decreases room.y2 - y,
        {
            let mut x = room.x1;
            while x < room.x2
                invariant
                    layer_wf(tiles@),
                    tiles@.len() == NUM_TILES as int,
                    room_ok(room),
                    forall|cx: int|
                        26 <= cx <= 29 ==> #[trigger] tiles@[index_spec(cx, 19)]
                            == TileType::CaveFloor,
                    forall|cx: int|
                        3 <= cx <= 5 ==> #[trigger] tiles@[index_spec(cx, 0)]
                            == TileType::CaveFloor,
                    room.y1 <= y < room.y2,
                    room.x1 <= x <= room.x2,
                decreases room.x2 - x,
            {
                set_tile(&mut tiles, x, y, TileType::CaveFloor);
                x = x + 1;
            }
            y = y + 1;
        }
        k = k + 1;
    }

    // Connect the rooms left to right.
    sort_rooms(&mut rooms);
    build_corridors(rng, &rooms, &mut tiles);
    proof {
        assert forall|cx: int| 26 <= cx <= 29 implies #[trigger] tiles@[index_spec(cx, 19)]
            == TileType::CaveFloor by {}
        assert forall|cx: int| 3 <= cx <= 5 implies #[trigger] tiles@[index_spec(cx, 0)]
            == TileType::CaveFloor by {}
    }

    // Shoreline and water decoration. The two entry passages stay
    // walkable: a cave floor either keeps its tile or becomes a
    // walkable beach edge, and only plain water gains variants.
    let ghost carved = tiles@;
    decorate_beach(&mut tiles);
    proof {
        assert forall|cx: int| 26 <= cx <= 29 implies tile_walkable(
            #[trigger] tiles@[index_spec(cx, 19)],
        ) && !(tiles@[index_spec(cx, 19)] is ReferTo) by {}
        assert forall|cx: int| 3 <= cx <= 5 implies tile_walkable(
            #[trigger] tiles@[index_spec(cx, 0)],
        ) && !(tiles@[index_spec(cx, 0)] is ReferTo) by {}
    }
    decorate_water(&mut tiles, rng);
    proof {
        assert forall|cx: int| 26 <= cx <= 29 implies cell_open(
            tiles@,
            features@,
            index_spec(cx, 19),
        ) by {
            assert(tile_walkable(tiles@[index_spec(cx, 19)]) && !(tiles@[index_spec(cx, 19)]
                is ReferTo));
        }
        assert forall|cx: int| 3 <= cx <= 5 implies cell_open(
            tiles@,
            features@,
            index_spec(cx, 0),
        ) by {
            assert(tile_walkable(tiles@[index_spec(cx, 0)]) && !(tiles@[index_spec(cx, 0)]
                is ReferTo));
        }
    }

    // A wolf in every room but the entry one.
    let mut k: usize = 1;
    while k < rooms.len()
        invariant
            1 <= k,
            forall|m: int| 0 <= m < rooms@.len() ==> room_ok(#[trigger] rooms@[m]),
            forall|m: int|
                0 <= m < spawns@.len() ==> in_bounds(
                    (#[trigger] spawns@[m]).1 as int,
                    spawns@[m].2 as int,
                ),
            forall|m: int| 0 <= m < spawns@.len() ==> (#[trigger] spawns@[m]).0@ == "WeakWolf"@,
        decreases rooms@.len() - k,
    {
        let c = rooms[k].center();
        spawns.push(("WeakWolf".to_owned(), c.0, c.1));
        k = k + 1;
    }

    proof {
        assert forall|k: int| 0 <= k < exits@.len() implies cell_open(
            tiles@,
            features@,
            (#[trigger] exits@[k]).0 as int,
        ) by {
            if k < 4 {
                assert(exits@[k].0 as int == index_spec(26 + k, 19));
            } else {
                assert(exits@[k].0 as int == index_spec(3 + k - 4, 0));
            }
        }
    }
    MapTransfer {
        tiles,
        features,
        name: "Sunken Cavern".to_owned(),
        player_start,
        exits,
        spawns,
    }
}

} // verus!
