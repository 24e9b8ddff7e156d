//! Procedural map construction: the generator's output contract, the
//! per-map builders, and the shared placement helpers.

pub mod cave1;
pub mod cave2;
pub mod coup;
pub mod forest;
pub mod tom_house;
pub mod utils;

use vstd::prelude::*;

use bracket_random::prelude::RandomNumberGenerator;

use crate::grid::layer_wf;
use crate::position::{in_bounds, index_spec, tile_index, NUM_TILES, NUM_TILES_X, NUM_TILES_Y};
use crate::tile_type::TileType;

verus! {

/// Identifier of a map a builder can produce.
#[derive(Clone, Copy, Debug, PartialEq, Eq, Structural)]
pub enum MapToBuild {
    FarmerTomCoup,
    FarmHouse,
    Cave1,
    Cave2,
    Forest,
}

/// The generator's output: everything the region manager needs to
/// materialise a grid and its population, consumed once.
pub struct MapTransfer {
    pub tiles: Vec<TileType>,
    pub features: Vec<TileType>,
    pub name: String,
    pub player_start: (i32, i32),
    pub exits: Vec<(usize, usize)>,
    pub spawns: Vec<(String, i32, i32)>,
}

/// What every builder guarantees of its output: both layers are
/// well-formed full-size grids, the player entry is on the grid, and
/// every exit cell and spawn directive names a cell on the grid.
pub open spec fn transfer_wf(m: &MapTransfer) -> bool {
    &&& layer_wf(m.tiles@)
    &&& layer_wf(m.features@)
    &&& in_bounds(m.player_start.0 as int, m.player_start.1 as int)
    &&& forall|k: int| 0 <= k < m.exits@.len() ==> (#[trigger] m.exits@[k]).0 < NUM_TILES
    &&& forall|k: int|
        0 <= k < m.spawns@.len() ==> in_bounds(
            (#[trigger] m.spawns@[k]).1 as int,
            m.spawns@[k].2 as int,
        )
}

/// The spawn list holds a directive with the given tag at `(x, y)`.
pub open spec fn has_spawn(spawns: Seq<(String, i32, i32)>, tag: Seq<char>, x: int, y: int) -> bool {
    exists|k: int|
        0 <= k < spawns.len() && (#[trigger] spawns[k]).0@ == tag && spawns[k].1 == x
            && spawns[k].2 == y
}

/// Builds the map with the given identifier. `from` names the map the
/// player is arriving from, which selects the entry-side placement;
/// the per-map clauses below pin the designated entry coordinate.
pub fn builder(map: MapToBuild, rng: &mut RandomNumberGenerator, from: Option<MapToBuild>) -> (r:
    MapTransfer)
    ensures
        transfer_wf(&r),
        map == MapToBuild::FarmerTomCoup && from is Some ==> r.player_start == (17i32, 0i32),
        map == MapToBuild::FarmerTomCoup && from is None ==> r.player_start == (16i32, 10i32),
        map == MapToBuild::FarmHouse && from == Some(MapToBuild::Cave1) ==> r.player_start == (
        28i32, 3i32),
        map == MapToBuild::FarmHouse && (from matches Some(m) && m != MapToBuild::Cave1)
            ==> r.player_start == (17i32, 19i32),
        map == MapToBuild::FarmHouse && from is None ==> r.player_start == (16i32, 10i32),
        map == MapToBuild::Cave1 && from == Some(MapToBuild::Cave2) ==> r.player_start == (3i32,
        0i32),
        map == MapToBuild::Cave1 && (from matches Some(m) && m != MapToBuild::Cave2)
            ==> r.player_start == (27i32, 19i32),
        map == MapToBuild::Cave1 && from is None ==> r.player_start == (16i32, 10i32),
        map == MapToBuild::Cave2 ==> r.player_start == (4i32, 18i32),
        map == MapToBuild::Forest && from == Some(MapToBuild::Cave1) ==> r.player_start == (27i32,
        0i32),
        map == MapToBuild::Forest && !(from == Some(MapToBuild::Cave1)) ==> r.player_start == (
        27i32, 19i32),
        map != MapToBuild::Cave1 || from is Some ==> crate::grid::cell_open(
            r.tiles@,
            r.features@,
            index_spec(r.player_start.0 as int, r.player_start.1 as int),
        ),
        map == MapToBuild::FarmerTomCoup ==> r.name@ == "Farmer Tom's Coup"@,
        map == MapToBuild::FarmHouse ==> r.name@ == "Farmer Tom's House"@,
        map == MapToBuild::Cave1 ==> r.name@ == "Sunken Cavern"@,
        map == MapToBuild::Cave2 ==> r.name@ == "Farmer Tom's House"@,
        map == MapToBuild::Forest ==> r.name@ == "Into the Woods"@,
{
    match map {
        MapToBuild::FarmerTomCoup => coup::build_farmer_tom_coup(rng, from),
        MapToBuild::FarmHouse => tom_house::build_toms_house(rng, from),
        MapToBuild::Cave1 => cave1::build(rng, from),
        MapToBuild::Cave2 => cave2::build(rng, from),
        MapToBuild::Forest => forest::build(rng, from),
    }
}

/// An axis-aligned rectangle of cells, corners inclusive.
#[derive(Clone, Copy, Debug, PartialEq, Eq, Structural)]
pub struct Rect {
    pub x1: i32,
    pub y1: i32,
    pub x2: i32,
    pub y2: i32,
}

impl Rect {
    /// A rectangle from its corner and size.
    pub fn with_size(x: i32, y: i32, w: i32, h: i32) -> (r: Rect)
        requires
            0 <= x,
            0 <= y,
            0 <= w,
            0 <= h,
            x + w <= i32::MAX,
            y + h <= i32::MAX,
        ensures
            r == (Rect { x1: x, y1: y, x2: (x + w) as i32, y2: (y + h) as i32 }),
    {
        Rect { x1: x, y1: y, x2: x + w, y2: y + h }
    }

    /// A rectangle from its two corners.
    pub fn with_exact(x1: i32, y1: i32, x2: i32, y2: i32) -> (r: Rect)
        ensures
            r == (Rect { x1, y1, x2, y2 }),
    {
        Rect { x1, y1, x2, y2 }
    }

    /// The two rectangles overlap (corners inclusive).
    pub fn intersect(&self, other: &Rect) -> (r: bool)
        ensures
            r == (self.x1 <= other.x2 && self.x2 >= other.x1 && self.y1 <= other.y2 && self.y2
                >= other.y1),
    {
        self.x1 <= other.x2 && self.x2 >= other.x1 && self.y1 <= other.y2 && self.y2 >= other.y1
    }

    /// The centre cell of the rectangle.
    pub fn center(&self) -> (c: (i32, i32))
        requires
            0 <= self.x1 + self.x2 <= i32::MAX,
            0 <= self.y1 + self.y2 <= i32::MAX,
        ensures
            c.0 as int == (self.x1 + self.x2) as int / 2,
            c.1 as int == (self.y1 + self.y2) as int / 2,
    {
        ((self.x1 + self.x2) / 2, (self.y1 + self.y2) / 2)
    }
}

/// A full-size layer holding one concrete tile everywhere.
pub fn fill_layer(t: TileType) -> (layer: Vec<TileType>)
    requires
        !(t is ReferTo),
    ensures
        layer@.len() == NUM_TILES as int,
        forall|i: int| 0 <= i < NUM_TILES as int ==> layer@[i] == t,
        layer_wf(layer@),
{
    let mut layer: Vec<TileType> = Vec::new();
    let mut i: usize = 0;
    while i < NUM_TILES
        invariant
            !(t is ReferTo),
            i <= NUM_TILES,
            layer@.len() == i as int,
            forall|k: int| 0 <= k < i as int ==> layer@[k] == t,
        decreases NUM_TILES - i,
    {
        layer.push(t);
        i = i + 1;
    }
    layer
}

/// Writes one concrete tile, keeping the layer well-formed.
pub fn set_tile(layer: &mut Vec<TileType>, x: i32, y: i32, t: TileType)
    requires
        layer_wf(old(layer)@),
        in_bounds(x as int, y as int),
        !(t is ReferTo),
    ensures
        final(layer)@ == old(layer)@.update(index_spec(x as int, y as int), t),
        layer_wf(final(layer)@),
{
    let idx = tile_index(x, y);
    layer.set(idx, t);
}

/// Writes one concrete tile by cell index, keeping the layer
/// well-formed.
pub fn set_cell(layer: &mut Vec<TileType>, idx: usize, t: TileType)
    requires
        layer_wf(old(layer)@),
        idx < NUM_TILES,
        !(t is ReferTo),
    ensures
        final(layer)@ == old(layer)@.update(idx as int, t),
        layer_wf(final(layer)@),
{
    layer.set(idx, t);
}

/// Reads the tile at a coordinate.
pub fn get_tile(layer: &Vec<TileType>, x: i32, y: i32) -> (t: TileType)
    requires
        layer@.len() == NUM_TILES as int,
        in_bounds(x as int, y as int),
    ensures
        t == layer@[index_spec(x as int, y as int)],
{
    let idx = tile_index(x, y);
    layer[idx]
}

/// The footprint, in cells, of a multi-cell decorative object.
pub open spec fn big_size(t: TileType) -> Option<(int, int)> {
    match t {
        TileType::HayCart => Some((3, 2)),
        TileType::Barn => Some((2, 3)),
        TileType::LeftButte => Some((2, 7)),
        TileType::CaveMouth => Some((6, 1)),
        _ => None,
    }
}

/// Cell `i` lies inside the rectangle anchored at `(x, y)` of size
/// `w` by `h`.
pub open spec fn in_rect(i: int, x: int, y: int, w: int, h: int) -> bool {
    &&& 0 <= i < NUM_TILES as int
    &&& x <= i % (NUM_TILES_X as int) < x + w
    &&& y <= i / (NUM_TILES_X as int) < y + h
}

/// The cell is free grass: bare grass terrain with no feature, the
/// ground wolves may spawn on.
pub open spec fn free_grass(tiles: Seq<TileType>, features: Seq<TileType>, c: int) -> bool {
    &&& 0 <= c < NUM_TILES as int
    &&& tiles[c] == TileType::Grass
    &&& features[c] == TileType::Empty
}

/// The number of free grass cells among the first `n` cells.
pub open spec fn free_grass_upto(tiles: Seq<TileType>, features: Seq<TileType>, n: int) -> int
    decreases n,
{
    if n <= 0 {
        0
    } else {
        free_grass_upto(tiles, features, n - 1) + (if free_grass(tiles, features, n - 1) {
            1int
        } else {
            0int
        })
    }
}

/// How many wolves the corner spawner places: one fewer than the
/// number of free grass cells, capped at five.
pub open spec fn wolf_count(tiles: Seq<TileType>, features: Seq<TileType>) -> int {
    let n = free_grass_upto(tiles, features, NUM_TILES as int);
    if n == 0 {
        0
    } else if n - 1 < 5 {
        n - 1
    } else {
        5
    }
}

/// The squared Euclidean distance of a cell from the bottom-left
/// corner of the map; squaring keeps the ordering of the true
/// distance.
pub open spec fn corner_dist2(c: int) -> int {
    let cx = c % (NUM_TILES_X as int);
    let cy = c / (NUM_TILES_X as int);
    cx * cx + (NUM_TILES_Y as int - 1 - cy) * (NUM_TILES_Y as int - 1 - cy)
}

/// The cell a spawn directive stands on.
pub open spec fn spawn_cell(s: (String, i32, i32)) -> int {
    index_spec(s.1 as int, s.2 as int)
}

/// The shape of the appended wolf directives: each is a weak wolf on
/// its own free grass cell, no two share a cell, and each chosen cell
/// is at least as near the bottom-left corner as every free grass
/// cell that no earlier wolf took.
#[verifier::opaque]
pub open spec fn wolves_near_corner(
    tiles: Seq<TileType>,
    features: Seq<TileType>,
    olds: Seq<(String, i32, i32)>,
    news: Seq<(String, i32, i32)>,
) -> bool {
    &&& forall|k: int|
        olds.len() <= k < news.len() ==> (#[trigger] news[k]).0@ == "WeakWolf"@ && free_grass(
            tiles,
            features,
            spawn_cell(news[k]),
        )
    &&& forall|k1: int, k2: int|
        olds.len() <= k1 < k2 < news.len() ==> spawn_cell(#[trigger] news[k1]) != spawn_cell(
            #[trigger] news[k2],
        )
    &&& forall|j: int, c: int|
        olds.len() <= j < news.len() && #[trigger] free_grass(tiles, features, c) && (forall|
            m: int,
        |
            olds.len() <= m < j ==> spawn_cell(#[trigger] news[m]) != c) ==> corner_dist2(
            spawn_cell(#[trigger] news[j]),
        ) <= corner_dist2(c)
}

/// Spawns weak wolves on free grass, preferring the cells nearest the
/// bottom-left corner of the map. Existing spawn directives are kept;
/// exactly `wolf_count` new ones are appended, and `wolves_near_corner`
/// pins their shape.
#[verifier::rlimit(100)]
pub fn spawn_wolves_near_corner(
    tiles: &Vec<TileType>,
    features: &Vec<TileType>,
    spawns: &mut Vec<(String, i32, i32)>,
)
    requires
        tiles@.len() == NUM_TILES as int,
        features@.len() == NUM_TILES as int,
    ensures
        final(spawns)@.len() >= old(spawns)@.len(),
        final(spawns)@.len() == old(spawns)@.len() + wolf_count(tiles@, features@),
        forall|k: int|
            0 <= k < old(spawns)@.len() ==> #[trigger] final(spawns)@[k] == old(spawns)@[k],
        forall|k: int|
            old(spawns)@.len() <= k < final(spawns)@.len() ==> in_bounds(
                (#[trigger] final(spawns)@[k]).1 as int,
                final(spawns)@[k].2 as int,
            ),
        wolves_near_corner(tiles@, features@, old(spawns)@, final(spawns)@),
{
    // Free grass cells, each with its squared distance from the
    // bottom-left corner; squaring keeps the ordering of the true
    // Euclidean distance.
    let mut candidates: Vec<(usize, u32)> = Vec::new();
    let mut i: usize = 0;
    while i < NUM_TILES
        invariant
            tiles@.len() == NUM_TILES as int,
            features@.len() == NUM_TILES as int,
            i <= NUM_TILES,
            candidates@.len() == free_grass_upto(tiles@, features@, i as int),
            forall|m: int|
                0 <= m < candidates@.len() ==> free_grass(
                    tiles@,
                    features@,
                    (#[trigger] candidates@[m]).0 as int,
                ) && candidates@[m].1 as int == corner_dist2(candidates@[m].0 as int)
                    && candidates@[m].0 < i,
            forall|m1: int, m2: int|
                0 <= m1 < m2 < candidates@.len() ==> candidates@[m1].0 < candidates@[m2].0,
            forall|c: int|
                0 <= c < i as int && #[trigger] free_grass(tiles@, features@, c) ==> exists|m: int|
                    0 <= m < candidates@.len() && (#[trigger] candidates@[m]).0 as int == c,
        decreases NUM_TILES - i,
    {
        let ghost prevc = candidates@;
        if tiles[i] == TileType::Grass && features[i] == TileType::Empty {
            let x = (i % NUM_TILES_X) as u32;
            let y = (i / NUM_TILES_X) as u32;
            let dy = (NUM_TILES_Y as u32 - 1) - y;
            proof {
                assert(0 <= x * x <= 961 && 0 <= dy * dy <= 961) by (nonlinear_arith)
                    requires
                        x <= 31,
                        dy <= 19,
                ;
            }
            candidates.push((i, x * x + dy * dy));
            proof {
                assert(candidates@.last().0 as int == i as int);
                assert(candidates@.last().1 as int == corner_dist2(i as int));
                assert forall|c: int|
                    0 <= c < i as int + 1 && #[trigger] free_grass(tiles@, features@, c) implies
                exists|m: int|
                    0 <= m < candidates@.len() && (#[trigger] candidates@[m]).0 as int == c by {
                    if c < i as int {
                        let m = choose|m: int|
                            0 <= m < prevc.len() && (#[trigger] prevc[m]).0 as int == c;
                        assert(candidates@[m].0 as int == c);
                    } else {
                        assert(candidates@[candidates@.len() - 1].0 as int == c);
                    }
                }
            }
        }
        i = i + 1;
    }
    let count = if candidates.len() == 0 {
        0
    } else if candidates.len() - 1 < 5 {
        candidates.len() - 1
    } else {
        5
    };
    proof {
        assert(count as int == wolf_count(tiles@, features@));
    }
    let ghost orig = spawns@;
    let mut k: usize = 0;
    while k < count
        invariant
            tiles@.len() == NUM_TILES as int,
            features@.len() == NUM_TILES as int,
            k <= count,
            count - k <= candidates@.len(),
            count as int == wolf_count(tiles@, features@),
            spawns@.len() == orig.len() + k as int,
            forall|m: int| 0 <= m < orig.len() ==> #[trigger] spawns@[m] == orig[m],
            forall|m: int|
                orig.len() <= m < spawns@.len() ==> (#[trigger] spawns@[m]).0@ == "WeakWolf"@
                    && free_grass(tiles@, features@, spawn_cell(spawns@[m])) && in_bounds(
                    spawns@[m].1 as int,
                    spawns@[m].2 as int,
                ),
            forall|k1: int, k2: int|
                orig.len() <= k1 < k2 < spawns@.len() ==> spawn_cell(#[trigger] spawns@[k1])
                    != spawn_cell(#[trigger] spawns@[k2]),
            forall|m: int|
                0 <= m < candidates@.len() ==> free_grass(
                    tiles@,
                    features@,
                    (#[trigger] candidates@[m]).0 as int,
                ) && candidates@[m].1 as int == corner_dist2(candidates@[m].0 as int),
            forall|m1: int, m2: int|
                0 <= m1 < m2 < candidates@.len() ==> candidates@[m1].0 < candidates@[m2].0,
            forall|j: int, m: int|
                orig.len() <= j < spawns@.len() && 0 <= m < candidates@.len() ==> spawn_cell(
                    #[trigger] spawns@[j],
                ) != (#[trigger] candidates@[m]).0 as int,
            forall|c: int|
                #[trigger] free_grass(tiles@, features@, c) ==> (exists|m: int|
                    0 <= m < candidates@.len() && (#[trigger] candidates@[m]).0 as int == c)
                    || (exists|j: int|
                    orig.len() <= j < spawns@.len() && spawn_cell(#[trigger] spawns@[j]) == c),
            forall|j: int, c: int|
                orig.len() <= j < spawns@.len() && #[trigger] free_grass(tiles@, features@, c) && (
                forall|m: int| orig.len() <= m < j ==> spawn_cell(#[trigger] spawns@[m]) != c)
                    ==> corner_dist2(spawn_cell(#[trigger] spawns@[j])) <= corner_dist2(c),
        decreases count - k,
    {
        // The remaining candidate nearest the corner.
        let mut best: usize = 0;
        let mut j: usize = 1;
        while j < candidates.len()
            invariant
                candidates@.len() >= 1,
                best < j,
                j <= candidates@.len(),
                forall|m2: int|
                    0 <= m2 < j as int ==> (#[trigger] candidates@[m2]).1
                        >= candidates@[best as int].1,
            decreases candidates@.len() - j,
        {
            if candidates[j].1 < candidates[best].1 {
                best = j;
            }
            j = j + 1;
        }
        let (cell, d2) = candidates[best];
        let ghost prevs = spawns@;
        let ghost prevc = candidates@;
        spawns.push(("WeakWolf".to_owned(), (cell % NUM_TILES_X) as i32, (cell / NUM_TILES_X) as i32));
        candidates.remove(best);
        proof {
            let new_j = prevs.len() as int;
            assert(spawn_cell(spawns@[new_j]) == cell as int);
            assert(free_grass(tiles@, features@, cell as int) && d2 as int == corner_dist2(
                cell as int,
            ));
            assert forall|m: int| 0 <= m < candidates@.len() implies #[trigger] candidates@[m] == (
            if m < best as int {
                prevc[m]
            } else {
                prevc[m + 1]
            }) by {}
            // The new wolf's cell leaves the candidate pool, so chosen
            // cells and remaining candidates stay disjoint.
            assert forall|j2: int, m: int|
                orig.len() <= j2 < spawns@.len() && 0 <= m < candidates@.len() implies spawn_cell(
                #[trigger] spawns@[j2],
            ) != (#[trigger] candidates@[m]).0 as int by {
                if j2 < new_j {
                    assert(spawns@[j2] == prevs[j2]);
                    if m < best as int {
                        assert(candidates@[m] == prevc[m]);
                    } else {
                        assert(candidates@[m] == prevc[m + 1]);
                    }
                } else {
                    if m < best as int {
                        assert(prevc[m].0 < prevc[best as int].0);
                    } else {
                        assert(prevc[best as int].0 < prevc[m + 1].0);
                    }
                }
            }
            assert forall|c: int| #[trigger] free_grass(tiles@, features@, c) implies (exists|
                m: int,
            |
                0 <= m < candidates@.len() && (#[trigger] candidates@[m]).0 as int == c) || (exists|
                j2: int,
            |
                orig.len() <= j2 < spawns@.len() && spawn_cell(#[trigger] spawns@[j2]) == c) by {
                if exists|m: int| 0 <= m < prevc.len() && (#[trigger] prevc[m]).0 as int == c {
                    let m = choose|m: int| 0 <= m < prevc.len() && (#[trigger] prevc[m]).0 as int
                        == c;
                    if m == best as int {
                        assert(spawn_cell(spawns@[new_j]) == c);
                    } else if m < best as int {
                        assert(candidates@[m].0 as int == c);
                    } else {
                        assert(candidates@[m - 1].0 as int == c);
                    }
                } else {
                    let j2 = choose|j2: int|
                        orig.len() <= j2 < prevs.len() && spawn_cell(#[trigger] prevs[j2]) == c;
                    assert(spawns@[j2] == prevs[j2]);
                    assert(spawn_cell(spawns@[j2]) == c);
                }
            }
            assert forall|j2: int, c: int|
                orig.len() <= j2 < spawns@.len() && #[trigger] free_grass(tiles@, features@, c)
                    && (forall|m: int|
                    orig.len() <= m < j2 ==> spawn_cell(#[trigger] spawns@[m]) != c) implies
            corner_dist2(spawn_cell(#[trigger] spawns@[j2])) <= corner_dist2(c) by {
                if j2 < new_j {
                    assert(spawns@[j2] == prevs[j2]);
                    assert forall|m: int| orig.len() <= m < j2 implies spawn_cell(
                        #[trigger] prevs[m],
                    ) != c by {
                        assert(spawns@[m] == prevs[m]);
                    }
                } else {
                    // Nothing chose c earlier, so it was still in the
                    // pool, and the taken candidate was its minimum.
                    if exists|m: int| 0 <= m < prevc.len() && (#[trigger] prevc[m]).0 as int == c {
                        let m = choose|m: int|
                            0 <= m < prevc.len() && (#[trigger] prevc[m]).0 as int == c;
                        assert(prevc[m].1 >= prevc[best as int].1);
                        assert(prevc[m].1 as int == corner_dist2(c));
                    } else {
                        let w = choose|w: int|
                            orig.len() <= w < prevs.len() && spawn_cell(#[trigger] prevs[w]) == c;
                        assert(spawns@[w] == prevs[w]);
                        assert(spawn_cell(spawns@[w]) == c);
                        assert(false);
                    }
                }
            }
        }
        k = k + 1;
    }
    proof {
        reveal(wolves_near_corner);
        assert(wolves_near_corner(tiles@, features@, orig, spawns@));
    }
}

/// Places a multi-cell decorative object anchored at `(x, y)`: every
/// covered cell becomes an indirection to the anchor, and the anchor
/// itself holds the object's concrete type.
pub fn spawn_big_feature(x: i32, y: i32, feature: TileType, features: &mut Vec<TileType>)
    requires
        layer_wf(old(features)@),
        big_size(feature) matches Some(wh) && 0 <= x && 0 <= y && x + wh.0 <= NUM_TILES_X as int
            && y + wh.1 <= NUM_TILES_Y as int,
        forall|i: int|
            0 <= i < NUM_TILES as int ==> (#[trigger] old(features)@[i] matches TileType::ReferTo(
                r,
            ) ==> !in_rect(
                r as int,
                x as int,
                y as int,
                big_size(feature)->Some_0.0,
                big_size(feature)->Some_0.1,
            )),
    ensures
        layer_wf(final(features)@),
        final(features)@.len() == old(features)@.len(),
        forall|i: int|
            0 <= i < NUM_TILES as int ==> #[trigger] final(features)@[i] == {
                let w = big_size(feature)->Some_0.0;
                let h = big_size(feature)->Some_0.1;
                let base = index_spec(x as int, y as int);
                if i == base {
                    feature
                } else if in_rect(i, x as int, y as int, w, h) {
                    TileType::ReferTo(base as usize)
                } else {
                    old(features)@[i]
                }
            },
{
    let (width, height): (i32, i32) = match feature {
        TileType::HayCart => (3, 2),
        TileType::Barn => (2, 3),
        TileType::LeftButte => (2, 7),
        TileType::CaveMouth => (6, 1),
        _ => (0, 0),
    };
    let ghost orig = features@;
    let base_idx = tile_index(x, y);
    let mut tx: i32 = 0;
    while tx < width
        invariant
            orig.len() == NUM_TILES as int,
            features@.len() == NUM_TILES as int,
            0 < width,
            0 < height,
            0 <= tx <= width,
            0 <= x,
            0 <= y,
            x + width <= NUM_TILES_X as int,
            y + height <= NUM_TILES_Y as int,
            base_idx == index_spec(x as int, y as int),
            forall|i: int|
                0 <= i < NUM_TILES as int ==> #[trigger] features@[i] == (if in_rect(
                    i,
                    x as int,
                    y as int,
                    tx as int,
                    height as int,
                ) {
                    TileType::ReferTo(base_idx)
                } else {
                    orig[i]
                }),
        decreases width - tx,
    {
        let mut ty: i32 = 0;
        while ty < height
            invariant
                orig.len() == NUM_TILES as int,
                features@.len() == NUM_TILES as int,
                0 < width,
                0 < height,
                0 <= tx < width,
                0 <= ty <= height,
                0 <= x,
                0 <= y,
                x + width <= NUM_TILES_X as int,
                y + height <= NUM_TILES_Y as int,
                base_idx == index_spec(x as int, y as int),
                forall|i: int|
                    0 <= i < NUM_TILES as int ==> #[trigger] features@[i] == (if in_rect(
                        i,
                        x as int,
                        y as int,
                        tx as int,
                        height as int,
                    ) || (i % (NUM_TILES_X as int) == x + tx && y <= i / (NUM_TILES_X as int) < y
                        + ty) {
                        TileType::ReferTo(base_idx)
                    } else {
                        orig[i]
                    }),
            decreases height - ty,
        {
            let idx = tile_index(x + tx, y + ty);
            features.set(idx, TileType::ReferTo(base_idx));
            proof {
                assert(idx as int % (NUM_TILES_X as int) == x + tx && idx as int / (
                NUM_TILES_X as int) == y + ty) by {
                    assert(idx as int == (y + ty) * (NUM_TILES_X as int) + (x + tx));
                };
            }
            ty = ty + 1;
        }
        proof {
            assert forall|i: int| 0 <= i < NUM_TILES as int implies #[trigger] features@[i] == (
            if in_rect(i, x as int, y as int, tx as int + 1, height as int) {
                TileType::ReferTo(base_idx)
            } else {
                orig[i]
            }) by {}
        }
        tx = tx + 1;
    }
    features.set(base_idx, feature);
    proof {
        assert(base_idx as int % (NUM_TILES_X as int) == x as int && base_idx as int / (
        NUM_TILES_X as int) == y as int) by {
            assert(base_idx as int == y as int * (NUM_TILES_X as int) + x as int);
        };
        assert forall|i: int| 0 <= i < features@.len() implies (
        #[trigger] features@[i] matches TileType::ReferTo(r) ==> r < NUM_TILES && !(
        features@[r as int] is ReferTo)) by {
            match features@[i] {
                TileType::ReferTo(r) => {
                    if in_rect(i, x as int, y as int, width as int, height as int) {
                        assert(features@[base_idx as int] == feature);
                    } else {
                        assert(orig[i] is ReferTo);
                        assert(!in_rect(r as int, x as int, y as int, width as int, height as int));
                        assert(features@[r as int] == orig[r as int]);
                    }
                },
                _ => {},
            }
        }
    }
}

} // verus!
