//! The region manager: the one live map, its walkability queries and
//! interactions, exit detection, and wholesale replacement on a map
//! transition.

use vstd::prelude::*;

use bracket_random::prelude::RandomNumberGenerator;

use crate::combat::Health;
use crate::grid::{build_open_map, can_enter_at, cell_open, layer_wf, open_map_spec};
use crate::maps::{builder, MapToBuild, MapTransfer};
use crate::message::{msgs_view, Message};
use crate::position::{in_bounds, index_spec, tile_index, NUM_TILES, NUM_TILES_X, NUM_TILES_Y};
use crate::tile_type::TileType;

verus! {

/// The currently active map. It is created whole from a builder's
/// transfer and replaced whole on transition; between transitions it
/// only answers read queries.
pub struct RegionMap {
    pub name: String,
    pub base_tiles: Vec<TileType>,
    pub features: Vec<TileType>,
    pub player_start: (i32, i32),
    pub exits: Vec<(usize, usize)>,
    pub spawns: Vec<(String, i32, i32)>,
    pub id: MapToBuild,
}

impl RegionMap {
    /// Well-formedness kept by every live region map.
    pub open spec fn wf(&self) -> bool {
        &&& layer_wf(self.base_tiles@)
        &&& layer_wf(self.features@)
        &&& in_bounds(self.player_start.0 as int, self.player_start.1 as int)
        &&& forall|k: int| 0 <= k < self.exits@.len() ==> (#[trigger] self.exits@[k]).0 < NUM_TILES
        &&& forall|k: int|
            0 <= k < self.spawns@.len() ==> in_bounds(
                (#[trigger] self.spawns@[k]).1 as int,
                self.spawns@[k].2 as int,
            )
    }

    /// Materialises a region map from a builder's transfer.
    pub fn from_transfer(map: MapTransfer, id: MapToBuild) -> (r: RegionMap)
        requires
            crate::maps::transfer_wf(&map),
        ensures
            r.wf(),
            r.id == id,
            r.name@ == map.name@,
            r.base_tiles@ == map.tiles@,
            r.features@ == map.features@,
            r.player_start == map.player_start,
            r.exits@ == map.exits@,
            r.spawns@ == map.spawns@,
    {
        RegionMap {
            name: map.name,
            base_tiles: map.tiles,
            features: map.features,
            player_start: map.player_start,
            exits: map.exits,
            spawns: map.spawns,
            id,
        }
    }

    /// A fresh region at game start.
    pub fn new(map_type: MapToBuild, rng: &mut RandomNumberGenerator) -> (r: RegionMap)
        ensures
            r.wf(),
            r.id == map_type,
            map_type != MapToBuild::Cave1 ==> cell_open(
                r.base_tiles@,
                r.features@,
                index_spec(r.player_start.0 as int, r.player_start.1 as int),
            ),
    {
        let map = builder(map_type, rng, None);
        RegionMap::from_transfer(map, map_type)
    }

    /// Whether the player may enter the cell at `(x, y)`: the
    /// coordinate is on the grid and both layers' resolved tiles are
    /// individually walkable.
    pub fn can_player_enter(&self, x: i32, y: i32) -> (r: bool)
        requires
            self.wf(),
        ensures
            r == (in_bounds(x as int, y as int) && cell_open(
                self.base_tiles@,
                self.features@,
                index_spec(x as int, y as int),
            )),
    {
        if x < 0 || x >= NUM_TILES_X as i32 || y < 0 || y >= NUM_TILES_Y as i32 {
            return false;
        }
        let idx = tile_index(x, y);
        can_enter_at(&self.base_tiles, &self.features, idx)
    }

    /// The walkability of every cell, for the pathfinder.
    pub fn open_map(&self) -> (open: Vec<bool>)
        requires
            self.wf(),
        ensures
            open@ == open_map_spec(self.base_tiles@, self.features@),
            open@.len() == NUM_TILES as int,
    {
        build_open_map(&self.base_tiles, &self.features)
    }

    /// Interacts with both layers of the cell at `(x, y)`: the base
    /// layer's console lines followed by the feature layer's come back
    /// for the external log, and grain on either layer heals to full.
    pub fn interact(&self, x: i32, y: i32, health: &mut Health) -> (msgs: Vec<Message>)
        requires
            self.wf(),
            in_bounds(x as int, y as int),
            old(health).wf(),
        ensures
            final(health).wf(),
            final(health).max == old(health).max,
            (self.base_tiles@[index_spec(x as int, y as int)] == TileType::Grain
                || self.features@[index_spec(x as int, y as int)] == TileType::Grain)
                ==> final(health).current == old(health).max,
            !(self.base_tiles@[index_spec(x as int, y as int)] == TileType::Grain
                || self.features@[index_spec(x as int, y as int)] == TileType::Grain)
                ==> *final(health) == *old(health),
            msgs_view(msgs@) == crate::tile_type::interact_messages(
                self.base_tiles@[index_spec(x as int, y as int)],
            ) + crate::tile_type::interact_messages(
                self.features@[index_spec(x as int, y as int)],
            ),
    {
        let idx = tile_index(x, y);
        let mut msgs = self.base_tiles[idx].interact(health);
        let mut more = self.features[idx].interact(health);
        let ghost first = msgs@;
        let ghost second = more@;
        msgs.append(&mut more);
        proof {
            assert(msgs@ == first + second);
            assert(msgs_view(msgs@) =~= msgs_view(first) + msgs_view(second));
        }
        msgs
    }

    /// The destination map of the first registered exit on the given
    /// cell, if the cell is an exit.
    pub fn exit_at(&self, idx: usize) -> (r: Option<usize>)
        ensures
            r is None ==> forall|k: int|
                0 <= k < self.exits@.len() ==> (#[trigger] self.exits@[k]).0 != idx,
            r matches Some(d) ==> exists|k: int|
                0 <= k < self.exits@.len() && (#[trigger] self.exits@[k]) == (idx, d) && forall|
                    m: int,
                |
                    0 <= m < k ==> (#[trigger] self.exits@[m]).0 != idx,
    {
        let mut k: usize = 0;
        while k < self.exits.len()
            invariant
                k <= self.exits@.len(),
                forall|m: int| 0 <= m < k as int ==> (#[trigger] self.exits@[m]).0 != idx,
            decreases self.exits@.len() - k,
        {
            let (cell, dest) = self.exits[k];
            if cell == idx {
                proof {
                    assert(self.exits@[k as int] == (idx, dest));
                }
                return Some(dest);
            }
            k = k + 1;
        }
        None
    }

    /// Replaces this region with a freshly generated map, using the
    /// current map's identity to choose the entry side, and returns
    /// the player's designated entry coordinate on the new map.
    pub fn transition_to(&mut self, new_map: usize, rng: &mut RandomNumberGenerator) -> (entry: (
        i32,
        i32,
    ))
        requires
            old(self).wf(),
        ensures
            final(self).wf(),
            entry == final(self).player_start,
            new_map == 1 ==> final(self).id == MapToBuild::FarmHouse,
            new_map == 2 ==> final(self).id == MapToBuild::Cave1,
            new_map == 3 ==> final(self).id == MapToBuild::Cave2,
            new_map == 4 ==> final(self).id == MapToBuild::Forest,
            !(1 <= new_map <= 4) ==> final(self).id == MapToBuild::FarmerTomCoup,
            new_map == 1 && old(self).id == MapToBuild::Cave1 ==> entry == (28i32, 3i32),
            new_map == 1 && old(self).id != MapToBuild::Cave1 ==> entry == (17i32, 19i32),
            new_map == 2 && old(self).id == MapToBuild::Cave2 ==> entry == (3i32, 0i32),
            new_map == 2 && old(self).id != MapToBuild::Cave2 ==> entry == (27i32, 19i32),
            new_map == 3 ==> entry == (4i32, 18i32),
            new_map == 4 && old(self).id == MapToBuild::Cave1 ==> entry == (27i32, 0i32),
            new_map == 4 && old(self).id != MapToBuild::Cave1 ==> entry == (27i32, 19i32),
            !(1 <= new_map <= 4) ==> entry == (17i32, 0i32),
            new_map == 1 || new_map == 3 ==> final(self).name@ == "Farmer Tom's House"@,
            new_map == 2 ==> final(self).name@ == "Sunken Cavern"@,
            new_map == 4 ==> final(self).name@ == "Into the Woods"@,
            !(1 <= new_map <= 4) ==> final(self).name@ == "Farmer Tom's Coup"@,
            cell_open(
                final(self).base_tiles@,
                final(self).features@,
                index_spec(entry.0 as int, entry.1 as int),
            ),
    {
        let to_build = match new_map {
            1 => MapToBuild::FarmHouse,
            2 => MapToBuild::Cave1,
            3 => MapToBuild::Cave2,
            4 => MapToBuild::Forest,
            _ => MapToBuild::FarmerTomCoup,
        };
        let new_data = builder(to_build, rng, Some(self.id));
        let entry = new_data.player_start;
        *self = RegionMap::from_transfer(new_data, to_build);
        entry
    }
}

/// Where a fixed-escort companion stands after a transition: one cell
/// to the player's left, rather than pathfinding its own way.
pub fn place_companion(player: (i32, i32)) -> (r: (i32, i32))
    requires
        in_bounds(player.0 as int, player.1 as int),
        player.0 >= 1,
    ensures
        r == (((player.0 - 1) as i32), player.1),
        in_bounds(r.0 as int, r.1 as int),
{
    (player.0 - 1, player.1)
}

} // verus!
