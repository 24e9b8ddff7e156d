//! Cell coordinates on the fixed-size grid, and their row-major indexing.

use vstd::prelude::*;

verus! {

/// Width of every region map, in tiles.
pub const NUM_TILES_X: usize = 32;

/// Height of every region map, in tiles.
pub const NUM_TILES_Y: usize = 20;

/// Total number of cells of a region map.
pub const NUM_TILES: usize = 640;

/// An integer cell coordinate, valid only within
/// `[0, NUM_TILES_X) x [0, NUM_TILES_Y)`.
#[derive(Clone, Copy, Debug, PartialEq, Eq, Structural)]
pub struct TilePosition {
    pub x: i32,
    pub y: i32,
}

/// The coordinate lies on the grid.
pub open spec fn in_bounds(x: int, y: int) -> bool {
    &&& 0 <= x < NUM_TILES_X as int
    &&& 0 <= y < NUM_TILES_Y as int
}

/// Row-major index of an in-bounds coordinate.
pub open spec fn index_spec(x: int, y: int) -> int {
    y * (NUM_TILES_X as int) + x
}

/// Row-major cell index of an in-bounds coordinate.
pub fn tile_index(x: i32, y: i32) -> (idx: usize)
    requires
        in_bounds(x as int, y as int),
    ensures
        idx == index_spec(x as int, y as int),
        idx < NUM_TILES,
{
    (y as usize) * NUM_TILES_X + (x as usize)
}

/// Inverse of `tile_index`: the coordinate of a cell index.
pub fn tile_coords(idx: usize) -> (pos: TilePosition)
    requires
        idx < NUM_TILES,
    ensures
        in_bounds(pos.x as int, pos.y as int),
        index_spec(pos.x as int, pos.y as int) == idx as int,
{
    TilePosition { x: (idx % NUM_TILES_X) as i32, y: (idx / NUM_TILES_X) as i32 }
}

} // verus!
