//! Tiles and where they are kept on disk.

use vstd::prelude::*;
use vstd::string::*;
use crate::decimal::{decimal, to_decimal};

verus! {

/// A slippy-map tile: column `x` and row `y` of the grid at zoom level `z`.
#[derive(Clone, Copy, Debug, PartialEq, Eq, Structural)]
pub struct Tile {
    pub x: usize,
    pub y: usize,
    pub z: u8,
}

impl Tile {
    /// The tile in column `x` and row `y` at zoom level `z`.
    pub fn new(x: usize, y: usize, z: u8) -> (tile: Tile)
        ensures
            tile == (Tile { x, y, z }),
    {
        Tile { x, y, z }
    }

    /// Where the tile is kept below the output folder: the folder named by
    /// the zoom level, in it the folder named by the column, and in that the
    /// file named by the row, with the extension `png`.
    pub fn path_segments(&self) -> (segments: (String, String, String))
        ensures
            segments.0@ == decimal(self.z as nat),
            segments.1@ == decimal(self.x as nat),
            segments.2@ == decimal(self.y as nat) + ".png"@,
    {
        let mut file = to_decimal(self.y as u64);
        file.append(".png");
        (to_decimal(self.z as u64), to_decimal(self.x as u64), file)
    }
}

} // verus!
