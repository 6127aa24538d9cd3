//! Terrain: from the height of the surface to the blocks of a chunk.

use vstd::prelude::*;

pub mod noise;

verus! {

/// The height of the surface over one column of a chunk, in blocks, as the
/// two whole numbers around it: `floor` is the topmost level that the surface
/// reaches, `ceil` the first whole number that is not below the surface.
#[derive(Clone, Copy, Debug, PartialEq, Eq, Structural)]
pub struct Height {
    pub floor: i32,
    pub ceil: i32,
}

/// Chooses the block for a column by the height of its surface.
pub trait TerrainGenerator {
    /// The block id for a column whose surface has the height `height`.
    spec fn block_type(&self, height: Height) -> u8;

    fn get_block_type(&self, height: Height) -> (id: u8)
        ensures
            id == self.block_type(height);
}

/// Terrain in bands: grass from 7 up to 39, stone at 5 and 6, water at 4, sand
/// at 2 and 3, water again below 2. Above 39 and below 0 nothing is set.
pub struct DebugTerrainGenerator;

/// The block id of the band that holds the level `level`.
pub open spec fn band(level: int) -> u8 {
    if 7 <= level < 40 {
        1
    } else if 5 <= level < 7 {
        2
    } else if 4 <= level < 5 {
        3
    } else if 2 <= level < 4 {
        4
    } else if 0 <= level < 2 {
        3
    } else {
        0
    }
}

impl TerrainGenerator for DebugTerrainGenerator {
    open spec fn block_type(&self, height: Height) -> u8 {
        band(height.ceil as int)
    }

    fn get_block_type(&self, height: Height) -> (id: u8) {
        let level = height.ceil;
        if 7 <= level && level < 40 {
            1
        } else if 5 <= level && level < 7 {
            2
        } else if 4 <= level && level < 5 {
            3
        } else if 2 <= level && level < 4 {
            4
        } else if 0 <= level && level < 2 {
            3
        } else {
            0
        }
    }
}

} // verus!
