//! Filling a chunk from a height map.

use vstd::prelude::*;

use crate::chunk::HEIGHT_SIZE;
use crate::terrain::{Height, TerrainGenerator};

verus! {

/// The heights of the surface over the 32 x 32 columns of a chunk: the column
/// `(x, y)` stands at `x + 32 * y`.
pub type HeightMap = [Height; HEIGHT_SIZE];

/// The block of the terrain at `index`, which is `x + 32 * y + 1024 * z` for
/// the cell at level `z` of the column `(x, y)`: the column's block up to the
/// surface, nothing above it.
pub open spec fn terrain_cell<G: TerrainGenerator>(
    heights: Seq<Height>,
    terrain: G,
    index: int,
) -> u8 {
    let height = heights[index % 1024];
    if index / 1024 <= height.floor {
        terrain.block_type(height)
    } else {
        0
    }
}

/// The terrain of a chunk.
pub open spec fn terrain_of<G: TerrainGenerator>(heights: Seq<Height>, terrain: G) -> Seq<u8> {
    Seq::new(32768, |index: int| terrain_cell(heights, terrain, index))
}

/// Fills a chunk, level by level: in every column the cells up to the surface
/// get the block that `terrain` chooses for the column, the cells above it
/// stay unset.
pub fn generate_terrain_3d<G: TerrainGenerator>(heights: &HeightMap, terrain: G) -> (ids: Vec<u8>)
    ensures
        ids@ == terrain_of(heights@, terrain),
{
    let mut ids: Vec<u8> = Vec::new();
    let mut z: i32 = 0;
    while z < 32
        invariant
            0 <= z <= 32,
            ids@.len() == 1024 * z,
            forall|i: int| 0 <= i < ids@.len() ==> ids@[i] == terrain_cell(heights@, terrain, i),
        decreases 32 - z,
    {
        let mut y: usize = 0;
        while y < 32
            invariant
                0 <= z < 32,
                y <= 32,
                ids@.len() == 1024 * z + 32 * y,
                forall|i: int|
                    0 <= i < ids@.len() ==> ids@[i] == terrain_cell(heights@, terrain, i),
            decreases 32 - y,
        {
            let mut x: usize = 0;
            while x < 32
                invariant
                    0 <= z < 32,
                    y < 32,
                    x <= 32,
                    ids@.len() == 1024 * z + 32 * y + x,
                    forall|i: int|
                        0 <= i < ids@.len() ==> ids@[i] == terrain_cell(heights@, terrain, i),
                decreases 32 - x,
            {
                let height = heights[x + 32 * y];
                let id = if z <= height.floor {
                    terrain.get_block_type(height)
                } else {
                    0
                };
                ids.push(id);
                x += 1;
            }
            y += 1;
        }
        z += 1;
    }
    assert(ids@ =~= terrain_of(heights@, terrain));
    ids
}

} // verus!
