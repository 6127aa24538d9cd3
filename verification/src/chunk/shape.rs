//! Row-major indexing of a chunk's blocks.

use vstd::prelude::*;

use crate::chunk::ChunkShape;

verus! {

/// Index of the block at `(x, y, z)` in a chunk's block array.
pub open spec fn block_index(x: int, y: int, z: int) -> int {
    x + 32 * y + 1024 * z
}

/// True when `(x, y, z)` names a block of a chunk.
pub open spec fn in_chunk(x: int, y: int, z: int) -> bool {
    0 <= x < 32 && 0 <= y < 32 && 0 <= z < 32
}

/// `ndshape::ConstShape::linearize` of `ConstShape3u32<32, 32, 32>`: the sum of each
/// coordinate times its stride, the strides being 1, 32 and 1024. The crate
/// adds the three terms with `+`, so the coordinates are kept inside the chunk,
/// where the sum cannot overflow.
#[verifier::external_body]
pub(crate) fn linearize(positions: [u32; 3]) -> (index: u32)
    requires
        in_chunk(positions[0] as int, positions[1] as int, positions[2] as int),
    ensures
        index == block_index(positions[0] as int, positions[1] as int, positions[2] as int),
{
    <ChunkShape as ndshape::ConstShape<3>>::linearize(positions)
}

/// `ndshape::ConstShape::delinearize` of `ConstShape3u32<32, 32, 32>`: `z` is the index
/// divided by 1024, `y` what is left divided by 32, `x` the index modulo 32.
#[verifier::external_body]
pub(crate) fn delinearize(index: u32) -> (positions: [u32; 3])
    ensures
        positions[0] == index % 32,
        positions[1] == (index % 1024) / 32,
        positions[2] == index / 1024,
{
    <ChunkShape as ndshape::ConstShape<3>>::delinearize(index)
}

/// The index of a block of a chunk comes apart into the block's coordinates.
pub proof fn lemma_block_index_parts(x: int, y: int, z: int)
    requires
        in_chunk(x, y, z),
    ensures
        0 <= block_index(x, y, z) < 32768,
        block_index(x, y, z) % 32 == x,
        (block_index(x, y, z) % 1024) / 32 == y,
        block_index(x, y, z) / 1024 == z,
{
}

/// Every index below the chunk's volume names one block of the chunk.
pub proof fn lemma_index_in_chunk(index: int)
    requires
        0 <= index < 32768,
    ensures
        in_chunk(index % 32, (index % 1024) / 32, index / 1024),
        block_index(index % 32, (index % 1024) / 32, index / 1024) == index,
{
}

} // verus!
