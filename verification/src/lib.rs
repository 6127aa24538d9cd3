//! Chunk streaming and meshing for a block world.
//!
//! The world is cut into chunks of 32 x 32 x 32 blocks. This crate holds the
//! chunk-id codec, the chunk store, the set of loaded chunks, the queue of
//! generated chunks, the terrain filler and the mesher, each with a contract
//! that Verus proves.

pub mod chunk;
pub mod material;
pub mod streaming;
pub mod terrain;
