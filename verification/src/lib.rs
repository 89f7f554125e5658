//! A voxel world in chunks: the blocks and the registry that names them, the
//! face lists that make a chunk's visible surface, the client's chunk store
//! with its requests, edits and caches, and the server that generates each
//! chunk once and serves it from then on.

use vstd::prelude::*;

pub mod blocks;
pub mod chunk;
pub mod client;
pub mod collision;
pub mod coords;
pub mod packet;
pub mod server;

verus! {

/// Edge length of a chunk, in blocks. The contracts of this crate write the
/// length, the last offset 15, the layer size 256 and the chunk volume 4096
/// as literals.
pub const CHUNK_SIZE: usize = 16;

} // verus!
