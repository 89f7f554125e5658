//! Chunks as the server holds them: generated once, then served from the
//! cache.

use vstd::prelude::*;
use std::collections::HashMap;
use crate::client::chunk::{grid_view, BlockGrid};
use crate::coords::{
    chunk_key, coord_in_range, key_of, lemma_key_injective, lemma_key_round_trip, ChunkCoord,
};
use crate::packet::{ServerPacket, ServerPacketView};

verus! {

/// A source of terrain: fills the blocks of any chunk on request.
pub trait ChunkGenerator: Sized {
    /// Whether `blocks` is a grid that this generator, in the state it is
    /// in, may make for the chunk at `(chunk_x, chunk_y, chunk_z)`. Each
    /// generator says for itself what it makes; one that says nothing may
    /// make any grid.
    open spec fn makes(
        &self,
        chunk_x: i32,
        chunk_y: i32,
        chunk_z: i32,
        blocks: Map<(int, int, int), u32>,
    ) -> bool {
        true
    }

    /// A generator for the world with the given seed.
    fn from_seed(seed: u32) -> Self;

    /// Makes the blocks of the chunk at `(chunk_x, chunk_y, chunk_z)`.
    fn generate(&mut self, chunk_x: i32, chunk_y: i32, chunk_z: i32) -> (blocks: Box<BlockGrid>)
        ensures
            old(self).makes(chunk_x, chunk_y, chunk_z, grid_view(*blocks)),
    ;
}

/// One generated chunk.
pub struct Chunk {
    chunk_x: i32,
    chunk_y: i32,
    chunk_z: i32,
    blocks: Box<BlockGrid>,
}

/// Mathematical content of a server-side [`Chunk`].
pub struct ChunkView {
    pub coord: ChunkCoord,
    pub blocks: Map<(int, int, int), u32>,
}

impl View for Chunk {
    type V = ChunkView;

    closed spec fn view(&self) -> ChunkView {
        ChunkView {
            coord: (self.chunk_x as int, self.chunk_y as int, self.chunk_z as int),
            blocks: grid_view(*self.blocks),
        }
    }
}

/// The packet that carries a chunk to a client.
pub open spec fn chunk_packet(chunk: ChunkView) -> ServerPacketView {
    ServerPacketView::ChunkData {
        x: chunk.coord.0 as i32,
        y: chunk.coord.1 as i32,
        z: chunk.coord.2 as i32,
        blocks: chunk.blocks,
    }
}

impl Chunk {
    /// The chunk at a coordinate, with the blocks that the generator makes
    /// for it.
    pub fn new<G>(gen: &mut G, chunk_x: i32, chunk_y: i32, chunk_z: i32) -> (chunk: Chunk) where
        G: ChunkGenerator,

        ensures
            chunk@.coord == (chunk_x as int, chunk_y as int, chunk_z as int),
            old(gen).makes(chunk_x, chunk_y, chunk_z, chunk@.blocks),
    {
        let blocks = gen.generate(chunk_x, chunk_y, chunk_z);
        Chunk::from_blocks(chunk_x, chunk_y, chunk_z, blocks)
    }

    /// The chunk at a coordinate, with the given blocks.
    pub fn from_blocks(chunk_x: i32, chunk_y: i32, chunk_z: i32, blocks: Box<BlockGrid>) -> (chunk:
        Chunk)
        ensures
            chunk@ == (ChunkView {
                coord: (chunk_x as int, chunk_y as int, chunk_z as int),
                blocks: grid_view(*blocks),
            }),
    {
        Chunk { chunk_x, chunk_y, chunk_z, blocks }
    }

    /// The packet that carries this chunk: its coordinate and a copy of all
    /// its blocks.
    pub fn into_packet(&self) -> (packet: ServerPacket)
        ensures
            packet@ == chunk_packet(self@),
    {
        ServerPacket::ChunkData {
            x: self.chunk_x,
            y: self.chunk_y,
            z: self.chunk_z,
            blocks: Box::new(*self.blocks),
        }
    }
}

/// The chunks generated so far, by coordinate.
pub struct ChunkCache {
    chunks: HashMap<u128, Chunk>,
}

impl View for ChunkCache {
    type V = Map<ChunkCoord, Map<(int, int, int), u32>>;

    closed spec fn view(&self) -> Map<ChunkCoord, Map<(int, int, int), u32>> {
        Map::new(
            |c: ChunkCoord| coord_in_range(c) && self.chunks@.contains_key(key_of(c) as u128),
            |c: ChunkCoord| self.chunks@[key_of(c) as u128]@.blocks,
        )
    }
}

/// The packet that carries the blocks of the chunk at `c`.
pub open spec fn blocks_packet(c: ChunkCoord, blocks: Map<(int, int, int), u32>) -> ServerPacketView {
    ServerPacketView::ChunkData { x: c.0 as i32, y: c.1 as i32, z: c.2 as i32, blocks }
}

impl ChunkCache {
    /// Validity: every cached chunk sits at its own coordinate.
    pub closed spec fn wf(&self) -> bool {
        forall|c: ChunkCoord|
            coord_in_range(c) && #[trigger] self.chunks@.contains_key(key_of(c) as u128)
                ==> self.chunks@[key_of(c) as u128]@.coord == c
    }

    /// A cache without chunks.
    pub fn new() -> (cache: ChunkCache)
        ensures
            cache.wf(),
            cache@ == Map::<ChunkCoord, Map<(int, int, int), u32>>::empty(),
    {
        let cache = ChunkCache { chunks: HashMap::new() };
        assert(cache@ =~= Map::<ChunkCoord, Map<(int, int, int), u32>>::empty());
        cache
    }

    /// Whether the chunk at a coordinate has been generated.
    pub fn contains(&self, x: i32, y: i32, z: i32) -> (cached: bool)
        ensures
            cached == self@.contains_key((x as int, y as int, z as int)),
    {
        broadcast use vstd::std_specs::hash::group_hash_axioms;
        let key: u128 = chunk_key(x, y, z);
        self.chunks.contains_key(&key)
    }

    /// The packet for the chunk at a coordinate, if the chunk has been
    /// generated.
    pub fn lookup(&self, x: i32, y: i32, z: i32) -> (packet: Option<ServerPacket>)
        requires
            self.wf(),
        ensures
            packet is Some <==> self@.contains_key((x as int, y as int, z as int)),
            packet matches Some(p) ==> p@ == blocks_packet(
                (x as int, y as int, z as int),
                self@[(x as int, y as int, z as int)],
            ),
    {
        broadcast use vstd::std_specs::hash::group_hash_axioms;
        let key: u128 = chunk_key(x, y, z);
        match self.chunks.get(&key) {
            Some(chunk) => Some(chunk.into_packet()),
            None => None,
        }
    }

    /// Caches freshly generated blocks for a coordinate and returns the
    /// packet that carries them.
    pub fn insert_generated(&mut self, x: i32, y: i32, z: i32, blocks: Box<BlockGrid>) -> (packet:
        ServerPacket)
        requires
            old(self).wf(),
        ensures
            final(self).wf(),
            final(self)@ == old(self)@.insert((x as int, y as int, z as int), grid_view(*blocks)),
            packet@ == blocks_packet((x as int, y as int, z as int), grid_view(*blocks)),
    {
        broadcast use vstd::std_specs::hash::group_hash_axioms;
        let key: u128 = chunk_key(x, y, z);
        let ghost c: ChunkCoord = (x as int, y as int, z as int);
        let chunk = Chunk::from_blocks(x, y, z, blocks);
        let packet = chunk.into_packet();
        self.chunks.insert(key, chunk);
        proof {
            assert forall|d: ChunkCoord| coord_in_range(d) && d != c implies key_of(d) as u128
                != key by {
                lemma_key_round_trip(d);
                if key_of(d) == key_of(c) {
                    lemma_key_injective(c, d);
                }
            }
            assert(self@ =~= old(self)@.insert(c, grid_view(*blocks)));
        }
        packet
    }

    /// Answers a request for the chunk at a coordinate. A chunk that has
    /// been generated before is served from the cache, and the generator is
    /// left untouched. Otherwise the generator is run, once, for that
    /// coordinate, and what it made is cached and served.
    pub fn serve<G>(&mut self, gen: &mut G, x: i32, y: i32, z: i32) -> (packet: ServerPacket) where
        G: ChunkGenerator,

        requires
            old(self).wf(),
        ensures
            final(self).wf(),
            final(self)@.contains_key((x as int, y as int, z as int)),
            packet@ == blocks_packet(
                (x as int, y as int, z as int),
                final(self)@[(x as int, y as int, z as int)],
            ),
            old(self)@.contains_key((x as int, y as int, z as int)) ==> final(self)@ == old(self)@
                && *final(gen) == *old(gen),
            !old(self)@.contains_key((x as int, y as int, z as int)) ==> final(self)@ == old(
                self,
            )@.insert(
                (x as int, y as int, z as int),
                final(self)@[(x as int, y as int, z as int)],
            ),
            !old(self)@.contains_key((x as int, y as int, z as int)) ==> old(gen).makes(
                x,
                y,
                z,
                final(self)@[(x as int, y as int, z as int)],
            ),
    {
        match self.lookup(x, y, z) {
            Some(packet) => packet,
            None => {
                let blocks = gen.generate(x, y, z);
                self.insert_generated(x, y, z, blocks)
            },
        }
    }
}

} // verus!
