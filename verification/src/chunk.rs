//! Random terrain: every block of a chunk drawn by the toss of a coin.

use vstd::prelude::*;
use crate::client::chunk::{grid_view, in_chunk, BlockGrid};
use crate::server::chunk::ChunkGenerator;

verus! {

/// What a block of random terrain can be.
#[derive(Copy, Clone, Debug, PartialEq, Eq, Structural)]
pub enum Block {
    Air,
    Solid,
}

impl Block {
    /// The block identifier that stands for this block in a grid.
    pub open spec fn id_spec(self) -> u32 {
        match self {
            Block::Air => 0,
            Block::Solid => 1,
        }
    }

    /// The block identifier that stands for this block in a grid.
    pub fn id(self) -> (id: u32)
        ensures
            id == self.id_spec(),
    {
        match self {
            Block::Air => 0,
            Block::Solid => 1,
        }
    }

    /// The block that a coin toss decides: solid on `true`.
    pub fn from_toss(toss: bool) -> (block: Block)
        ensures
            block == (if toss {
                Block::Solid
            } else {
                Block::Air
            }),
    {
        if toss {
            Block::Solid
        } else {
            Block::Air
        }
    }
}

/// Calls `rand::random` for a `bool`, drawn from the thread's generator.
/// Nothing is claimed of the outcome.
#[verifier::external_body]
fn coin_toss() -> bool {
    rand::random()
}

/// Whether every block of a grid is air or solid.
pub open spec fn is_coin_grid(blocks: Map<(int, int, int), u32>) -> bool {
    forall|x: int, y: int, z: int|
        in_chunk(x, y, z) ==> {
            let id = #[trigger] blocks[(x, y, z)];
            id == Block::Air.id_spec() || id == Block::Solid.id_spec()
        }
}

/// The blocks of a chunk, each one air or solid as a coin toss of its own
/// decided.
pub fn random_blocks() -> (blocks: Box<BlockGrid>)
    ensures
        is_coin_grid(grid_view(*blocks)),
{
    let mut blocks: Box<BlockGrid> = Box::new([[[0; 16]; 16]; 16]);
    let mut x: usize = 0;
    while x < 16
        invariant
            x <= 16,
            is_coin_grid(grid_view(*blocks)),
        decreases 16 - x,
    {
        let mut y: usize = 0;
        while y < 16
            invariant
                x < 16,
                y <= 16,
                is_coin_grid(grid_view(*blocks)),
            decreases 16 - y,
        {
            let mut z: usize = 0;
            while z < 16
                invariant
                    x < 16,
                    y < 16,
                    z <= 16,
                    is_coin_grid(grid_view(*blocks)),
                decreases 16 - z,
            {
                let ghost before = grid_view(*blocks);
                let block = Block::from_toss(coin_toss());
                blocks[x][y][z] = block.id();
                proof {
                    assert(grid_view(*blocks) =~= before.insert(
                        (x as int, y as int, z as int),
                        block.id_spec(),
                    ));
                    assert forall|i: int, j: int, k: int| in_chunk(i, j, k) implies ({
                        let id = #[trigger] grid_view(*blocks)[(i, j, k)];
                        id == Block::Air.id_spec() || id == Block::Solid.id_spec()
                    }) by {
                        if (i, j, k) != (x as int, y as int, z as int) {
                            assert(grid_view(*blocks)[(i, j, k)] == before[(i, j, k)]);
                        }
                    }
                }
                z = z + 1;
            }
            y = y + 1;
        }
        x = x + 1;
    }
    blocks
}

/// A generator of random terrain. It has no state and no seed: two chunks
/// made for the same coordinate differ.
pub struct RandomChunkGenerator;

impl ChunkGenerator for RandomChunkGenerator {
    /// Any grid of air and solid blocks, whatever the coordinate.
    open spec fn makes(
        &self,
        chunk_x: i32,
        chunk_y: i32,
        chunk_z: i32,
        blocks: Map<(int, int, int), u32>,
    ) -> bool {
        is_coin_grid(blocks)
    }

    fn from_seed(seed: u32) -> Self {
        RandomChunkGenerator
    }

    fn generate(&mut self, chunk_x: i32, chunk_y: i32, chunk_z: i32) -> (blocks: Box<BlockGrid>) {
        random_blocks()
    }
}

} // verus!
