//! What the collision tests of the world's shapes have in common.

use vstd::prelude::*;
use crate::blocks::Block;

verus! {

/// A grid of blocks that can be asked for the block at a position.
pub trait Chunk {
    fn get_block(&self, x: usize, y: usize, z: usize) -> Block;
}

/// A shape that can tell whether it touches a shape of another kind.
pub trait DetectCollision<Other> {
    fn is_colliding(&self, other: &Other) -> bool;
}

} // verus!
