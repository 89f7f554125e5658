//! Edits to the blocks of held chunks, and dropping chunks from the store.

use vstd::prelude::*;
use crate::blocks::Block;
use crate::client::chunk::{block_seen, chunk_at, in_chunk, is_resident, SlotView, WorldView};
use crate::client::store::{ChunkStore, ChunkWaiter};
use crate::client::streaming::{invalidate_around, invalidate_one};
use crate::coords::ChunkCoord;

verus! {

/// The store after the caches of the chunk that lies across a boundary have
/// been dropped, where the edited position `offset` along one axis touches
/// that boundary: the chunk one step down the axis at offset 0, one step up
/// at offset 15, none in between. `step` is the unit step along the axis.
pub open spec fn invalidate_across(
    world: WorldView,
    c: ChunkCoord,
    offset: int,
    step: (int, int, int),
) -> WorldView {
    if offset == 0 {
        invalidate_one(world, (c.0 - step.0, c.1 - step.1, c.2 - step.2))
    } else if offset == 15 {
        invalidate_one(world, (c.0 + step.0, c.1 + step.1, c.2 + step.2))
    } else {
        world
    }
}

/// The store after the block at `(x, y, z)` of the chunk at `c` has been
/// set. The edit applies to a held chunk only. It drops the caches of that
/// chunk and, where the block lies on a boundary of the chunk, of the held
/// chunk across that boundary.
pub open spec fn edit_spec(world: WorldView, c: ChunkCoord, x: int, y: int, z: int, block: u32) -> WorldView {
    if is_resident(world, c) && in_chunk(x, y, z) {
        let edited = world.insert(
            c,
            SlotView::Resident(chunk_at(world, c).with_block(x, y, z, block)),
        );
        let across_x = invalidate_across(edited, c, x, (1, 0, 0));
        let across_y = invalidate_across(across_x, c, y, (0, 1, 0));
        invalidate_across(across_y, c, z, (0, 0, 1))
    } else {
        world
    }
}

/// The store after the chunk at `c` has been dropped from it: the held
/// chunks around it lose their caches, since their boundary faces now look
/// at air.
pub open spec fn evict_spec(world: WorldView, c: ChunkCoord) -> WorldView {
    if is_resident(world, c) {
        invalidate_around(world.remove(c), c)
    } else {
        world
    }
}

/// The block at an offset from the origin of the chunk at `c`, as that
/// chunk sees it; air when the chunk is not held.
pub open spec fn block_from(world: WorldView, c: ChunkCoord, x: int, y: int, z: int) -> u32 {
    if is_resident(world, c) {
        block_seen(chunk_at(world, c), world, x, y, z)
    } else {
        0
    }
}

impl ChunkStore {
    /// The block at an offset from the origin of the chunk at `(x, y, z)`.
    /// The offset may leave the chunk: the block then comes from the chunk
    /// that holds the position, and is air where no chunk is held.
    pub fn get_block(
        &self,
        x: i32,
        y: i32,
        z: i32,
        local_x: isize,
        local_y: isize,
        local_z: isize,
    ) -> (block: Block)
        requires
            self.wf(),
        ensures
            block.0 == block_from(
                self@,
                (x as int, y as int, z as int),
                local_x as int,
                local_y as int,
                local_z as int,
            ),
    {
        match self.get(x, y, z) {
            Some(ChunkWaiter::Resident(chunk)) => Block(
                chunk.get_block(self, local_x, local_y, local_z),
            ),
            _ => Block::air(),
        }
    }

    fn invalidate_boundary(
        &mut self,
        x: i32,
        y: i32,
        z: i32,
        offset: usize,
        step_x: i64,
        step_y: i64,
        step_z: i64,
    )
        requires
            old(self).wf(),
            0 <= step_x <= 1,
            0 <= step_y <= 1,
            0 <= step_z <= 1,
        ensures
            final(self).wf(),
            final(self)@ == invalidate_across(
                old(self)@,
                (x as int, y as int, z as int),
                offset as int,
                (step_x as int, step_y as int, step_z as int),
            ),
    {
        if offset == 0 {
            self.invalidate_at(x as i64 - step_x, y as i64 - step_y, z as i64 - step_z);
        } else if offset == 15 {
            self.invalidate_at(x as i64 + step_x, y as i64 + step_y, z as i64 + step_z);
        }
    }

    /// Sets one block of the chunk at `(x, y, z)`. The edit is applied, and
    /// `true` returned, only if the chunk is held and the position lies
    /// inside it; an edit to a chunk that is pending or was never asked for
    /// is ignored.
    pub fn set_block(
        &mut self,
        x: i32,
        y: i32,
        z: i32,
        local_x: usize,
        local_y: usize,
        local_z: usize,
        block: Block,
    ) -> (applied: bool)
        requires
            old(self).wf(),
        ensures
            final(self).wf(),
            final(self)@ == edit_spec(
                old(self)@,
                (x as int, y as int, z as int),
                local_x as int,
                local_y as int,
                local_z as int,
                block.0,
            ),
            applied == (is_resident(old(self)@, (x as int, y as int, z as int)) && in_chunk(
                local_x as int,
                local_y as int,
                local_z as int,
            )),
    {
        if local_x >= 16 || local_y >= 16 || local_z >= 16 {
            return false;
        }
        let resident: bool = match self.get(x, y, z) {
            Some(ChunkWaiter::Resident(_)) => true,
            _ => false,
        };
        if !resident {
            return false;
        }
        match self.take(x, y, z) {
            Some(ChunkWaiter::Resident(mut chunk)) => {
                chunk.set_block(local_x, local_y, local_z, block.0);
                self.put(x, y, z, ChunkWaiter::Resident(chunk));
                assert(self@ =~= old(self)@.insert(
                    (x as int, y as int, z as int),
                    SlotView::Resident(
                        chunk_at(old(self)@, (x as int, y as int, z as int)).with_block(
                            local_x as int,
                            local_y as int,
                            local_z as int,
                            block.0,
                        ),
                    ),
                ));
            },
            _ => {},
        }
        self.invalidate_boundary(x, y, z, local_x, 1, 0, 0);
        self.invalidate_boundary(x, y, z, local_y, 0, 1, 0);
        self.invalidate_boundary(x, y, z, local_z, 0, 0, 1);
        true
    }

    /// Places a block in the chunk at `(x, y, z)`, if that chunk is held.
    pub fn place_block(
        &mut self,
        x: i32,
        y: i32,
        z: i32,
        local_x: usize,
        local_y: usize,
        local_z: usize,
        block: Block,
    ) -> (applied: bool)
        requires
            old(self).wf(),
        ensures
            final(self).wf(),
            final(self)@ == edit_spec(
                old(self)@,
                (x as int, y as int, z as int),
                local_x as int,
                local_y as int,
                local_z as int,
                block.0,
            ),
            applied == (is_resident(old(self)@, (x as int, y as int, z as int)) && in_chunk(
                local_x as int,
                local_y as int,
                local_z as int,
            )),
    {
        self.set_block(x, y, z, local_x, local_y, local_z, block)
    }

    /// Removes a block from the chunk at `(x, y, z)`, if that chunk is held:
    /// air takes its place.
    pub fn remove_block(
        &mut self,
        x: i32,
        y: i32,
        z: i32,
        local_x: usize,
        local_y: usize,
        local_z: usize,
    ) -> (applied: bool)
        requires
            old(self).wf(),
        ensures
            final(self).wf(),
            final(self)@ == edit_spec(
                old(self)@,
                (x as int, y as int, z as int),
                local_x as int,
                local_y as int,
                local_z as int,
                0,
            ),
            applied == (is_resident(old(self)@, (x as int, y as int, z as int)) && in_chunk(
                local_x as int,
                local_y as int,
                local_z as int,
            )),
    {
        self.set_block(x, y, z, local_x, local_y, local_z, Block::air())
    }

    /// Drops the chunk at `(x, y, z)` from the store, if it is held, and
    /// with it the caches of the held chunks around it.
    pub fn evict(&mut self, x: i32, y: i32, z: i32) -> (evicted: bool)
        requires
            old(self).wf(),
        ensures
            final(self).wf(),
            final(self)@ == evict_spec(old(self)@, (x as int, y as int, z as int)),
            evicted == is_resident(old(self)@, (x as int, y as int, z as int)),
    {
        let resident: bool = match self.get(x, y, z) {
            Some(ChunkWaiter::Resident(_)) => true,
            _ => false,
        };
        if resident {
            let _ = self.take(x, y, z);
            self.invalidate_neighbors(x, y, z);
            true
        } else {
            false
        }
    }
}

} // verus!
