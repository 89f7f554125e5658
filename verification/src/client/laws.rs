//! What holds of the chunk store across its operations.

use vstd::prelude::*;
use crate::blocks::RegistryView;
use crate::client::chunk::{chunk_at, in_chunk, is_pending, is_resident, SlotView, WorldView};
use crate::client::edit::{edit_spec, evict_spec};
use crate::client::remesh::{rebuild_outcome, rebuild_spec, MeshUpdate};
use crate::client::streaming::{
    install_spec, request_spec, resend_spec, resend_wanted, RESEND_INTERVAL_MS,
};
use crate::coords::ChunkCoord;

verus! {

/// Bringing a face list up to date a second time, with nothing invalidated
/// in between, does nothing: the store stays as the first time left it, the
/// face list with it, and the outcome is not `Rebuilt`.
pub proof fn lemma_rebuild_is_idempotent(world: WorldView, registry: RegistryView, c: ChunkCoord)
    ensures
        rebuild_spec(rebuild_spec(world, registry, c), registry, c) == rebuild_spec(
            world,
            registry,
            c,
        ),
        rebuild_outcome(rebuild_spec(world, registry, c), c) != MeshUpdate::Rebuilt,
        is_resident(world, c) ==> rebuild_outcome(rebuild_spec(world, registry, c), c)
            == MeshUpdate::Unchanged,
{
}

/// After a face list has been brought up to date, the chunk has one.
pub proof fn lemma_rebuild_leaves_mesh(world: WorldView, registry: RegistryView, c: ChunkCoord)
    requires
        is_resident(world, c),
    ensures
        is_resident(rebuild_spec(world, registry, c), c),
        chunk_at(rebuild_spec(world, registry, c), c).mesh is Some,
        chunk_at(rebuild_spec(world, registry, c), c).blocks == chunk_at(world, c).blocks,
{
}

/// Asking for a chunk that is already pending neither adds a slot nor
/// sends a request, and as long as the resend interval has not passed since
/// the request was sent, sending overdue requests again leaves it alone
/// too.
pub proof fn lemma_request_is_deduplicated(
    world: WorldView,
    c: ChunkCoord,
    sent_at: u64,
    now: u64,
)
    requires
        world.contains_key(c),
        world[c] == SlotView::Pending(sent_at),
        now - sent_at <= RESEND_INTERVAL_MS,
    ensures
        request_spec(world, c, now) == world,
        !resend_wanted(world, c, now),
        resend_spec(world, now)[c] == SlotView::Pending(sent_at),
{
}

/// A first request makes the coordinate pending; a second one changes
/// nothing.
pub proof fn lemma_second_request_changes_nothing(
    world: WorldView,
    c: ChunkCoord,
    first: u64,
    second: u64,
)
    ensures
        request_spec(world, c, first).contains_key(c),
        request_spec(request_spec(world, c, first), c, second) == request_spec(world, c, first),
{
}

/// Sending overdue requests again keeps every slot in its state: pending
/// stays pending, resident stays resident with the chunk untouched.
pub proof fn lemma_resend_keeps_states(world: WorldView, now: u64, c: ChunkCoord)
    ensures
        resend_spec(world, now).contains_key(c) == world.contains_key(c),
        is_resident(world, c) ==> resend_spec(world, now)[c] == world[c],
        is_pending(world, c) ==> is_pending(resend_spec(world, now), c),
{
}

/// Whether an edit at position `(x, y, z)` of the chunk at `c` touches the
/// boundary that `c` shares with the chunk at `k`.
pub open spec fn edit_touches(c: ChunkCoord, x: int, y: int, z: int, k: ChunkCoord) -> bool {
    ||| x == 0 && k == (c.0 - 1, c.1, c.2)
    ||| x == 15 && k == (c.0 + 1, c.1, c.2)
    ||| y == 0 && k == (c.0, c.1 - 1, c.2)
    ||| y == 15 && k == (c.0, c.1 + 1, c.2)
    ||| z == 0 && k == (c.0, c.1, c.2 - 1)
    ||| z == 15 && k == (c.0, c.1, c.2 + 1)
}

/// How far an edit reaches. The edited chunk gets the new block and loses
/// its caches. A held chunk that shares with it a boundary on which the
/// edited block lies loses its caches. Every other slot, diagonal
/// neighbours included, stays exactly as it was.
pub proof fn lemma_edit_reach(
    world: WorldView,
    c: ChunkCoord,
    x: int,
    y: int,
    z: int,
    block: u32,
    k: ChunkCoord,
)
    requires
        is_resident(world, c),
        in_chunk(x, y, z),
    ensures
        edit_spec(world, c, x, y, z, block).contains_key(k) == world.contains_key(k),
        k == c ==> edit_spec(world, c, x, y, z, block)[k] == SlotView::Resident(
            chunk_at(world, c).with_block(x, y, z, block),
        ),
        k != c && edit_touches(c, x, y, z, k) && is_resident(world, k) ==> edit_spec(
            world,
            c,
            x,
            y,
            z,
            block,
        )[k] == SlotView::Resident(chunk_at(world, k).invalidated()),
        k != c && world.contains_key(k) && !(edit_touches(c, x, y, z, k) && is_resident(world, k))
            ==> edit_spec(world, c, x, y, z, block)[k] == world[k],
{
}

/// What the arrival of a chunk changes. The pending coordinate becomes
/// resident with the blocks that arrived and nothing cached, the held
/// chunks that share a face with it lose their caches, and every other slot
/// stays exactly as it was.
pub proof fn lemma_install_reach(
    world: WorldView,
    c: ChunkCoord,
    blocks: Map<(int, int, int), u32>,
    k: ChunkCoord,
)
    requires
        is_pending(world, c),
    ensures
        install_spec(world, c, blocks).contains_key(k) == world.contains_key(k),
        k == c ==> {
            &&& is_resident(install_spec(world, c, blocks), c)
            &&& chunk_at(install_spec(world, c, blocks), c).blocks == blocks
            &&& chunk_at(install_spec(world, c, blocks), c).mesh is None
            &&& chunk_at(install_spec(world, c, blocks), c).lighting is None
        },
        k != c && shares_face(c, k) && is_resident(world, k) ==> install_spec(world, c, blocks)[k]
            == SlotView::Resident(chunk_at(world, k).invalidated()),
        k != c && world.contains_key(k) && !(shares_face(c, k) && is_resident(world, k))
            ==> install_spec(world, c, blocks)[k] == world[k],
{
}

/// Whether the chunks at `c` and `k` share a face.
pub open spec fn shares_face(c: ChunkCoord, k: ChunkCoord) -> bool {
    ||| k == (c.0 - 1, c.1, c.2)
    ||| k == (c.0 + 1, c.1, c.2)
    ||| k == (c.0, c.1 - 1, c.2)
    ||| k == (c.0, c.1 + 1, c.2)
    ||| k == (c.0, c.1, c.2 - 1)
    ||| k == (c.0, c.1, c.2 + 1)
}

/// What dropping a chunk changes. The chunk's slot is gone, the held chunks
/// that share a face with it lose their caches, and every other slot stays
/// exactly as it was.
pub proof fn lemma_evict_reach(world: WorldView, c: ChunkCoord, k: ChunkCoord)
    requires
        is_resident(world, c),
    ensures
        !evict_spec(world, c).contains_key(c),
        k != c ==> evict_spec(world, c).contains_key(k) == world.contains_key(k),
        k != c && shares_face(c, k) && is_resident(world, k) ==> evict_spec(world, c)[k]
            == SlotView::Resident(chunk_at(world, k).invalidated()),
        k != c && world.contains_key(k) && !(shares_face(c, k) && is_resident(world, k))
            ==> evict_spec(world, c)[k] == world[k],
{
}

} // verus!
