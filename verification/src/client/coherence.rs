//! Why the invalidation rules are enough: a cached face list is always the
//! face list that generating it afresh would give.

use vstd::prelude::*;
use crate::blocks::{FaceDirection, RegistryView};
use crate::client::chunk::{
    block_seen, chunk_at, face_if_visible, in_chunk, is_pending, is_resident, mesh_of,
    mesh_prefix, nth_cell_faces, ChunkView, SlotView, WorldView,
};
use crate::client::edit::{edit_spec, evict_spec};
use crate::client::laws::{
    edit_touches, lemma_edit_reach, lemma_evict_reach, lemma_install_reach, shares_face,
};
use crate::client::lighting::{light_spec, relight_spec};
use crate::client::mesh::neighbor_coord;
use crate::client::region::region_spec;
use crate::client::remesh::{rebuild_spec, remesh_spec, remesh_step};
use crate::client::store::world_wf;
use crate::client::streaming::{install_spec, receive_spec, request_spec, resend_spec};
use crate::packet::ServerPacketView;
use crate::coords::ChunkCoord;

verus! {

/// Every cached face list is the face list of its chunk in the store as it
/// is now.
pub open spec fn coherent(world: WorldView, registry: RegistryView) -> bool {
    forall|c: ChunkCoord| #[trigger]
        is_resident(world, c) ==> (chunk_at(world, c).mesh matches Some(mesh) ==> mesh == mesh_of(
            chunk_at(world, c),
            world,
            registry,
        ))
}

/// The block at position `p` of the chunk at `c`; air when the chunk is not
/// held.
pub open spec fn held_block(world: WorldView, c: ChunkCoord, p: (int, int, int)) -> u32 {
    if is_resident(world, c) {
        chunk_at(world, c).blocks[p]
    } else {
        0
    }
}

/// Whether position `p` of a neighbouring chunk lies on the layer that
/// touches the face `dir` of the chunk it is a neighbour of.
pub open spec fn on_facing_layer(dir: FaceDirection, p: (int, int, int)) -> bool {
    match dir {
        FaceDirection::Up => p.1 == 0,
        FaceDirection::Down => p.1 == 15,
        FaceDirection::Front => p.2 == 15,
        FaceDirection::Back => p.2 == 0,
        FaceDirection::Left => p.0 == 0,
        FaceDirection::Right => p.0 == 15,
    }
}

/// The chunk at `k` is surrounded by the same blocks in both stores: the
/// layers of its six neighbours that touch it agree.
pub open spec fn same_surroundings(before: WorldView, after: WorldView, k: ChunkCoord) -> bool {
    forall|dir: FaceDirection, p: (int, int, int)|
        in_chunk(p.0, p.1, p.2) && on_facing_layer(dir, p) ==> #[trigger] held_block(
            before,
            neighbor_coord(k, dir),
            p,
        ) == held_block(after, neighbor_coord(k, dir), p)
}

proof fn lemma_same_face(
    a: ChunkView,
    wa: WorldView,
    b: ChunkView,
    wb: WorldView,
    registry: RegistryView,
    x: int,
    y: int,
    z: int,
    dir: FaceDirection,
)
    requires
        in_chunk(x, y, z),
        a.coord == b.coord,
        forall|i: int, j: int, l: int| in_chunk(i, j, l) ==> a.blocks[(i, j, l)] == b.blocks[(i, j, l)],
        same_surroundings(wa, wb, a.coord),
    ensures
        face_if_visible(a, wa, registry, x, y, z, dir) == face_if_visible(
            b,
            wb,
            registry,
            x,
            y,
            z,
            dir,
        ),
{
    let (nx, ny, nz) = (x + dir.offset().0, y + dir.offset().1, z + dir.offset().2);
    if !in_chunk(nx, ny, nz) {
        let c = neighbor_coord(a.coord, dir);
        let p = (nx % 16, ny % 16, nz % 16);
        assert(c == (a.coord.0 + nx / 16, a.coord.1 + ny / 16, a.coord.2 + nz / 16));
        assert(in_chunk(p.0, p.1, p.2) && on_facing_layer(dir, p));
        assert(held_block(wa, neighbor_coord(a.coord, dir), p) == held_block(
            wb,
            neighbor_coord(a.coord, dir),
            p,
        ));
        assert(block_seen(a, wa, nx, ny, nz) == held_block(wa, c, p));
        assert(block_seen(b, wb, nx, ny, nz) == held_block(wb, c, p));
    } else {
        assert(a.blocks[(nx, ny, nz)] == b.blocks[(nx, ny, nz)]);
    }
    assert(a.blocks[(x, y, z)] == b.blocks[(x, y, z)]);
}

proof fn lemma_same_prefix(
    a: ChunkView,
    wa: WorldView,
    b: ChunkView,
    wb: WorldView,
    registry: RegistryView,
    n: int,
)
    requires
        0 <= n <= 4096,
        a.coord == b.coord,
        forall|i: int, j: int, l: int| in_chunk(i, j, l) ==> a.blocks[(i, j, l)] == b.blocks[(i, j, l)],
        same_surroundings(wa, wb, a.coord),
    ensures
        mesh_prefix(a, wa, registry, n) == mesh_prefix(b, wb, registry, n),
    decreases n,
{
    if n > 0 {
        lemma_same_prefix(a, wa, b, wb, registry, n - 1);
        let m = n - 1;
        let (x, y, z) = (m / 256, (m / 16) % 16, m % 16);
        assert(in_chunk(x, y, z));
        lemma_same_face(a, wa, b, wb, registry, x, y, z, FaceDirection::Up);
        lemma_same_face(a, wa, b, wb, registry, x, y, z, FaceDirection::Down);
        lemma_same_face(a, wa, b, wb, registry, x, y, z, FaceDirection::Right);
        lemma_same_face(a, wa, b, wb, registry, x, y, z, FaceDirection::Left);
        lemma_same_face(a, wa, b, wb, registry, x, y, z, FaceDirection::Front);
        lemma_same_face(a, wa, b, wb, registry, x, y, z, FaceDirection::Back);
        assert(nth_cell_faces(a, wa, registry, m) == nth_cell_faces(b, wb, registry, m));
    }
}

/// The face list of a chunk depends on nothing but the chunk's own blocks
/// and the layers of its six neighbours that touch it. Two chunks at the
/// same coordinate with the same blocks, in two stores that agree on those
/// layers, have the same face list.
pub proof fn lemma_mesh_depends_on_surroundings(
    a: ChunkView,
    wa: WorldView,
    b: ChunkView,
    wb: WorldView,
    registry: RegistryView,
)
    requires
        a.coord == b.coord,
        forall|i: int, j: int, l: int| in_chunk(i, j, l) ==> a.blocks[(i, j, l)] == b.blocks[(i, j, l)],
        same_surroundings(wa, wb, a.coord),
    ensures
        mesh_of(a, wa, registry) == mesh_of(b, wb, registry),
{
    lemma_same_prefix(a, wa, b, wb, registry, 4096);
}

/// What a step from `before` to `after` must keep of the chunk at `k` for
/// its cached face list to stay right: if the chunk has a cached face list
/// afterwards, it was held before with the same blocks and surroundings,
/// and the face list is the one it had or the one generated for it.
pub open spec fn keeps_mesh_right(
    before: WorldView,
    after: WorldView,
    registry: RegistryView,
    k: ChunkCoord,
) -> bool {
    is_resident(after, k) && chunk_at(after, k).mesh is Some ==> {
        &&& is_resident(before, k)
        &&& chunk_at(after, k).blocks == chunk_at(before, k).blocks
        &&& chunk_at(after, k).mesh == chunk_at(before, k).mesh || chunk_at(after, k).mesh == Some(
            mesh_of(chunk_at(before, k), before, registry),
        )
        &&& same_surroundings(before, after, k)
    }
}

proof fn lemma_step_keeps_coherence(before: WorldView, after: WorldView, registry: RegistryView)
    requires
        world_wf(before),
        world_wf(after),
        coherent(before, registry),
        forall|k: ChunkCoord| #[trigger] keeps_mesh_right(before, after, registry, k),
    ensures
        coherent(after, registry),
{
    assert forall|c: ChunkCoord| #[trigger] is_resident(after, c) implies (chunk_at(
        after,
        c,
    ).mesh matches Some(mesh) ==> mesh == mesh_of(chunk_at(after, c), after, registry)) by {
        if chunk_at(after, c).mesh is Some {
            assert(keeps_mesh_right(before, after, registry, c));
            assert(is_resident(before, c));
            assert(before.contains_key(c) && after.contains_key(c));
            lemma_mesh_depends_on_surroundings(
                chunk_at(before, c),
                before,
                chunk_at(after, c),
                after,
                registry,
            );
        }
    }
}

/// Asking for a chunk keeps every cached face list right.
pub proof fn lemma_request_keeps_coherence(
    world: WorldView,
    registry: RegistryView,
    c: ChunkCoord,
    now: u64,
)
    requires
        world_wf(world),
        crate::coords::coord_in_range(c),
        coherent(world, registry),
    ensures
        world_wf(request_spec(world, c, now)),
        coherent(request_spec(world, c, now), registry),
{
    let after = request_spec(world, c, now);
    assert forall|k: ChunkCoord| #[trigger] keeps_mesh_right(world, after, registry, k) by {
        assert forall|dir: FaceDirection, p: (int, int, int)| #[trigger]
            held_block(world, neighbor_coord(k, dir), p) == held_block(
                after,
                neighbor_coord(k, dir),
                p,
            ) by {}
    }
    lemma_step_keeps_coherence(world, after, registry);
}

/// Sending overdue requests again keeps every cached face list right.
pub proof fn lemma_resend_keeps_coherence(world: WorldView, registry: RegistryView, now: u64)
    requires
        world_wf(world),
        coherent(world, registry),
    ensures
        world_wf(resend_spec(world, now)),
        coherent(resend_spec(world, now), registry),
{
    let after = resend_spec(world, now);
    assert forall|k: ChunkCoord| #[trigger] keeps_mesh_right(world, after, registry, k) by {
        assert forall|dir: FaceDirection, p: (int, int, int)| #[trigger]
            held_block(world, neighbor_coord(k, dir), p) == held_block(
                after,
                neighbor_coord(k, dir),
                p,
            ) by {}
    }
    lemma_step_keeps_coherence(world, after, registry);
}

/// Asking for a whole region keeps every cached face list right.
pub proof fn lemma_region_keeps_coherence(
    world: WorldView,
    registry: RegistryView,
    c: ChunkCoord,
    now: u64,
)
    requires
        world_wf(world),
        coherent(world, registry),
    ensures
        world_wf(region_spec(world, c, now)),
        coherent(region_spec(world, c, now), registry),
{
    let after = region_spec(world, c, now);
    assert forall|k: ChunkCoord| #[trigger] keeps_mesh_right(world, after, registry, k) by {
        assert forall|dir: FaceDirection, p: (int, int, int)| #[trigger]
            held_block(world, neighbor_coord(k, dir), p) == held_block(
                after,
                neighbor_coord(k, dir),
                p,
            ) by {}
    }
    lemma_step_keeps_coherence(world, after, registry);
}

/// Bringing a face list up to date keeps every cached face list right, the
/// new one included.
pub proof fn lemma_rebuild_keeps_coherence(world: WorldView, registry: RegistryView, c: ChunkCoord)
    requires
        world_wf(world),
        coherent(world, registry),
    ensures
        world_wf(rebuild_spec(world, registry, c)),
        coherent(rebuild_spec(world, registry, c), registry),
{
    let after = rebuild_spec(world, registry, c);
    assert forall|k: ChunkCoord| #[trigger] keeps_mesh_right(world, after, registry, k) by {
        assert forall|dir: FaceDirection, p: (int, int, int)| #[trigger]
            held_block(world, neighbor_coord(k, dir), p) == held_block(
                after,
                neighbor_coord(k, dir),
                p,
            ) by {}
    }
    lemma_step_keeps_coherence(world, after, registry);
}

/// Storing light values keeps every cached face list right.
pub proof fn lemma_light_keeps_coherence(
    world: WorldView,
    registry: RegistryView,
    c: ChunkCoord,
    lighting: Seq<u32>,
)
    requires
        world_wf(world),
        coherent(world, registry),
    ensures
        world_wf(light_spec(world, c, lighting)),
        coherent(light_spec(world, c, lighting), registry),
{
    let after = light_spec(world, c, lighting);
    assert forall|k: ChunkCoord| #[trigger] keeps_mesh_right(world, after, registry, k) by {
        assert forall|dir: FaceDirection, p: (int, int, int)| #[trigger]
            held_block(world, neighbor_coord(k, dir), p) == held_block(
                after,
                neighbor_coord(k, dir),
                p,
            ) by {}
    }
    lemma_step_keeps_coherence(world, after, registry);
}

/// Dropping the light values around a moved light keeps every cached face
/// list right.
pub proof fn lemma_relight_keeps_coherence(
    world: WorldView,
    registry: RegistryView,
    c: ChunkCoord,
    reach: int,
)
    requires
        world_wf(world),
        coherent(world, registry),
    ensures
        world_wf(relight_spec(world, c, reach)),
        coherent(relight_spec(world, c, reach), registry),
{
    let after = relight_spec(world, c, reach);
    assert forall|k: ChunkCoord| #[trigger] keeps_mesh_right(world, after, registry, k) by {
        assert forall|dir: FaceDirection, p: (int, int, int)| #[trigger]
            held_block(world, neighbor_coord(k, dir), p) == held_block(
                after,
                neighbor_coord(k, dir),
                p,
            ) by {}
    }
    lemma_step_keeps_coherence(world, after, registry);
}

/// Taking in a chunk keeps every cached face list right: the chunks whose
/// boundary faces the new chunk can change are exactly those that lose
/// their caches.
pub proof fn lemma_install_keeps_coherence(
    world: WorldView,
    registry: RegistryView,
    c: ChunkCoord,
    blocks: Map<(int, int, int), u32>,
)
    requires
        world_wf(world),
        coherent(world, registry),
    ensures
        world_wf(install_spec(world, c, blocks)),
        coherent(install_spec(world, c, blocks), registry),
{
    let after = install_spec(world, c, blocks);
    if is_pending(world, c) {
        assert forall|k: ChunkCoord| #[trigger] after.contains_key(k) implies {
            &&& crate::coords::coord_in_range(k)
            &&& after[k] matches SlotView::Resident(chunk) ==> chunk.wf() && chunk.coord == k
        } by {
            lemma_install_reach(world, c, blocks, k);
        }
        assert forall|k: ChunkCoord| #[trigger] keeps_mesh_right(world, after, registry, k) by {
            lemma_install_reach(world, c, blocks, k);
            if is_resident(after, k) && chunk_at(after, k).mesh is Some {
                assert(k != c && !shares_face(c, k));
                assert forall|dir: FaceDirection, p: (int, int, int)| #[trigger]
                    held_block(world, neighbor_coord(k, dir), p) == held_block(
                        after,
                        neighbor_coord(k, dir),
                        p,
                    ) by {
                    lemma_install_reach(world, c, blocks, neighbor_coord(k, dir));
                }
            }
        }
        lemma_step_keeps_coherence(world, after, registry);
    }
}

/// Dropping a chunk keeps every cached face list right.
pub proof fn lemma_evict_keeps_coherence(world: WorldView, registry: RegistryView, c: ChunkCoord)
    requires
        world_wf(world),
        coherent(world, registry),
    ensures
        world_wf(evict_spec(world, c)),
        coherent(evict_spec(world, c), registry),
{
    let after = evict_spec(world, c);
    if is_resident(world, c) {
        assert forall|k: ChunkCoord| #[trigger] after.contains_key(k) implies {
            &&& crate::coords::coord_in_range(k)
            &&& after[k] matches SlotView::Resident(chunk) ==> chunk.wf() && chunk.coord == k
        } by {
            lemma_evict_reach(world, c, k);
        }
        assert forall|k: ChunkCoord| #[trigger] keeps_mesh_right(world, after, registry, k) by {
            lemma_evict_reach(world, c, k);
            if is_resident(after, k) && chunk_at(after, k).mesh is Some {
                assert(k != c && !shares_face(c, k));
                assert forall|dir: FaceDirection, p: (int, int, int)| #[trigger]
                    held_block(world, neighbor_coord(k, dir), p) == held_block(
                        after,
                        neighbor_coord(k, dir),
                        p,
                    ) by {
                    lemma_evict_reach(world, c, neighbor_coord(k, dir));
                }
            }
        }
        lemma_step_keeps_coherence(world, after, registry);
    }
}

/// An edit keeps every cached face list right: the edited chunk loses its
/// face list, and so does every held chunk that can see the edited block
/// across a boundary.
pub proof fn lemma_edit_keeps_coherence(
    world: WorldView,
    registry: RegistryView,
    c: ChunkCoord,
    x: int,
    y: int,
    z: int,
    block: u32,
)
    requires
        world_wf(world),
        coherent(world, registry),
    ensures
        world_wf(edit_spec(world, c, x, y, z, block)),
        coherent(edit_spec(world, c, x, y, z, block), registry),
{
    let after = edit_spec(world, c, x, y, z, block);
    if is_resident(world, c) && in_chunk(x, y, z) {
        assert forall|k: ChunkCoord| #[trigger] after.contains_key(k) implies {
            &&& crate::coords::coord_in_range(k)
            &&& after[k] matches SlotView::Resident(chunk) ==> chunk.wf() && chunk.coord == k
        } by {
            lemma_edit_reach(world, c, x, y, z, block, k);
        }
        assert forall|k: ChunkCoord| #[trigger] keeps_mesh_right(world, after, registry, k) by {
            lemma_edit_reach(world, c, x, y, z, block, k);
            if is_resident(after, k) && chunk_at(after, k).mesh is Some {
                assert(k != c && !edit_touches(c, x, y, z, k));
                assert forall|dir: FaceDirection, p: (int, int, int)|
                    in_chunk(p.0, p.1, p.2) && on_facing_layer(dir, p) implies #[trigger] held_block(
                        world,
                        neighbor_coord(k, dir),
                        p,
                    ) == held_block(after, neighbor_coord(k, dir), p) by {
                    lemma_edit_reach(world, c, x, y, z, block, neighbor_coord(k, dir));
                    if neighbor_coord(k, dir) == c {
                        assert(p != (x, y, z));
                    }
                }
            }
        }
        lemma_step_keeps_coherence(world, after, registry);
    }
}

/// Taking in a packet from the server keeps every cached face list right.
pub proof fn lemma_receive_keeps_coherence(
    world: WorldView,
    registry: RegistryView,
    packet: ServerPacketView,
)
    requires
        world_wf(world),
        coherent(world, registry),
    ensures
        world_wf(receive_spec(world, packet)),
        coherent(receive_spec(world, packet), registry),
{
    match packet {
        ServerPacketView::ChunkData { x, y, z, blocks } => {
            lemma_install_keeps_coherence(world, registry, (x as int, y as int, z as int), blocks);
        },
        _ => {},
    }
}

/// Bringing a chunk and its neighbours up to date keeps every cached face
/// list right.
pub proof fn lemma_remesh_keeps_coherence(world: WorldView, registry: RegistryView, c: ChunkCoord)
    requires
        world_wf(world),
        coherent(world, registry),
    ensures
        world_wf(remesh_spec(world, registry, c).0),
        coherent(remesh_spec(world, registry, c).0, registry),
{
    let s0 = remesh_step((world, Seq::empty()), registry, c);
    lemma_rebuild_keeps_coherence(world, registry, c);
    let s1 = remesh_step(s0, registry, (c.0 - 1, c.1, c.2));
    lemma_rebuild_keeps_coherence(s0.0, registry, (c.0 - 1, c.1, c.2));
    let s2 = remesh_step(s1, registry, (c.0 + 1, c.1, c.2));
    lemma_rebuild_keeps_coherence(s1.0, registry, (c.0 + 1, c.1, c.2));
    let s3 = remesh_step(s2, registry, (c.0, c.1 - 1, c.2));
    lemma_rebuild_keeps_coherence(s2.0, registry, (c.0, c.1 - 1, c.2));
    let s4 = remesh_step(s3, registry, (c.0, c.1 + 1, c.2));
    lemma_rebuild_keeps_coherence(s3.0, registry, (c.0, c.1 + 1, c.2));
    let s5 = remesh_step(s4, registry, (c.0, c.1, c.2 - 1));
    lemma_rebuild_keeps_coherence(s4.0, registry, (c.0, c.1, c.2 - 1));
    lemma_rebuild_keeps_coherence(s5.0, registry, (c.0, c.1, c.2 + 1));
}

/// A store without slots has no cached face list to be wrong.
pub proof fn lemma_empty_is_coherent(registry: RegistryView)
    ensures
        world_wf(Map::<ChunkCoord, SlotView>::empty()),
        coherent(Map::<ChunkCoord, SlotView>::empty(), registry),
{
}

} // verus!
