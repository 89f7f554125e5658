//! Keeping the cached face lists of held chunks up to date.

use vstd::prelude::*;
use crate::blocks::{BlockRegistry, RegistryView};
use crate::client::chunk::{chunk_at, is_resident, mesh_of, InstanceData, SlotView, WorldView};
use crate::client::store::{coord_views, ChunkStore, ChunkWaiter};
use crate::coords::ChunkCoord;

verus! {

/// What a request to bring a chunk's face list up to date did.
#[derive(Copy, Clone, Debug, PartialEq, Eq, Structural)]
pub enum MeshUpdate {
    /// The chunk had no valid face list: one was generated and cached.
    Rebuilt,
    /// The cached face list was valid: nothing was done.
    Unchanged,
    /// The chunk is not held.
    Absent,
}

/// Whether the chunk at `c` is held and has no valid face list.
pub open spec fn needs_mesh(world: WorldView, c: ChunkCoord) -> bool {
    is_resident(world, c) && chunk_at(world, c).mesh is None
}

/// The store after the face list of the chunk at `c` has been brought up to
/// date: generated and cached if the chunk is held and had none.
pub open spec fn rebuild_spec(world: WorldView, registry: RegistryView, c: ChunkCoord) -> WorldView {
    if needs_mesh(world, c) {
        world.insert(
            c,
            SlotView::Resident(
                chunk_at(world, c).with_mesh(mesh_of(chunk_at(world, c), world, registry)),
            ),
        )
    } else {
        world
    }
}

/// What [`ChunkStore::rebuild_mesh`] reports for the chunk at `c`.
pub open spec fn rebuild_outcome(world: WorldView, c: ChunkCoord) -> MeshUpdate {
    if needs_mesh(world, c) {
        MeshUpdate::Rebuilt
    } else if is_resident(world, c) {
        MeshUpdate::Unchanged
    } else {
        MeshUpdate::Absent
    }
}

/// One step of bringing several chunks up to date: the store after the
/// chunk at `c` has been dealt with, and the coordinates rebuilt so far.
pub open spec fn remesh_step(
    state: (WorldView, Seq<ChunkCoord>),
    registry: RegistryView,
    c: ChunkCoord,
) -> (WorldView, Seq<ChunkCoord>) {
    if needs_mesh(state.0, c) {
        (rebuild_spec(state.0, registry, c), state.1.push(c))
    } else {
        state
    }
}

/// The store after the chunk at `c` and the six chunks that share a face
/// with it have been brought up to date, and the coordinates of those that
/// were rebuilt, in the order in which they were dealt with: the chunk
/// itself, then its neighbours down and up the x axis, the y axis and the
/// z axis.
pub open spec fn remesh_spec(world: WorldView, registry: RegistryView, c: ChunkCoord) -> (
    WorldView,
    Seq<ChunkCoord>,
) {
    let s0 = remesh_step((world, Seq::empty()), registry, c);
    let s1 = remesh_step(s0, registry, (c.0 - 1, c.1, c.2));
    let s2 = remesh_step(s1, registry, (c.0 + 1, c.1, c.2));
    let s3 = remesh_step(s2, registry, (c.0, c.1 - 1, c.2));
    let s4 = remesh_step(s3, registry, (c.0, c.1 + 1, c.2));
    let s5 = remesh_step(s4, registry, (c.0, c.1, c.2 - 1));
    remesh_step(s5, registry, (c.0, c.1, c.2 + 1))
}

impl ChunkStore {
    /// The cached face list of the chunk at `(x, y, z)`, if the chunk is
    /// held and its face list is valid.
    pub fn mesh(&self, x: i32, y: i32, z: i32) -> (mesh: Option<&Vec<InstanceData>>)
        ensures
            mesh is Some <==> is_resident(self@, (x as int, y as int, z as int)) && chunk_at(
                self@,
                (x as int, y as int, z as int),
            ).mesh is Some,
            mesh matches Some(m) ==> chunk_at(self@, (x as int, y as int, z as int)).mesh == Some(
                m@,
            ),
    {
        match self.get(x, y, z) {
            Some(ChunkWaiter::Resident(chunk)) => chunk.mesh(),
            _ => None,
        }
    }

    /// Brings the face list of the chunk at `(x, y, z)` up to date. A held
    /// chunk without a valid face list gets one generated and cached. A
    /// chunk whose face list is valid is left alone.
    pub fn rebuild_mesh(&mut self, registry: &BlockRegistry, x: i32, y: i32, z: i32) -> (update:
        MeshUpdate)
        requires
            old(self).wf(),
        ensures
            final(self).wf(),
            final(self)@ == rebuild_spec(old(self)@, registry@, (x as int, y as int, z as int)),
            update == rebuild_outcome(old(self)@, (x as int, y as int, z as int)),
    {
        let ghost c: ChunkCoord = (x as int, y as int, z as int);
        let mesh: Vec<InstanceData> = match self.get(x, y, z) {
            Some(ChunkWaiter::Resident(chunk)) => {
                if chunk.has_mesh() {
                    return MeshUpdate::Unchanged;
                }
                chunk.generate_mesh(self, registry)
            },
            _ => {
                return MeshUpdate::Absent;
            },
        };
        match self.take(x, y, z) {
            Some(ChunkWaiter::Resident(mut chunk)) => {
                chunk.set_mesh(mesh);
                self.put(x, y, z, ChunkWaiter::Resident(chunk));
                assert(self@ =~= rebuild_spec(old(self)@, registry@, c));
            },
            _ => {},
        }
        MeshUpdate::Rebuilt
    }

    /// One step of [`ChunkStore::remesh_around`]. The coordinate may lie
    /// outside the range that the store can hold.
    fn remesh_at(
        &mut self,
        registry: &BlockRegistry,
        x: i64,
        y: i64,
        z: i64,
        rebuilt: &mut Vec<(i32, i32, i32)>,
    )
        requires
            old(self).wf(),
        ensures
            final(self).wf(),
            (final(self)@, coord_views(final(rebuilt)@)) == remesh_step(
                (old(self)@, coord_views(old(rebuilt)@)),
                registry@,
                (x as int, y as int, z as int),
            ),
    {
        if x < i32::MIN as i64 || x > i32::MAX as i64 || y < i32::MIN as i64 || y > i32::MAX as i64
            || z < i32::MIN as i64 || z > i32::MAX as i64 {
            proof {
                self.lemma_coords_in_range();
            }
            return ;
        }
        let update = self.rebuild_mesh(registry, x as i32, y as i32, z as i32);
        if update == MeshUpdate::Rebuilt {
            rebuilt.push((x as i32, y as i32, z as i32));
            assert(coord_views(rebuilt@) =~= coord_views(old(rebuilt)@).push(
                (x as int, y as int, z as int),
            ));
        }
    }

    /// Brings up to date the face lists of the chunk at `(x, y, z)` and of
    /// the six chunks that share a face with it, and returns the
    /// coordinates of the chunks whose face list was rebuilt.
    pub fn remesh_around(&mut self, registry: &BlockRegistry, x: i32, y: i32, z: i32) -> (rebuilt:
        Vec<(i32, i32, i32)>)
        requires
            old(self).wf(),
        ensures
            final(self).wf(),
            (final(self)@, coord_views(rebuilt@)) == remesh_spec(
                old(self)@,
                registry@,
                (x as int, y as int, z as int),
            ),
    {
        let mut rebuilt: Vec<(i32, i32, i32)> = Vec::new();
        assert(coord_views(rebuilt@) =~= Seq::<ChunkCoord>::empty());
        self.remesh_at(registry, x as i64, y as i64, z as i64, &mut rebuilt);
        self.remesh_at(registry, x as i64 - 1, y as i64, z as i64, &mut rebuilt);
        self.remesh_at(registry, x as i64 + 1, y as i64, z as i64, &mut rebuilt);
        self.remesh_at(registry, x as i64, y as i64 - 1, z as i64, &mut rebuilt);
        self.remesh_at(registry, x as i64, y as i64 + 1, z as i64, &mut rebuilt);
        self.remesh_at(registry, x as i64, y as i64, z as i64 - 1, &mut rebuilt);
        self.remesh_at(registry, x as i64, y as i64, z as i64 + 1, &mut rebuilt);
        rebuilt
    }
}

} // verus!
