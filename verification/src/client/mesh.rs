//! What holds of every face list that mesh generation produces.

use vstd::prelude::*;
use crate::blocks::{FaceDirection, RegistryView};
use crate::client::chunk::{
    block_seen, cell_faces, chunk_at, face_if_visible, face_record, face_visible, in_chunk,
    is_resident, mesh_of, mesh_prefix, nth_cell_faces, ChunkView, InstanceData, WorldView,
};
use crate::coords::ChunkCoord;

verus! {

/// `face` is the record of a visible face of the block at `(x, y, z)`.
pub open spec fn is_visible_face(
    chunk: ChunkView,
    world: WorldView,
    registry: RegistryView,
    face: InstanceData,
    x: int,
    y: int,
    z: int,
    dir: FaceDirection,
) -> bool {
    &&& in_chunk(x, y, z)
    &&& face_visible(chunk, world, registry, x, y, z, dir)
    &&& face == face_record(chunk, registry, x, y, z, dir)
}

/// No block of the chunk is solid.
pub open spec fn all_air(chunk: ChunkView, registry: RegistryView) -> bool {
    forall|x: int, y: int, z: int|
        in_chunk(x, y, z) ==> !registry.is_solid(#[trigger] chunk.blocks[(x, y, z)])
}

/// Every block of the chunk is solid.
pub open spec fn all_solid(chunk: ChunkView, registry: RegistryView) -> bool {
    forall|x: int, y: int, z: int|
        in_chunk(x, y, z) ==> registry.is_solid(#[trigger] chunk.blocks[(x, y, z)])
}

/// The coordinate of the chunk that lies behind face `dir` of chunk `c`.
pub open spec fn neighbor_coord(c: ChunkCoord, dir: FaceDirection) -> ChunkCoord {
    (c.0 + dir.offset().0, c.1 + dir.offset().1, c.2 + dir.offset().2)
}

proof fn lemma_concat_contains<A>(a: Seq<A>, b: Seq<A>, v: A)
    ensures
        (a + b).contains(v) <==> a.contains(v) || b.contains(v),
{
    if a.contains(v) {
        let i = choose|i: int| 0 <= i < a.len() && a[i] == v;
        assert((a + b)[i] == v);
    }
    if b.contains(v) {
        let j = choose|j: int| 0 <= j < b.len() && b[j] == v;
        assert((a + b)[a.len() + j] == v);
    }
    if (a + b).contains(v) {
        let k = choose|k: int| 0 <= k < (a + b).len() && (a + b)[k] == v;
        if k < a.len() {
            assert(a[k] == v);
        } else {
            assert(b[k - a.len()] == v);
        }
    }
}

proof fn lemma_face_if_visible_contains(
    chunk: ChunkView,
    world: WorldView,
    registry: RegistryView,
    face: InstanceData,
    x: int,
    y: int,
    z: int,
    dir: FaceDirection,
)
    requires
        in_chunk(x, y, z),
    ensures
        face_if_visible(chunk, world, registry, x, y, z, dir).contains(face) <==> is_visible_face(
            chunk,
            world,
            registry,
            face,
            x,
            y,
            z,
            dir,
        ),
{
    let s = face_if_visible(chunk, world, registry, x, y, z, dir);
    if face_visible(chunk, world, registry, x, y, z, dir) {
        assert(s[0] == face_record(chunk, registry, x, y, z, dir));
    }
}

/// The faces of one block are exactly its visible faces.
pub proof fn lemma_cell_faces_contains(
    chunk: ChunkView,
    world: WorldView,
    registry: RegistryView,
    face: InstanceData,
    x: int,
    y: int,
    z: int,
)
    requires
        in_chunk(x, y, z),
    ensures
        cell_faces(chunk, world, registry, x, y, z).contains(face) <==> exists|dir: FaceDirection|
            is_visible_face(chunk, world, registry, face, x, y, z, dir),
{
    let up = face_if_visible(chunk, world, registry, x, y, z, FaceDirection::Up);
    let down = face_if_visible(chunk, world, registry, x, y, z, FaceDirection::Down);
    let right = face_if_visible(chunk, world, registry, x, y, z, FaceDirection::Right);
    let left = face_if_visible(chunk, world, registry, x, y, z, FaceDirection::Left);
    let front = face_if_visible(chunk, world, registry, x, y, z, FaceDirection::Front);
    let back = face_if_visible(chunk, world, registry, x, y, z, FaceDirection::Back);
    lemma_concat_contains(up, down, face);
    lemma_concat_contains(up + down, right, face);
    lemma_concat_contains(up + down + right, left, face);
    lemma_concat_contains(up + down + right + left, front, face);
    lemma_concat_contains(up + down + right + left + front, back, face);
    lemma_face_if_visible_contains(chunk, world, registry, face, x, y, z, FaceDirection::Up);
    lemma_face_if_visible_contains(chunk, world, registry, face, x, y, z, FaceDirection::Down);
    lemma_face_if_visible_contains(chunk, world, registry, face, x, y, z, FaceDirection::Right);
    lemma_face_if_visible_contains(chunk, world, registry, face, x, y, z, FaceDirection::Left);
    lemma_face_if_visible_contains(chunk, world, registry, face, x, y, z, FaceDirection::Front);
    lemma_face_if_visible_contains(chunk, world, registry, face, x, y, z, FaceDirection::Back);
    if exists|dir: FaceDirection| is_visible_face(chunk, world, registry, face, x, y, z, dir) {
        let dir = choose|dir: FaceDirection|
            is_visible_face(chunk, world, registry, face, x, y, z, dir);
        match dir {
            FaceDirection::Up => {},
            FaceDirection::Down => {},
            FaceDirection::Front => {},
            FaceDirection::Back => {},
            FaceDirection::Left => {},
            FaceDirection::Right => {},
        }
    }
}

proof fn lemma_prefix_contains(
    chunk: ChunkView,
    world: WorldView,
    registry: RegistryView,
    n: int,
    face: InstanceData,
)
    requires
        0 <= n,
    ensures
        mesh_prefix(chunk, world, registry, n).contains(face) <==> exists|m: int|
            0 <= m < n && #[trigger] nth_cell_faces(chunk, world, registry, m).contains(face),
    decreases n,
{
    if n > 0 {
        lemma_prefix_contains(chunk, world, registry, n - 1, face);
        lemma_concat_contains(
            mesh_prefix(chunk, world, registry, n - 1),
            nth_cell_faces(chunk, world, registry, n - 1),
            face,
        );
        if mesh_prefix(chunk, world, registry, n).contains(face) {
            if mesh_prefix(chunk, world, registry, n - 1).contains(face) {
                let m = choose|m: int|
                    0 <= m < n - 1 && #[trigger] nth_cell_faces(chunk, world, registry, m).contains(
                        face,
                    );
                assert(0 <= m < n && nth_cell_faces(chunk, world, registry, m).contains(face));
            } else {
                assert(nth_cell_faces(chunk, world, registry, n - 1).contains(face));
            }
        }
        if exists|m: int|
            0 <= m < n && #[trigger] nth_cell_faces(chunk, world, registry, m).contains(face) {
            let m = choose|m: int|
                0 <= m < n && #[trigger] nth_cell_faces(chunk, world, registry, m).contains(face);
            if m < n - 1 {
                assert(mesh_prefix(chunk, world, registry, n - 1).contains(face));
            }
        }
    } else {
        assert(mesh_prefix(chunk, world, registry, n) =~= Seq::<InstanceData>::empty());
    }
}

proof fn lemma_nth_cell_to_visible(
    chunk: ChunkView,
    world: WorldView,
    registry: RegistryView,
    m: int,
    face: InstanceData,
)
    requires
        0 <= m < 4096,
        nth_cell_faces(chunk, world, registry, m).contains(face),
    ensures
        exists|x: int, y: int, z: int, dir: FaceDirection|
            is_visible_face(chunk, world, registry, face, x, y, z, dir),
{
    let x = m / 256;
    let y = (m / 16) % 16;
    let z = m % 16;
    assert(in_chunk(x, y, z));
    lemma_cell_faces_contains(chunk, world, registry, face, x, y, z);
    let dir = choose|dir: FaceDirection|
        is_visible_face(chunk, world, registry, face, x, y, z, dir);
    assert(is_visible_face(chunk, world, registry, face, x, y, z, dir));
}

proof fn lemma_visible_to_nth_cell(
    chunk: ChunkView,
    world: WorldView,
    registry: RegistryView,
    face: InstanceData,
    x: int,
    y: int,
    z: int,
    dir: FaceDirection,
)
    requires
        is_visible_face(chunk, world, registry, face, x, y, z, dir),
    ensures
        0 <= x * 256 + y * 16 + z < 4096,
        nth_cell_faces(chunk, world, registry, x * 256 + y * 16 + z).contains(face),
{
    let m = x * 256 + y * 16 + z;
    assert(in_chunk(x, y, z));
    assert(m / 256 == x && (m / 16) % 16 == y && m % 16 == z);
    lemma_cell_faces_contains(chunk, world, registry, face, x, y, z);
}

/// The face list is exactly the visible skin of the chunk: a record is in it
/// if and only if it is the record of a face of a solid block of the chunk
/// that looks at a block which is not solid.
pub proof fn lemma_mesh_is_visible_skin(
    chunk: ChunkView,
    world: WorldView,
    registry: RegistryView,
    face: InstanceData,
)
    ensures
        mesh_of(chunk, world, registry).contains(face) <==> exists|
            x: int,
            y: int,
            z: int,
            dir: FaceDirection,
        | is_visible_face(chunk, world, registry, face, x, y, z, dir),
{
    lemma_prefix_contains(chunk, world, registry, 4096, face);
    if mesh_of(chunk, world, registry).contains(face) {
        let m = choose|m: int|
            0 <= m < 4096 && #[trigger] nth_cell_faces(chunk, world, registry, m).contains(face);
        lemma_nth_cell_to_visible(chunk, world, registry, m, face);
    }
    if exists|x: int, y: int, z: int, dir: FaceDirection|
        is_visible_face(chunk, world, registry, face, x, y, z, dir) {
        let (x, y, z, dir) = choose|x: int, y: int, z: int, dir: FaceDirection|
            is_visible_face(chunk, world, registry, face, x, y, z, dir);
        lemma_visible_to_nth_cell(chunk, world, registry, face, x, y, z, dir);
    }
}

/// A face list without members is empty.
proof fn lemma_empty_if_nothing_contained<A>(s: Seq<A>)
    requires
        forall|v: A| !s.contains(v),
    ensures
        s == Seq::<A>::empty(),
{
    if s.len() > 0 {
        assert(s.contains(s[0]));
    }
    assert(s =~= Seq::<A>::empty());
}

/// A chunk without a solid block has an empty face list.
pub proof fn lemma_air_chunk_has_no_faces(
    chunk: ChunkView,
    world: WorldView,
    registry: RegistryView,
)
    requires
        all_air(chunk, registry),
    ensures
        mesh_of(chunk, world, registry) == Seq::<InstanceData>::empty(),
{
    assert forall|face: InstanceData| !mesh_of(chunk, world, registry).contains(face) by {
        lemma_mesh_is_visible_skin(chunk, world, registry, face);
    }
    lemma_empty_if_nothing_contained(mesh_of(chunk, world, registry));
}

/// A chunk whose blocks are all air (identifier 0) has an empty face list,
/// whatever surrounds it.
pub proof fn lemma_zero_chunk_has_no_faces(
    chunk: ChunkView,
    world: WorldView,
    registry: RegistryView,
)
    requires
        registry.wf(),
        forall|x: int, y: int, z: int| in_chunk(x, y, z) ==> #[trigger] chunk.blocks[(x, y, z)] == 0,
    ensures
        mesh_of(chunk, world, registry) == Seq::<InstanceData>::empty(),
{
    lemma_air_chunk_has_no_faces(chunk, world, registry);
}

/// A chunk filled with solid blocks, whose six neighbours are held and
/// filled with solid blocks too, has an empty face list: no face between
/// two solid blocks is ever emitted.
pub proof fn lemma_buried_chunk_has_no_faces(
    chunk: ChunkView,
    world: WorldView,
    registry: RegistryView,
)
    requires
        all_solid(chunk, registry),
        forall|dir: FaceDirection|
            {
                let c = #[trigger] neighbor_coord(chunk.coord, dir);
                is_resident(world, c) && all_solid(chunk_at(world, c), registry)
            },
    ensures
        mesh_of(chunk, world, registry) == Seq::<InstanceData>::empty(),
{
    assert forall|face: InstanceData| !mesh_of(chunk, world, registry).contains(face) by {
        lemma_mesh_is_visible_skin(chunk, world, registry, face);
        assert forall|x: int, y: int, z: int, dir: FaceDirection|
            !is_visible_face(chunk, world, registry, face, x, y, z, dir) by {
            if in_chunk(x, y, z) {
                let (nx, ny, nz) = (x + dir.offset().0, y + dir.offset().1, z + dir.offset().2);
                if in_chunk(nx, ny, nz) {
                    assert(registry.is_solid(chunk.blocks[(nx, ny, nz)]));
                } else {
                    let c = neighbor_coord(chunk.coord, dir);
                    assert(c == (chunk.coord.0 + nx / 16, chunk.coord.1 + ny / 16, chunk.coord.2
                        + nz / 16));
                    assert(in_chunk(nx % 16, ny % 16, nz % 16));
                    assert(registry.is_solid(chunk_at(world, c).blocks[(nx % 16, ny % 16, nz % 16)]));
                }
            }
        }
    }
    lemma_empty_if_nothing_contained(mesh_of(chunk, world, registry));
}

/// At a chunk boundary the neighbour decides. A solid block on the highest
/// x layer of chunk `a`, facing a held neighbour `b` without solid blocks,
/// shows its face towards `b`; and `b`, holding no solid block, shows no
/// face at all.
pub proof fn lemma_boundary_face(
    a: ChunkView,
    b: ChunkView,
    world: WorldView,
    registry: RegistryView,
    y: int,
    z: int,
)
    requires
        0 <= y < 16,
        0 <= z < 16,
        registry.is_solid(a.blocks[(15, y, z)]),
        is_resident(world, (a.coord.0 + 1, a.coord.1, a.coord.2)),
        chunk_at(world, (a.coord.0 + 1, a.coord.1, a.coord.2)) == b,
        all_air(b, registry),
    ensures
        mesh_of(a, world, registry).contains(
            face_record(a, registry, 15, y, z, FaceDirection::Left),
        ),
        mesh_of(b, world, registry) == Seq::<InstanceData>::empty(),
{
    let face = face_record(a, registry, 15, y, z, FaceDirection::Left);
    lemma_mesh_is_visible_skin(a, world, registry, face);
    assert(!registry.is_solid(b.blocks[(0, y, z)]));
    assert(is_visible_face(a, world, registry, face, 15, y, z, FaceDirection::Left));
    lemma_air_chunk_has_no_faces(b, world, registry);
}

/// The six face records of the block at `(x, y, z)`, in the order in which
/// a face list holds them.
pub open spec fn six_faces(chunk: ChunkView, registry: RegistryView, x: int, y: int, z: int) -> Seq<
    InstanceData,
> {
    seq![
        face_record(chunk, registry, x, y, z, FaceDirection::Up),
        face_record(chunk, registry, x, y, z, FaceDirection::Down),
        face_record(chunk, registry, x, y, z, FaceDirection::Right),
        face_record(chunk, registry, x, y, z, FaceDirection::Left),
        face_record(chunk, registry, x, y, z, FaceDirection::Front),
        face_record(chunk, registry, x, y, z, FaceDirection::Back),
    ]
}

/// The block at `(x, y, z)` is solid, it is the only solid block of its
/// chunk, and none of the six blocks around it, in this chunk or across a
/// boundary, is solid.
pub open spec fn is_lone_block(
    chunk: ChunkView,
    world: WorldView,
    registry: RegistryView,
    x: int,
    y: int,
    z: int,
) -> bool {
    &&& in_chunk(x, y, z)
    &&& registry.is_solid(chunk.blocks[(x, y, z)])
    &&& forall|i: int, j: int, l: int|
        in_chunk(i, j, l) && (i, j, l) != (x, y, z) ==> !registry.is_solid(
            #[trigger] chunk.blocks[(i, j, l)],
        )
    &&& forall|dir: FaceDirection| #[trigger]
        face_visible(chunk, world, registry, x, y, z, dir)
}

proof fn lemma_prefix_of_one_cell(
    chunk: ChunkView,
    world: WorldView,
    registry: RegistryView,
    at: int,
    faces: Seq<InstanceData>,
    n: int,
)
    requires
        0 <= n,
        nth_cell_faces(chunk, world, registry, at) == faces,
        forall|m: int|
            0 <= m < n && m != at ==> #[trigger] nth_cell_faces(chunk, world, registry, m)
                == Seq::<InstanceData>::empty(),
    ensures
        mesh_prefix(chunk, world, registry, n) == (if 0 <= at < n {
            faces
        } else {
            Seq::<InstanceData>::empty()
        }),
    decreases n,
{
    if n > 0 {
        lemma_prefix_of_one_cell(chunk, world, registry, at, faces, n - 1);
        let before = mesh_prefix(chunk, world, registry, n - 1);
        let cell = nth_cell_faces(chunk, world, registry, n - 1);
        assert(mesh_prefix(chunk, world, registry, n) == before + cell);
        if n - 1 == at {
            assert(before + cell =~= cell);
        } else {
            assert(before + cell =~= before);
        }
    }
}

proof fn lemma_lone_cell(
    chunk: ChunkView,
    world: WorldView,
    registry: RegistryView,
    x: int,
    y: int,
    z: int,
)
    requires
        is_lone_block(chunk, world, registry, x, y, z),
    ensures
        cell_faces(chunk, world, registry, x, y, z) == six_faces(chunk, registry, x, y, z),
{
    assert(face_visible(chunk, world, registry, x, y, z, FaceDirection::Up));
    assert(face_visible(chunk, world, registry, x, y, z, FaceDirection::Down));
    assert(face_visible(chunk, world, registry, x, y, z, FaceDirection::Right));
    assert(face_visible(chunk, world, registry, x, y, z, FaceDirection::Left));
    assert(face_visible(chunk, world, registry, x, y, z, FaceDirection::Front));
    assert(face_visible(chunk, world, registry, x, y, z, FaceDirection::Back));
    assert(cell_faces(chunk, world, registry, x, y, z) =~= six_faces(chunk, registry, x, y, z));
}

proof fn lemma_air_cell(
    chunk: ChunkView,
    world: WorldView,
    registry: RegistryView,
    i: int,
    j: int,
    l: int,
)
    requires
        !registry.is_solid(chunk.blocks[(i, j, l)]),
    ensures
        cell_faces(chunk, world, registry, i, j, l) == Seq::<InstanceData>::empty(),
{
    assert(cell_faces(chunk, world, registry, i, j, l) =~= Seq::<InstanceData>::empty());
}

/// A solid block with nothing solid around it, in a chunk that holds no
/// other solid block, shows exactly its six faces, one in each direction,
/// each with the texture that the registry gives that face.
pub proof fn lemma_lone_block_has_six_faces(
    chunk: ChunkView,
    world: WorldView,
    registry: RegistryView,
    x: int,
    y: int,
    z: int,
)
    requires
        is_lone_block(chunk, world, registry, x, y, z),
    ensures
        mesh_of(chunk, world, registry) == six_faces(chunk, registry, x, y, z),
{
    let at = x * 256 + y * 16 + z;
    assert(at / 256 == x && (at / 16) % 16 == y && at % 16 == z);
    lemma_lone_cell(chunk, world, registry, x, y, z);
    assert forall|m: int| 0 <= m < 4096 && m != at implies #[trigger] nth_cell_faces(
        chunk,
        world,
        registry,
        m,
    ) == Seq::<InstanceData>::empty() by {
        let (i, j, l) = (m / 256, (m / 16) % 16, m % 16);
        assert(in_chunk(i, j, l) && (i, j, l) != (x, y, z));
        assert(!registry.is_solid(chunk.blocks[(i, j, l)]));
        lemma_air_cell(chunk, world, registry, i, j, l);
    }
    lemma_prefix_of_one_cell(
        chunk,
        world,
        registry,
        at,
        six_faces(chunk, registry, x, y, z),
        4096,
    );
}

/// The direction whose face comes at position `rank` among the faces of one
/// block: up, down, right, left, front, back.
pub open spec fn direction_at(rank: int) -> FaceDirection {
    if rank == 0 {
        FaceDirection::Up
    } else if rank == 1 {
        FaceDirection::Down
    } else if rank == 2 {
        FaceDirection::Right
    } else if rank == 3 {
        FaceDirection::Left
    } else if rank == 4 {
        FaceDirection::Front
    } else {
        FaceDirection::Back
    }
}

/// The visible faces of one block among its first `count` directions.
pub open spec fn cell_faces_upto(
    chunk: ChunkView,
    world: WorldView,
    registry: RegistryView,
    x: int,
    y: int,
    z: int,
    count: int,
) -> Seq<InstanceData>
    decreases count,
{
    if count <= 0 {
        Seq::empty()
    } else {
        cell_faces_upto(chunk, world, registry, x, y, z, count - 1) + face_if_visible(
            chunk,
            world,
            registry,
            x,
            y,
            z,
            direction_at(count - 1),
        )
    }
}

/// The record of the face at position `rank` among the faces of one block.
pub open spec fn ranked_record(
    chunk: ChunkView,
    registry: RegistryView,
    x: int,
    y: int,
    z: int,
    rank: int,
) -> InstanceData {
    face_record(chunk, registry, x, y, z, direction_at(rank))
}

/// The grid index of the block that a record names.
pub open spec fn record_cell(face: InstanceData) -> int {
    face.x_spec() * 256 + face.y_spec() * 16 + face.z_spec()
}

proof fn lemma_concat_no_duplicates<A>(a: Seq<A>, b: Seq<A>)
    requires
        a.no_duplicates(),
        b.no_duplicates(),
        forall|v: A| !(a.contains(v) && b.contains(v)),
    ensures
        (a + b).no_duplicates(),
{
    assert forall|i: int, j: int| 0 <= i < (a + b).len() && 0 <= j < (a + b).len() && i != j implies (
    a + b)[i] != (a + b)[j] by {
        if i < a.len() && j >= a.len() {
            assert(a.contains(a[i]) && b.contains(b[j - a.len()]));
        } else if j < a.len() && i >= a.len() {
            assert(a.contains(a[j]) && b.contains(b[i - a.len()]));
        }
    }
}

proof fn lemma_ranked_records_differ(
    chunk: ChunkView,
    registry: RegistryView,
    x: int,
    y: int,
    z: int,
    r: int,
    k: int,
)
    requires
        in_chunk(x, y, z),
        0 <= r < k < 6,
    ensures
        ranked_record(chunk, registry, x, y, z, r) != ranked_record(chunk, registry, x, y, z, k),
{
    let block = chunk.blocks[(x, y, z)];
    InstanceData::lemma_pack_unpack(
        direction_at(r),
        x,
        y,
        z,
        registry.face_texture(block, direction_at(r)),
    );
    InstanceData::lemma_pack_unpack(
        direction_at(k),
        x,
        y,
        z,
        registry.face_texture(block, direction_at(k)),
    );
}

proof fn lemma_cell_faces_upto(
    chunk: ChunkView,
    world: WorldView,
    registry: RegistryView,
    x: int,
    y: int,
    z: int,
    count: int,
)
    requires
        in_chunk(x, y, z),
        0 <= count <= 6,
    ensures
        cell_faces_upto(chunk, world, registry, x, y, z, count).no_duplicates(),
        forall|face: InstanceData|
            cell_faces_upto(chunk, world, registry, x, y, z, count).contains(face) ==> exists|
                r: int,
            | 0 <= r < count && face == #[trigger] ranked_record(chunk, registry, x, y, z, r),
    decreases count,
{
    if count > 0 {
        lemma_cell_faces_upto(chunk, world, registry, x, y, z, count - 1);
        let before = cell_faces_upto(chunk, world, registry, x, y, z, count - 1);
        let next = face_if_visible(chunk, world, registry, x, y, z, direction_at(count - 1));
        let record = ranked_record(chunk, registry, x, y, z, count - 1);
        assert forall|v: InstanceData| !(before.contains(v) && next.contains(v)) by {
            if before.contains(v) && next.contains(v) {
                let r = choose|r: int|
                    0 <= r < count - 1 && v == #[trigger] ranked_record(chunk, registry, x, y, z, r);
                let i = choose|i: int| 0 <= i < next.len() && next[i] == v;
                assert(v == record);
                lemma_ranked_records_differ(chunk, registry, x, y, z, r, count - 1);
            }
        }
        lemma_concat_no_duplicates(before, next);
        assert forall|face: InstanceData| (before + next).contains(face) implies exists|r: int|
            0 <= r < count && face == #[trigger] ranked_record(chunk, registry, x, y, z, r) by {
            lemma_concat_contains(before, next, face);
            if before.contains(face) {
                let r = choose|r: int|
                    0 <= r < count - 1 && face == #[trigger] ranked_record(
                        chunk,
                        registry,
                        x,
                        y,
                        z,
                        r,
                    );
                assert(0 <= r < count && face == ranked_record(chunk, registry, x, y, z, r));
            } else {
                let i = choose|i: int| 0 <= i < next.len() && next[i] == face;
                assert(face == ranked_record(chunk, registry, x, y, z, count - 1));
            }
        }
    }
}

proof fn lemma_cell_faces_in_ranks(
    chunk: ChunkView,
    world: WorldView,
    registry: RegistryView,
    x: int,
    y: int,
    z: int,
)
    ensures
        cell_faces(chunk, world, registry, x, y, z) == cell_faces_upto(
            chunk,
            world,
            registry,
            x,
            y,
            z,
            6,
        ),
{
    reveal_with_fuel(cell_faces_upto, 7);
    assert(cell_faces(chunk, world, registry, x, y, z) =~= cell_faces_upto(
        chunk,
        world,
        registry,
        x,
        y,
        z,
        6,
    ));
}

/// Every record among the faces of a block names that block.
proof fn lemma_cell_records_name_cell(
    chunk: ChunkView,
    world: WorldView,
    registry: RegistryView,
    m: int,
    face: InstanceData,
)
    requires
        0 <= m < 4096,
        nth_cell_faces(chunk, world, registry, m).contains(face),
    ensures
        record_cell(face) == m,
{
    let (x, y, z) = (m / 256, (m / 16) % 16, m % 16);
    assert(in_chunk(x, y, z));
    lemma_cell_faces_contains(chunk, world, registry, face, x, y, z);
    let dir = choose|dir: FaceDirection|
        is_visible_face(chunk, world, registry, face, x, y, z, dir);
    InstanceData::lemma_pack_unpack(
        dir,
        x,
        y,
        z,
        registry.face_texture(chunk.blocks[(x, y, z)], dir),
    );
}

proof fn lemma_prefix_no_duplicates(
    chunk: ChunkView,
    world: WorldView,
    registry: RegistryView,
    n: int,
)
    requires
        0 <= n <= 4096,
    ensures
        mesh_prefix(chunk, world, registry, n).no_duplicates(),
    decreases n,
{
    if n > 0 {
        lemma_prefix_no_duplicates(chunk, world, registry, n - 1);
        let before = mesh_prefix(chunk, world, registry, n - 1);
        let cell = nth_cell_faces(chunk, world, registry, n - 1);
        let m = n - 1;
        let (x, y, z) = (m / 256, (m / 16) % 16, m % 16);
        assert(in_chunk(x, y, z));
        lemma_cell_faces_in_ranks(chunk, world, registry, x, y, z);
        lemma_cell_faces_upto(chunk, world, registry, x, y, z, 6);
        assert forall|v: InstanceData| !(before.contains(v) && cell.contains(v)) by {
            if before.contains(v) && cell.contains(v) {
                lemma_prefix_contains(chunk, world, registry, n - 1, v);
                let earlier = choose|earlier: int|
                    0 <= earlier < n - 1 && #[trigger] nth_cell_faces(
                        chunk,
                        world,
                        registry,
                        earlier,
                    ).contains(v);
                lemma_cell_records_name_cell(chunk, world, registry, earlier, v);
                lemma_cell_records_name_cell(chunk, world, registry, m, v);
            }
        }
        lemma_concat_no_duplicates(before, cell);
    }
}

/// A face list holds no record twice.
pub proof fn lemma_mesh_has_no_duplicates(
    chunk: ChunkView,
    world: WorldView,
    registry: RegistryView,
)
    ensures
        mesh_of(chunk, world, registry).no_duplicates(),
{
    lemma_prefix_no_duplicates(chunk, world, registry, 4096);
}

/// No chunk that shares a face with `chunk` is held.
pub open spec fn stands_alone(chunk: ChunkView, world: WorldView) -> bool {
    forall|dir: FaceDirection| !is_resident(world, #[trigger] neighbor_coord(chunk.coord, dir))
}

/// How many of the two ends of an axis the offset `v` lies on.
pub open spec fn ends_touched(v: int) -> int {
    (if v == 0 {
        1int
    } else {
        0
    }) + (if v == 15 {
        1int
    } else {
        0
    })
}

/// How many of the first `n` blocks of a chunk, in the order of their grid
/// index, lie on one of the two outer layers across the x axis, counting a
/// block on both twice.
pub open spec fn skin_across_x(n: int) -> int {
    (if n < 256 {
        n
    } else {
        256
    }) + (if n > 3840 {
        n - 3840
    } else {
        0
    })
}

/// The same count for the two outer layers across the y axis.
pub open spec fn skin_across_y(n: int) -> int {
    32 * (n / 256) + (if n % 256 < 16 {
        n % 256
    } else {
        16
    }) + (if n % 256 > 240 {
        n % 256 - 240
    } else {
        0
    })
}

/// The same count for the two outer layers across the z axis.
pub open spec fn skin_across_z(n: int) -> int {
    2 * (n / 16) + (if n % 16 >= 1 {
        1int
    } else {
        0
    })
}

proof fn lemma_skin_step_x(m: int)
    requires
        0 <= m < 4096,
    ensures
        skin_across_x(m + 1) == skin_across_x(m) + ends_touched(m / 256),
{
}

proof fn lemma_skin_step_y(m: int)
    requires
        0 <= m < 4096,
    ensures
        skin_across_y(m + 1) == skin_across_y(m) + ends_touched((m / 16) % 16),
{
    let q = m / 256;
    let r = m % 256;
    assert(m == 256 * q + r);
    if r == 255 {
        assert((m + 1) / 256 == q + 1 && (m + 1) % 256 == 0);
    } else {
        assert((m + 1) / 256 == q && (m + 1) % 256 == r + 1);
    }
    assert((m / 16) % 16 == r / 16);
}

proof fn lemma_skin_step_z(m: int)
    requires
        0 <= m < 4096,
    ensures
        skin_across_z(m + 1) == skin_across_z(m) + ends_touched(m % 16),
{
    let q = m / 16;
    let r = m % 16;
    assert(m == 16 * q + r);
    if r == 15 {
        assert((m + 1) / 16 == q + 1 && (m + 1) % 16 == 0);
    } else {
        assert((m + 1) / 16 == q && (m + 1) % 16 == r + 1);
    }
}

proof fn lemma_skin_face(
    chunk: ChunkView,
    world: WorldView,
    registry: RegistryView,
    x: int,
    y: int,
    z: int,
    dir: FaceDirection,
)
    requires
        registry.wf(),
        all_solid(chunk, registry),
        stands_alone(chunk, world),
        in_chunk(x, y, z),
    ensures
        face_if_visible(chunk, world, registry, x, y, z, dir).len() == (if in_chunk(
            x + dir.offset().0,
            y + dir.offset().1,
            z + dir.offset().2,
        ) {
            0int
        } else {
            1
        }),
{
    let (nx, ny, nz) = (x + dir.offset().0, y + dir.offset().1, z + dir.offset().2);
    assert(registry.is_solid(chunk.blocks[(x, y, z)]));
    if in_chunk(nx, ny, nz) {
        assert(registry.is_solid(chunk.blocks[(nx, ny, nz)]));
    } else {
        let c = neighbor_coord(chunk.coord, dir);
        assert(c == (chunk.coord.0 + nx / 16, chunk.coord.1 + ny / 16, chunk.coord.2 + nz / 16));
        assert(!is_resident(world, c));
        assert(block_seen(chunk, world, nx, ny, nz) == 0);
        assert(!registry.is_solid(0));
    }
}

proof fn lemma_skin_cell(
    chunk: ChunkView,
    world: WorldView,
    registry: RegistryView,
    x: int,
    y: int,
    z: int,
)
    requires
        registry.wf(),
        all_solid(chunk, registry),
        stands_alone(chunk, world),
        in_chunk(x, y, z),
    ensures
        cell_faces(chunk, world, registry, x, y, z).len() == ends_touched(x) + ends_touched(y)
            + ends_touched(z),
{
    lemma_skin_face(chunk, world, registry, x, y, z, FaceDirection::Up);
    lemma_skin_face(chunk, world, registry, x, y, z, FaceDirection::Down);
    lemma_skin_face(chunk, world, registry, x, y, z, FaceDirection::Right);
    lemma_skin_face(chunk, world, registry, x, y, z, FaceDirection::Left);
    lemma_skin_face(chunk, world, registry, x, y, z, FaceDirection::Front);
    lemma_skin_face(chunk, world, registry, x, y, z, FaceDirection::Back);
}

proof fn lemma_skin_prefix(chunk: ChunkView, world: WorldView, registry: RegistryView, n: int)
    requires
        registry.wf(),
        all_solid(chunk, registry),
        stands_alone(chunk, world),
        0 <= n <= 4096,
    ensures
        mesh_prefix(chunk, world, registry, n).len() == skin_across_x(n) + skin_across_y(n)
            + skin_across_z(n),
    decreases n,
{
    if n > 0 {
        lemma_skin_prefix(chunk, world, registry, n - 1);
        let m = n - 1;
        let (x, y, z) = (m / 256, (m / 16) % 16, m % 16);
        assert(in_chunk(x, y, z));
        lemma_skin_cell(chunk, world, registry, x, y, z);
        lemma_skin_step_x(m);
        lemma_skin_step_y(m);
        lemma_skin_step_z(m);
        assert(mesh_prefix(chunk, world, registry, n).len() == mesh_prefix(
            chunk,
            world,
            registry,
            m,
        ).len() + nth_cell_faces(chunk, world, registry, m).len());
    }
}

/// A chunk filled with solid blocks that stands alone shows its whole outer
/// skin and nothing else: six sides of 16 by 16 faces, 1536 faces in all.
pub proof fn lemma_solid_chunk_alone_shows_its_skin(
    chunk: ChunkView,
    world: WorldView,
    registry: RegistryView,
)
    requires
        registry.wf(),
        all_solid(chunk, registry),
        stands_alone(chunk, world),
    ensures
        mesh_of(chunk, world, registry).len() == 1536,
{
    lemma_skin_prefix(chunk, world, registry, 4096);
}

} // verus!
