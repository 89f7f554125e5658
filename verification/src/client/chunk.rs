//! Chunks as the client holds them, and the face records that a chunk's
//! visible surface is made of.

use vstd::prelude::*;
use crate::blocks::{BlockRegistry, FaceDirection, RegistryView};
use crate::client::store::{ChunkStore, ChunkWaiter};
use crate::coords::{world_to_chunk, ChunkCoord, coord_in_range};
use crate::CHUNK_SIZE;

verus! {

/// One visible block face, packed for the renderer.
///
/// The first word holds the face direction in bits 0-3 and the block's
/// position in the chunk in bits 4-7 (x), 8-11 (y) and 12-15 (z); the second
/// word is the texture atlas slot.
#[derive(Copy, Clone, Debug)]
pub struct InstanceData {
    pub data: (u32, u32),
}

/// The first word of a face record.
pub open spec fn pack_face(dir: u32, x: u32, y: u32, z: u32) -> u32 {
    dir | (x << 4) | (y << 8) | (z << 12)
}

impl InstanceData {
    /// The record for face `dir` of the block at `(x, y, z)`.
    pub open spec fn pack(dir: FaceDirection, x: int, y: int, z: int, texture_index: u32) -> InstanceData {
        InstanceData {
            data: (pack_face(dir.index_spec() as u32, x as u32, y as u32, z as u32), texture_index),
        }
    }

    /// Table position of the direction that the record holds.
    pub open spec fn direction_spec(self) -> int {
        (self.data.0 & 0xf) as int
    }

    /// The x position that the record holds.
    pub open spec fn x_spec(self) -> int {
        ((self.data.0 >> 4) & 0xf) as int
    }

    /// The y position that the record holds.
    pub open spec fn y_spec(self) -> int {
        ((self.data.0 >> 8) & 0xf) as int
    }

    /// The z position that the record holds.
    pub open spec fn z_spec(self) -> int {
        ((self.data.0 >> 12) & 0xf) as int
    }

    /// Unpacking a record gives back what was packed, as long as the
    /// position lies inside a chunk.
    pub proof fn lemma_pack_unpack(dir: FaceDirection, x: int, y: int, z: int, texture_index: u32)
        requires
            0 <= x < 16,
            0 <= y < 16,
            0 <= z < 16,
        ensures
            Self::pack(dir, x, y, z, texture_index).direction_spec() == dir.index_spec(),
            Self::pack(dir, x, y, z, texture_index).x_spec() == x,
            Self::pack(dir, x, y, z, texture_index).y_spec() == y,
            Self::pack(dir, x, y, z, texture_index).z_spec() == z,
            Self::pack(dir, x, y, z, texture_index).data.1 == texture_index,
    {
        let d: u32 = dir.index_spec() as u32;
        let a: u32 = x as u32;
        let b: u32 = y as u32;
        let c: u32 = z as u32;
        assert(d < 6 && a < 16 && b < 16 && c < 16 ==> {
            &&& (d | (a << 4) | (b << 8) | (c << 12)) & 0xf == d
            &&& ((d | (a << 4) | (b << 8) | (c << 12)) >> 4) & 0xf == a
            &&& ((d | (a << 4) | (b << 8) | (c << 12)) >> 8) & 0xf == b
            &&& ((d | (a << 4) | (b << 8) | (c << 12)) >> 12) & 0xf == c
        }) by (bit_vector);
    }

    /// Packs a face record. Positions beyond 15 spill into the fields above
    /// them.
    pub fn new(dir: FaceDirection, x: u32, y: u32, z: u32, texture_index: u32) -> (face: InstanceData)
        ensures
            face.data == (pack_face(dir.index_spec() as u32, x, y, z), texture_index),
    {
        let dir: u32 = dir.index() as u32;
        InstanceData { data: (dir | (x << 4) | (y << 8) | (z << 12), texture_index) }
    }

    /// Table position of the face's direction.
    pub fn direction(&self) -> (d: u32)
        ensures
            d == self.direction_spec(),
    {
        self.data.0 & 0xf
    }

    /// The x position of the block, in the chunk.
    pub fn x(&self) -> (x: u32)
        ensures
            x == self.x_spec(),
    {
        (self.data.0 >> 4) & 0xf
    }

    /// The y position of the block, in the chunk.
    pub fn y(&self) -> (y: u32)
        ensures
            y == self.y_spec(),
    {
        (self.data.0 >> 8) & 0xf
    }

    /// The z position of the block, in the chunk.
    pub fn z(&self) -> (z: u32)
        ensures
            z == self.z_spec(),
    {
        (self.data.0 >> 12) & 0xf
    }

    /// The texture atlas slot of the face.
    pub fn texture_index(&self) -> (t: u32)
        ensures
            t == self.data.1,
    {
        self.data.1
    }
}

/// The blocks of one chunk, indexed `[x][y][z]`.
pub type BlockGrid = [[[u32; CHUNK_SIZE]; CHUNK_SIZE]; CHUNK_SIZE];

/// Positions that lie inside a chunk.
pub open spec fn in_chunk(x: int, y: int, z: int) -> bool {
    0 <= x < 16 && 0 <= y < 16 && 0 <= z < 16
}

/// A block grid as a map from in-chunk positions to block identifiers.
pub open spec fn grid_view(grid: BlockGrid) -> Map<(int, int, int), u32> {
    Map::new(
        |p: (int, int, int)| in_chunk(p.0, p.1, p.2),
        |p: (int, int, int)| grid[p.0][p.1][p.2],
    )
}

/// Mathematical content of a [`Chunk`].
pub struct ChunkView {
    pub coord: ChunkCoord,
    /// Block identifier at each in-chunk position.
    pub blocks: Map<(int, int, int), u32>,
    /// The cached face list, if it is valid.
    pub mesh: Option<Seq<InstanceData>>,
    /// The cached light value of each face of the mesh, if it is valid.
    pub lighting: Option<Seq<u32>>,
}

impl ChunkView {
    /// Validity: lighting is cached only for a cached mesh, one value per
    /// face.
    pub open spec fn wf(self) -> bool {
        &&& coord_in_range(self.coord)
        &&& self.lighting matches Some(l) ==> (self.mesh matches Some(m) && l.len() == m.len())
    }

    /// The chunk with both caches dropped.
    pub open spec fn invalidated(self) -> ChunkView {
        ChunkView { coord: self.coord, blocks: self.blocks, mesh: None, lighting: None }
    }

    /// The chunk after an edit: one block replaced, both caches dropped.
    pub open spec fn with_block(self, x: int, y: int, z: int, block: u32) -> ChunkView {
        ChunkView {
            coord: self.coord,
            blocks: self.blocks.insert((x, y, z), block),
            mesh: None,
            lighting: None,
        }
    }

    /// The chunk with a fresh mesh. Lighting belongs to the mesh it was
    /// computed from, so it is dropped.
    pub open spec fn with_mesh(self, mesh: Seq<InstanceData>) -> ChunkView {
        ChunkView { coord: self.coord, blocks: self.blocks, mesh: Some(mesh), lighting: None }
    }

    /// The chunk with its cached lighting dropped.
    pub open spec fn without_lighting(self) -> ChunkView {
        ChunkView { coord: self.coord, blocks: self.blocks, mesh: self.mesh, lighting: None }
    }

    /// The chunk with fresh lighting for its cached mesh.
    pub open spec fn with_lighting(self, lighting: Seq<u32>) -> ChunkView {
        ChunkView {
            coord: self.coord,
            blocks: self.blocks,
            mesh: self.mesh,
            lighting: Some(lighting),
        }
    }
}

/// Presence state of one chunk coordinate.
pub enum SlotView {
    /// Asked for at the given time (in milliseconds), not yet received.
    Pending(u64),
    Resident(ChunkView),
}

/// The store's content: the slot of each coordinate that has one.
pub type WorldView = Map<ChunkCoord, SlotView>;

/// Whether the chunk at `c` is held.
pub open spec fn is_resident(world: WorldView, c: ChunkCoord) -> bool {
    world.contains_key(c) && world[c] is Resident
}

/// Whether the chunk at `c` has been asked for and not yet received.
pub open spec fn is_pending(world: WorldView, c: ChunkCoord) -> bool {
    world.contains_key(c) && world[c] is Pending
}

/// The chunk held at `c`.
pub open spec fn chunk_at(world: WorldView, c: ChunkCoord) -> ChunkView
    recommends
        is_resident(world, c),
{
    world[c]->Resident_0
}

/// The block that a chunk sees at an offset from its own origin. Inside the
/// chunk that is the chunk's own block. Outside, it is the block of the
/// chunk that holds that position, or air when that chunk is not held.
pub open spec fn block_seen(chunk: ChunkView, world: WorldView, x: int, y: int, z: int) -> u32 {
    if in_chunk(x, y, z) {
        chunk.blocks[(x, y, z)]
    } else {
        let c = (chunk.coord.0 + x / 16, chunk.coord.1 + y / 16, chunk.coord.2 + z / 16);
        if is_resident(world, c) {
            chunk_at(world, c).blocks[(x % 16, y % 16, z % 16)]
        } else {
            0
        }
    }
}

/// A face is visible when its block is solid and the block it looks at is
/// not.
pub open spec fn face_visible(
    chunk: ChunkView,
    world: WorldView,
    registry: RegistryView,
    x: int,
    y: int,
    z: int,
    dir: FaceDirection,
) -> bool {
    &&& registry.is_solid(chunk.blocks[(x, y, z)])
    &&& !registry.is_solid(
        block_seen(chunk, world, x + dir.offset().0, y + dir.offset().1, z + dir.offset().2),
    )
}

/// The record of a face, with the texture that the registry gives it.
pub open spec fn face_record(
    chunk: ChunkView,
    registry: RegistryView,
    x: int,
    y: int,
    z: int,
    dir: FaceDirection,
) -> InstanceData {
    InstanceData::pack(dir, x, y, z, registry.face_texture(chunk.blocks[(x, y, z)], dir))
}

/// The record of a face if the face is visible, and nothing otherwise.
pub open spec fn face_if_visible(
    chunk: ChunkView,
    world: WorldView,
    registry: RegistryView,
    x: int,
    y: int,
    z: int,
    dir: FaceDirection,
) -> Seq<InstanceData> {
    if face_visible(chunk, world, registry, x, y, z, dir) {
        seq![face_record(chunk, registry, x, y, z, dir)]
    } else {
        Seq::empty()
    }
}

/// The visible faces of one block, in the order up, down, right, left,
/// front, back.
pub open spec fn cell_faces(
    chunk: ChunkView,
    world: WorldView,
    registry: RegistryView,
    x: int,
    y: int,
    z: int,
) -> Seq<InstanceData> {
    face_if_visible(chunk, world, registry, x, y, z, FaceDirection::Up) + face_if_visible(
        chunk,
        world,
        registry,
        x,
        y,
        z,
        FaceDirection::Down,
    ) + face_if_visible(chunk, world, registry, x, y, z, FaceDirection::Right) + face_if_visible(
        chunk,
        world,
        registry,
        x,
        y,
        z,
        FaceDirection::Left,
    ) + face_if_visible(chunk, world, registry, x, y, z, FaceDirection::Front) + face_if_visible(
        chunk,
        world,
        registry,
        x,
        y,
        z,
        FaceDirection::Back,
    )
}

/// The visible faces of the block with grid index `n`, where the block at
/// `(x, y, z)` has grid index `(x * 16 + y) * 16 + z`.
pub open spec fn nth_cell_faces(
    chunk: ChunkView,
    world: WorldView,
    registry: RegistryView,
    n: int,
) -> Seq<InstanceData> {
    cell_faces(chunk, world, registry, n / 256, (n / 16) % 16, n % 16)
}

/// The visible faces of the first `n` blocks of a chunk, in the order of
/// their grid index.
pub open spec fn mesh_prefix(
    chunk: ChunkView,
    world: WorldView,
    registry: RegistryView,
    n: int,
) -> Seq<InstanceData>
    decreases n,
{
    if n <= 0 {
        Seq::empty()
    } else {
        mesh_prefix(chunk, world, registry, n - 1) + nth_cell_faces(chunk, world, registry, n - 1)
    }
}

/// The face list of a chunk: every visible face of every block.
pub open spec fn mesh_of(chunk: ChunkView, world: WorldView, registry: RegistryView) -> Seq<
    InstanceData,
> {
    mesh_prefix(chunk, world, registry, 4096)
}

/// Appending six sequences one after the other appends their concatenation.
proof fn lemma_append_six<A>(
    base: Seq<A>,
    a: Seq<A>,
    b: Seq<A>,
    c: Seq<A>,
    d: Seq<A>,
    e: Seq<A>,
    f: Seq<A>,
)
    ensures
        base + a + b + c + d + e + f == base + (a + b + c + d + e + f),
{
    assert(base + a + b + c + d + e + f =~= base + (a + b + c + d + e + f));
}

/// Taking one more block into the prefix adds that block's faces.
pub proof fn lemma_mesh_prefix_step(
    chunk: ChunkView,
    world: WorldView,
    registry: RegistryView,
    x: int,
    y: int,
    z: int,
)
    requires
        in_chunk(x, y, z),
    ensures
        mesh_prefix(chunk, world, registry, x * 256 + y * 16 + z + 1) == mesh_prefix(
            chunk,
            world,
            registry,
            x * 256 + y * 16 + z,
        ) + cell_faces(chunk, world, registry, x, y, z),
{
    let n = x * 256 + y * 16 + z;
    assert(n / 256 == x && (n / 16) % 16 == y && n % 16 == z);
}

/// One chunk of the world: its blocks, and what was derived from them.
pub struct Chunk {
    chunk_x: i32,
    chunk_y: i32,
    chunk_z: i32,
    blocks: Box<BlockGrid>,
    cached_mesh: Option<Vec<InstanceData>>,
    cached_lighting: Option<Vec<u32>>,
}

impl View for Chunk {
    type V = ChunkView;

    closed spec fn view(&self) -> ChunkView {
        ChunkView {
            coord: (self.chunk_x as int, self.chunk_y as int, self.chunk_z as int),
            blocks: grid_view(*self.blocks),
            mesh: match self.cached_mesh {
                Some(mesh) => Some(mesh@),
                None => None,
            },
            lighting: match self.cached_lighting {
                Some(lighting) => Some(lighting@),
                None => None,
            },
        }
    }
}

impl Chunk {
    /// Validity: see [`ChunkView::wf`].
    pub open spec fn wf(&self) -> bool {
        self@.wf()
    }

    /// A chunk with the given blocks and nothing cached.
    pub fn from_data(chunk_x: i32, chunk_y: i32, chunk_z: i32, blocks: Box<BlockGrid>) -> (chunk:
        Chunk)
        ensures
            chunk.wf(),
            chunk@ == (ChunkView {
                coord: (chunk_x as int, chunk_y as int, chunk_z as int),
                blocks: grid_view(*blocks),
                mesh: None,
                lighting: None,
            }),
    {
        Chunk { chunk_x, chunk_y, chunk_z, blocks, cached_mesh: None, cached_lighting: None }
    }

    /// The chunk's index along the x axis.
    pub fn chunk_x(&self) -> (x: i32)
        ensures
            x == self@.coord.0,
    {
        self.chunk_x
    }

    /// The chunk's index along the y axis.
    pub fn chunk_y(&self) -> (y: i32)
        ensures
            y == self@.coord.1,
    {
        self.chunk_y
    }

    /// The chunk's index along the z axis.
    pub fn chunk_z(&self) -> (z: i32)
        ensures
            z == self@.coord.2,
    {
        self.chunk_z
    }

    /// The chunk's blocks.
    pub fn blocks(&self) -> (blocks: &BlockGrid)
        ensures
            grid_view(*blocks) == self@.blocks,
    {
        &*self.blocks
    }

    /// The chunk's own block at an in-chunk position.
    pub fn block(&self, x: usize, y: usize, z: usize) -> (block: u32)
        requires
            in_chunk(x as int, y as int, z as int),
        ensures
            block == self@.blocks[(x as int, y as int, z as int)],
    {
        self.blocks[x][y][z]
    }

    /// The cached face list, if it is valid.
    pub fn mesh(&self) -> (mesh: Option<&Vec<InstanceData>>)
        ensures
            mesh is Some <==> self@.mesh is Some,
            mesh matches Some(m) ==> self@.mesh == Some(m@),
    {
        self.cached_mesh.as_ref()
    }

    /// The cached light values, if they are valid.
    pub fn lighting(&self) -> (lighting: Option<&Vec<u32>>)
        ensures
            lighting is Some <==> self@.lighting is Some,
            lighting matches Some(l) ==> self@.lighting == Some(l@),
    {
        self.cached_lighting.as_ref()
    }

    /// Whether a face list is cached.
    pub fn has_mesh(&self) -> (cached: bool)
        ensures
            cached == self@.mesh is Some,
    {
        self.cached_mesh.is_some()
    }

    /// Drops the cached face list and with it the cached lighting.
    pub fn invalidate_mesh(&mut self)
        ensures
            final(self)@ == old(self)@.invalidated(),
    {
        self.cached_mesh = None;
        self.cached_lighting = None;
    }

    /// Caches a face list. Lighting that was cached for another face list is
    /// dropped.
    pub(crate) fn set_mesh(&mut self, mesh: Vec<InstanceData>)
        ensures
            final(self)@ == old(self)@.with_mesh(mesh@),
    {
        self.cached_mesh = Some(mesh);
        self.cached_lighting = None;
    }

    /// Caches the light values of the cached face list.
    pub(crate) fn set_lighting(&mut self, lighting: Vec<u32>)
        ensures
            final(self)@ == old(self)@.with_lighting(lighting@),
    {
        self.cached_lighting = Some(lighting);
    }

    /// Drops the cached light values.
    pub fn invalidate_lighting(&mut self)
        ensures
            final(self)@ == old(self)@.without_lighting(),
    {
        self.cached_lighting = None;
    }

    /// Replaces one block and drops what was derived from the old blocks.
    pub fn set_block(&mut self, x: usize, y: usize, z: usize, block: u32)
        requires
            in_chunk(x as int, y as int, z as int),
        ensures
            final(self)@ == old(self)@.with_block(x as int, y as int, z as int, block),
    {
        self.blocks[x][y][z] = block;
        self.cached_mesh = None;
        self.cached_lighting = None;
        assert(grid_view(*self.blocks) =~= grid_view(*old(self).blocks).insert(
            (x as int, y as int, z as int),
            block,
        ));
    }

    /// The block that this chunk sees at an offset from its own origin: its
    /// own block inside the chunk; beyond it, the block of the chunk that
    /// holds the position, or air when the store does not hold that chunk.
    pub fn get_block(&self, chunks: &ChunkStore, x: isize, y: isize, z: isize) -> (block: u32)
        requires
            chunks.wf(),
        ensures
            block == block_seen(self@, chunks@, x as int, y as int, z as int),
    {
        if 0 <= x && x < 16 && 0 <= y && y < 16 && 0 <= z && z < 16 {
            self.blocks[x as usize][y as usize][z as usize]
        } else {
            let (dx, lx) = world_to_chunk(x as i64);
            let (dy, ly) = world_to_chunk(y as i64);
            let (dz, lz) = world_to_chunk(z as i64);
            let cx: i64 = self.chunk_x as i64 + dx;
            let cy: i64 = self.chunk_y as i64 + dy;
            let cz: i64 = self.chunk_z as i64 + dz;
            if cx < i32::MIN as i64 || cx > i32::MAX as i64 || cy < i32::MIN as i64 || cy
                > i32::MAX as i64 || cz < i32::MIN as i64 || cz > i32::MAX as i64 {
                proof {
                    chunks.lemma_coords_in_range();
                }
                0
            } else {
                match chunks.get(cx as i32, cy as i32, cz as i32) {
                    Some(ChunkWaiter::Resident(neighbor)) => neighbor.blocks[lx][ly][lz],
                    _ => 0,
                }
            }
        }
    }
    /// Appends the record of one face to `data` if the face is visible.
    fn push_face_if_visible(
        &self,
        chunks: &ChunkStore,
        registry: &BlockRegistry,
        data: &mut Vec<InstanceData>,
        x: usize,
        y: usize,
        z: usize,
        dir: FaceDirection,
    )
        requires
            chunks.wf(),
            in_chunk(x as int, y as int, z as int),
        ensures
            final(data)@ == old(data)@ + face_if_visible(
                self@,
                chunks@,
                registry@,
                x as int,
                y as int,
                z as int,
                dir,
            ),
    {
        let block: u32 = self.blocks[x][y][z];
        if registry.solid(block) {
            let seen: u32 = match dir {
                FaceDirection::Up => self.get_block(chunks, x as isize, y as isize + 1, z as isize),
                FaceDirection::Down => self.get_block(
                    chunks,
                    x as isize,
                    y as isize - 1,
                    z as isize,
                ),
                FaceDirection::Front => self.get_block(
                    chunks,
                    x as isize,
                    y as isize,
                    z as isize - 1,
                ),
                FaceDirection::Back => self.get_block(
                    chunks,
                    x as isize,
                    y as isize,
                    z as isize + 1,
                ),
                FaceDirection::Left => self.get_block(
                    chunks,
                    x as isize + 1,
                    y as isize,
                    z as isize,
                ),
                FaceDirection::Right => self.get_block(
                    chunks,
                    x as isize - 1,
                    y as isize,
                    z as isize,
                ),
            };
            if !registry.solid(seen) {
                let texture: u32 = registry.face_texture(block, dir);
                data.push(InstanceData::new(dir, x as u32, y as u32, z as u32, texture));
                assert(data@ =~= old(data)@ + seq![
                    face_record(self@, registry@, x as int, y as int, z as int, dir),
                ]);
                return ;
            }
        }
        assert(data@ =~= old(data)@ + Seq::<InstanceData>::empty());
    }

    /// Appends the visible faces of one block to `data`.
    fn push_cell_faces(
        &self,
        chunks: &ChunkStore,
        registry: &BlockRegistry,
        data: &mut Vec<InstanceData>,
        x: usize,
        y: usize,
        z: usize,
    )
        requires
            chunks.wf(),
            in_chunk(x as int, y as int, z as int),
        ensures
            final(data)@ == old(data)@ + cell_faces(
                self@,
                chunks@,
                registry@,
                x as int,
                y as int,
                z as int,
            ),
    {
        self.push_face_if_visible(chunks, registry, data, x, y, z, FaceDirection::Up);
        self.push_face_if_visible(chunks, registry, data, x, y, z, FaceDirection::Down);
        self.push_face_if_visible(chunks, registry, data, x, y, z, FaceDirection::Right);
        self.push_face_if_visible(chunks, registry, data, x, y, z, FaceDirection::Left);
        self.push_face_if_visible(chunks, registry, data, x, y, z, FaceDirection::Front);
        self.push_face_if_visible(chunks, registry, data, x, y, z, FaceDirection::Back);
        proof {
            lemma_append_six(
                old(data)@,
                face_if_visible(self@, chunks@, registry@, x as int, y as int, z as int, FaceDirection::Up),
                face_if_visible(self@, chunks@, registry@, x as int, y as int, z as int, FaceDirection::Down),
                face_if_visible(self@, chunks@, registry@, x as int, y as int, z as int, FaceDirection::Right),
                face_if_visible(self@, chunks@, registry@, x as int, y as int, z as int, FaceDirection::Left),
                face_if_visible(self@, chunks@, registry@, x as int, y as int, z as int, FaceDirection::Front),
                face_if_visible(self@, chunks@, registry@, x as int, y as int, z as int, FaceDirection::Back),
            );
        }
    }

    /// The face list of this chunk: one record for every face of a solid
    /// block that looks at a block which is not solid, in this chunk or
    /// across its boundary in a chunk that the store holds. Beyond the
    /// chunks that are held lies air.
    pub fn generate_mesh(&self, chunks: &ChunkStore, registry: &BlockRegistry) -> (mesh: Vec<
        InstanceData,
    >)
        requires
            chunks.wf(),
        ensures
            mesh@ == mesh_of(self@, chunks@, registry@),
    {
        let mut data: Vec<InstanceData> = Vec::new();
        let mut x: usize = 0;
        while x < 16
            invariant
                chunks.wf(),
                x <= 16,
                data@ == mesh_prefix(self@, chunks@, registry@, x * 256),
            decreases 16 - x,
        {
            let mut y: usize = 0;
            while y < 16
                invariant
                    chunks.wf(),
                    x < 16,
                    y <= 16,
                    data@ == mesh_prefix(self@, chunks@, registry@, x * 256 + y * 16),
                decreases 16 - y,
            {
                let mut z: usize = 0;
                while z < 16
                    invariant
                        chunks.wf(),
                        x < 16,
                        y < 16,
                        z <= 16,
                        data@ == mesh_prefix(self@, chunks@, registry@, x * 256 + y * 16 + z),
                    decreases 16 - z,
                {
                    self.push_cell_faces(chunks, registry, &mut data, x, y, z);
                    proof {
                        lemma_mesh_prefix_step(self@, chunks@, registry@, x as int, y as int, z as int);
                    }
                    z = z + 1;
                }
                y = y + 1;
            }
            x = x + 1;
        }
        data
    }
}

} // verus!
