use minecraft_rust::blocks::{Block, BlockRegistry, FaceDirection};
use minecraft_rust::client::chunk::{BlockGrid, Chunk, InstanceData};
use minecraft_rust::client::store::ChunkStore;

fn registry() -> BlockRegistry {
    let mut registry = BlockRegistry::new();
    Block::register_defaults(&mut registry);
    registry.assign_textures();
    registry
}

fn filled(block: u32) -> Box<BlockGrid> {
    Box::new([[[block; 16]; 16]; 16])
}

fn hold(store: &mut ChunkStore, x: i32, y: i32, z: i32, blocks: Box<BlockGrid>) {
    assert!(store.request_chunk(x, y, z, 0).is_some());
    assert!(store.install_chunk(x, y, z, blocks));
}

fn words(mesh: &[InstanceData]) -> Vec<(u32, u32)> {
    mesh.iter().map(|face| face.data).collect()
}

#[test]
fn instance_data_packs_direction_and_position() {
    let face = InstanceData::new(FaceDirection::Left, 1, 2, 3, 9);
    assert_eq!(face.data, (4 | (1 << 4) | (2 << 8) | (3 << 12), 9));
    assert_eq!(face.direction(), 4);
    assert_eq!((face.x(), face.y(), face.z()), (1, 2, 3));
    assert_eq!(face.texture_index(), 9);
    let corner = InstanceData::new(FaceDirection::Right, 15, 15, 15, u32::MAX);
    assert_eq!(corner.data, (0xfff5, u32::MAX));
    let origin = InstanceData::new(FaceDirection::Up, 0, 0, 0, 0);
    assert_eq!(origin.data, (0, 0));
}

#[test]
fn air_chunk_has_empty_mesh() {
    let chunk = Chunk::from_data(0, 0, 0, filled(0));
    let mesh = chunk.generate_mesh(&ChunkStore::new(), &registry());
    assert!(mesh.is_empty());
}

#[test]
fn lone_block_shows_six_faces() {
    let mut blocks = filled(0);
    blocks[5][6][7] = 1;
    let chunk = Chunk::from_data(0, 0, 0, blocks);
    let mesh = chunk.generate_mesh(&ChunkStore::new(), &registry());
    let base = (5 << 4) | (6 << 8) | (7 << 12);
    assert_eq!(
        words(&mesh),
        vec![(base, 1), (base | 1, 3), (base | 5, 2), (base | 4, 2), (base | 2, 2), (base | 3, 2)]
    );
}

#[test]
fn lone_block_at_a_corner_shows_six_faces_across_boundaries() {
    let mut store = ChunkStore::new();
    for (x, y, z) in [(-1, 0, 0), (1, 0, 0), (0, -1, 0), (0, 1, 0), (0, 0, -1), (0, 0, 1)] {
        hold(&mut store, x, y, z, filled(0));
    }
    let mut blocks = filled(0);
    blocks[0][0][0] = 2;
    let chunk = Chunk::from_data(0, 0, 0, blocks);
    let mesh = chunk.generate_mesh(&store, &registry());
    assert_eq!(words(&mesh), vec![(0, 4), (1, 4), (5, 4), (4, 4), (2, 4), (3, 4)]);
}

#[test]
fn buried_chunk_has_empty_mesh() {
    let mut store = ChunkStore::new();
    for (x, y, z) in [(-1, 0, 0), (1, 0, 0), (0, -1, 0), (0, 1, 0), (0, 0, -1), (0, 0, 1)] {
        hold(&mut store, x, y, z, filled(1));
    }
    let chunk = Chunk::from_data(0, 0, 0, filled(1));
    assert!(chunk.generate_mesh(&store, &registry()).is_empty());
}

#[test]
fn solid_chunk_alone_shows_its_outer_skin() {
    let chunk = Chunk::from_data(0, 0, 0, filled(2));
    let mesh = chunk.generate_mesh(&ChunkStore::new(), &registry());
    assert_eq!(mesh.len(), 6 * 16 * 16);
    for face in &mesh {
        let at_edge = match face.direction() {
            0 => face.y() == 15,
            1 => face.y() == 0,
            2 => face.z() == 0,
            3 => face.z() == 15,
            4 => face.x() == 15,
            _ => face.x() == 0,
        };
        assert!(at_edge);
        assert_eq!(face.texture_index(), 4);
    }
}

#[test]
fn boundary_face_depends_on_the_neighbour() {
    let registry = registry();
    let mut blocks = filled(0);
    blocks[15][3][4] = 1;
    let a = Chunk::from_data(0, 0, 0, blocks);

    let mut store = ChunkStore::new();
    hold(&mut store, 1, 0, 0, filled(0));
    let towards_b = (4 | (15 << 4) | (3 << 8) | (4 << 12), 2);
    assert!(words(&a.generate_mesh(&store, &registry)).contains(&towards_b));
    let b = Chunk::from_data(1, 0, 0, filled(0));
    hold(&mut store, 0, 0, 0, {
        let mut blocks = filled(0);
        blocks[15][3][4] = 1;
        blocks
    });
    assert!(b.generate_mesh(&store, &registry).is_empty());

    let mut solid_store = ChunkStore::new();
    hold(&mut solid_store, 1, 0, 0, filled(1));
    let mesh = words(&a.generate_mesh(&solid_store, &registry));
    assert!(!mesh.contains(&towards_b));
    assert_eq!(mesh.len(), 5);
}

#[test]
fn pending_neighbour_counts_as_air() {
    let mut store = ChunkStore::new();
    assert!(store.request_chunk(1, 0, 0, 0).is_some());
    let mut blocks = filled(0);
    blocks[15][0][0] = 1;
    let chunk = Chunk::from_data(0, 0, 0, blocks);
    assert_eq!(chunk.generate_mesh(&store, &registry()).len(), 6);
}

#[test]
fn unregistered_blocks_are_not_solid() {
    let mut blocks = filled(0);
    blocks[1][1][1] = 77;
    let chunk = Chunk::from_data(0, 0, 0, blocks);
    assert!(chunk.generate_mesh(&ChunkStore::new(), &registry()).is_empty());
}

#[test]
fn two_touching_blocks_hide_the_faces_between_them() {
    let mut blocks = filled(0);
    blocks[4][4][4] = 1;
    blocks[5][4][4] = 1;
    let chunk = Chunk::from_data(0, 0, 0, blocks);
    let mesh = words(&chunk.generate_mesh(&ChunkStore::new(), &registry()));
    assert_eq!(mesh.len(), 10);
    let first = (4 << 4) | (4 << 8) | (4 << 12);
    let second = (5 << 4) | (4 << 8) | (4 << 12);
    assert!(!mesh.contains(&(first | 4, 2)));
    assert!(!mesh.contains(&(second | 5, 2)));
    assert!(mesh.contains(&(first | 5, 2)));
    assert!(mesh.contains(&(second | 4, 2)));
}

#[test]
fn mesh_is_the_same_every_time() {
    let registry = registry();
    let mut blocks = filled(0);
    for i in 0..16 {
        blocks[i][(i * 7) % 16][(i * 3) % 16] = 1 + (i as u32 % 2);
    }
    let chunk = Chunk::from_data(2, -3, 4, blocks);
    let store = ChunkStore::new();
    assert_eq!(
        words(&chunk.generate_mesh(&store, &registry)),
        words(&chunk.generate_mesh(&store, &registry))
    );
}

#[test]
fn get_block_reads_across_boundaries() {
    let mut store = ChunkStore::new();
    let mut west = filled(0);
    west[15][2][3] = 7;
    hold(&mut store, -1, 0, 0, west);
    let mut below = filled(0);
    below[4][15][5] = 8;
    hold(&mut store, 0, -1, 0, below);
    let mut far = filled(0);
    far[1][2][3] = 9;
    hold(&mut store, 2, 0, 0, far);
    let mut own = filled(0);
    own[0][0][0] = 5;
    let chunk = Chunk::from_data(0, 0, 0, own);
    assert_eq!(chunk.get_block(&store, 0, 0, 0), 5);
    assert_eq!(chunk.get_block(&store, -1, 2, 3), 7);
    assert_eq!(chunk.get_block(&store, 4, -1, 5), 8);
    assert_eq!(chunk.get_block(&store, 33, 2, 3), 9);
    assert_eq!(chunk.get_block(&store, 16, 0, 0), 0);
    assert_eq!(chunk.get_block(&store, 0, 0, 16), 0);
    assert_eq!(chunk.get_block(&store, isize::MAX, 0, 0), 0);
    assert_eq!(chunk.get_block(&store, isize::MIN, isize::MIN, isize::MIN), 0);
}

#[test]
fn get_block_at_the_edge_of_the_coordinate_range() {
    let store = ChunkStore::new();
    let chunk = Chunk::from_data(i32::MAX, i32::MIN, 0, filled(3));
    assert_eq!(chunk.get_block(&store, 15, 0, 0), 3);
    assert_eq!(chunk.get_block(&store, 16, 0, 0), 0);
    assert_eq!(chunk.get_block(&store, 0, -1, 0), 0);
    assert_eq!(chunk.generate_mesh(&store, &BlockRegistry::new()).len(), 0);
}

#[test]
fn store_get_block_needs_a_held_chunk() {
    let mut store = ChunkStore::new();
    let mut blocks = filled(0);
    blocks[3][4][5] = 2;
    hold(&mut store, 0, 0, 0, blocks);
    assert_eq!(store.get_block(0, 0, 0, 3, 4, 5), Block(2));
    assert_eq!(store.get_block(1, 0, 0, -13, 4, 5), Block(0));
    hold(&mut store, 1, 0, 0, filled(0));
    assert_eq!(store.get_block(1, 0, 0, -13, 4, 5), Block(2));
    assert_eq!(store.get_block(5, 5, 5, 0, 0, 0), Block::air());
}
