use minecraft_rust::blocks::{Block, BlockRegistry};
use minecraft_rust::client::chunk::{BlockGrid, InstanceData};
use minecraft_rust::client::remesh::MeshUpdate;
use minecraft_rust::client::store::{ChunkStore, ChunkWaiter};
use minecraft_rust::client::streaming::{ClientEvent, RESEND_INTERVAL_MS};
use minecraft_rust::packet::{ServerPacket, UserPacket};

fn registry() -> BlockRegistry {
    let mut registry = BlockRegistry::new();
    Block::register_defaults(&mut registry);
    registry.assign_textures();
    registry
}

fn filled(block: u32) -> Box<BlockGrid> {
    Box::new([[[block; 16]; 16]; 16])
}

fn hold(store: &mut ChunkStore, x: i32, y: i32, z: i32, blocks: Box<BlockGrid>) {
    assert!(store.request_chunk(x, y, z, 0).is_some());
    assert!(store.install_chunk(x, y, z, blocks));
}

fn words(mesh: &[InstanceData]) -> Vec<(u32, u32)> {
    mesh.iter().map(|face| face.data).collect()
}

fn requested(packets: &[UserPacket]) -> Vec<(i32, i32, i32)> {
    let mut coords: Vec<(i32, i32, i32)> = packets
        .iter()
        .map(|packet| match packet {
            UserPacket::ChunkRequest { x, y, z } => (*x, *y, *z),
            other => panic!("not a chunk request: {:?}", matches!(other, UserPacket::Ping)),
        })
        .collect();
    coords.sort();
    coords
}

fn pending_since(store: &ChunkStore, x: i32, y: i32, z: i32) -> Option<u64> {
    match store.get(x, y, z) {
        Some(ChunkWaiter::Pending(sent_at)) => Some(*sent_at),
        _ => None,
    }
}

fn is_held(store: &ChunkStore, x: i32, y: i32, z: i32) -> bool {
    matches!(store.get(x, y, z), Some(ChunkWaiter::Resident(_)))
}

#[test]
fn new_store_is_empty() {
    let store = ChunkStore::new();
    assert!(store.coords().is_empty());
    assert!(store.get(0, 0, 0).is_none());
    assert!(!store.contains(0, 0, 0));
}

#[test]
fn first_request_makes_the_chunk_pending() {
    let mut store = ChunkStore::new();
    let packet = store.request_chunk(1, -2, 3, 40);
    assert!(matches!(packet, Some(UserPacket::ChunkRequest { x: 1, y: -2, z: 3 })));
    assert_eq!(pending_since(&store, 1, -2, 3), Some(40));
    assert_eq!(store.coords(), vec![(1, -2, 3)]);
}

#[test]
fn request_is_not_repeated_while_pending() {
    let mut store = ChunkStore::new();
    assert!(store.request_chunk(0, 0, 0, 100).is_some());
    assert!(store.request_chunk(0, 0, 0, 500).is_none());
    assert_eq!(pending_since(&store, 0, 0, 0), Some(100));
    assert_eq!(store.coords().len(), 1);
    assert!(store.resend_due(100 + RESEND_INTERVAL_MS).is_empty());
    assert_eq!(pending_since(&store, 0, 0, 0), Some(100));
}

#[test]
fn request_is_not_sent_for_a_held_chunk() {
    let mut store = ChunkStore::new();
    hold(&mut store, 0, 0, 0, filled(0));
    assert!(store.request_chunk(0, 0, 0, 9).is_none());
    assert!(is_held(&store, 0, 0, 0));
}

#[test]
fn overdue_requests_are_sent_again() {
    let mut store = ChunkStore::new();
    assert!(store.request_chunk(0, 0, 0, 0).is_some());
    assert!(store.request_chunk(1, 0, 0, 300).is_some());
    assert!(store.request_chunk(2, 0, 0, 0).is_some());
    assert!(store.install_chunk(2, 0, 0, filled(0)));
    assert!(store.resend_due(800).is_empty());
    let packets = store.resend_due(801);
    assert_eq!(requested(&packets), vec![(0, 0, 0)]);
    assert_eq!(pending_since(&store, 0, 0, 0), Some(801));
    assert_eq!(pending_since(&store, 1, 0, 0), Some(300));
    assert!(is_held(&store, 2, 0, 0));
    let packets = store.resend_due(1101);
    assert_eq!(requested(&packets), vec![(1, 0, 0)]);
    let packets = store.resend_due(5000);
    assert_eq!(requested(&packets), vec![(0, 0, 0), (1, 0, 0)]);
    assert_eq!(pending_since(&store, 1, 0, 0), Some(5000));
}

#[test]
fn resend_ignores_a_clock_that_went_back() {
    let mut store = ChunkStore::new();
    assert!(store.request_chunk(0, 0, 0, 5000).is_some());
    assert!(store.resend_due(0).is_empty());
    assert_eq!(pending_since(&store, 0, 0, 0), Some(5000));
}

#[test]
fn chunk_data_for_a_pending_chunk_is_installed() {
    let mut store = ChunkStore::new();
    assert!(store.request_chunk(0, 0, 0, 0).is_some());
    let mut blocks = filled(0);
    blocks[1][2][3] = 2;
    assert!(store.install_chunk(0, 0, 0, blocks));
    match store.get(0, 0, 0) {
        Some(ChunkWaiter::Resident(chunk)) => {
            assert_eq!((chunk.chunk_x(), chunk.chunk_y(), chunk.chunk_z()), (0, 0, 0));
            assert_eq!(chunk.block(1, 2, 3), 2);
            assert_eq!(chunk.block(0, 0, 0), 0);
            assert_eq!(chunk.blocks()[1][2][3], 2);
            assert!(!chunk.has_mesh());
            assert!(chunk.mesh().is_none());
            assert!(chunk.lighting().is_none());
        }
        _ => panic!("chunk is not held"),
    }
}

#[test]
fn chunk_data_that_was_not_asked_for_is_discarded() {
    let mut store = ChunkStore::new();
    assert!(!store.install_chunk(0, 0, 0, filled(1)));
    assert!(store.get(0, 0, 0).is_none());
    hold(&mut store, 1, 1, 1, filled(1));
    assert!(!store.install_chunk(1, 1, 1, filled(2)));
    assert_eq!(store.get_block(1, 1, 1, 0, 0, 0), Block(1));
}

#[test]
fn receive_sorts_packets() {
    let mut store = ChunkStore::new();
    assert!(store.request_chunk(3, 4, 5, 0).is_some());
    let event = store.receive(ServerPacket::ChunkData { x: 3, y: 4, z: 5, blocks: filled(1) });
    assert!(matches!(event, ClientEvent::ChunkInstalled { x: 3, y: 4, z: 5 }));
    assert!(is_held(&store, 3, 4, 5));
    let event = store.receive(ServerPacket::ChunkData { x: 3, y: 4, z: 5, blocks: filled(2) });
    assert!(matches!(event, ClientEvent::ChunkDiscarded { x: 3, y: 4, z: 5 }));
    let event = store.receive(ServerPacket::Pong);
    assert!(matches!(event, ClientEvent::Notice(ServerPacket::Pong)));
    let event = store.receive(ServerPacket::Disconnect { reason: String::from("bye") });
    match event {
        ClientEvent::Disconnected { reason } => assert_eq!(reason, "bye"),
        _ => panic!("not a disconnect"),
    }
    assert_eq!(store.coords(), vec![(3, 4, 5)]);
}

#[test]
fn rebuild_is_idempotent() {
    let registry = registry();
    let mut store = ChunkStore::new();
    let mut blocks = filled(0);
    blocks[8][8][8] = 1;
    hold(&mut store, 0, 0, 0, blocks);
    assert!(store.mesh(0, 0, 0).is_none());
    assert_eq!(store.rebuild_mesh(&registry, 0, 0, 0), MeshUpdate::Rebuilt);
    let first = words(store.mesh(0, 0, 0).unwrap());
    assert_eq!(first.len(), 6);
    assert_eq!(store.rebuild_mesh(&registry, 0, 0, 0), MeshUpdate::Unchanged);
    assert_eq!(words(store.mesh(0, 0, 0).unwrap()), first);
    assert_eq!(store.rebuild_mesh(&registry, 1, 0, 0), MeshUpdate::Absent);
    assert!(store.request_chunk(1, 0, 0, 0).is_some());
    assert_eq!(store.rebuild_mesh(&registry, 1, 0, 0), MeshUpdate::Absent);
}

#[test]
fn edit_propagates_across_the_touched_boundary_only() {
    let registry = registry();
    let mut store = ChunkStore::new();
    hold(&mut store, 1, 0, 0, filled(1));
    hold(&mut store, 0, 0, 0, filled(1));
    hold(&mut store, 1, 0, 1, filled(1));
    hold(&mut store, 2, 0, 0, filled(1));
    for (x, y, z) in [(1, 0, 0), (0, 0, 0), (1, 0, 1), (2, 0, 0)] {
        assert_eq!(store.rebuild_mesh(&registry, x, y, z), MeshUpdate::Rebuilt);
    }
    assert!(store.remove_block(1, 0, 0, 0, 5, 5));
    assert!(store.mesh(1, 0, 0).is_none());
    assert!(store.mesh(0, 0, 0).is_none());
    assert!(store.mesh(1, 0, 1).is_some());
    assert!(store.mesh(2, 0, 0).is_some());
    assert_eq!(store.get_block(1, 0, 0, 0, 5, 5), Block::air());
    assert_eq!(store.rebuild_mesh(&registry, 0, 0, 0), MeshUpdate::Rebuilt);
    let towards_hole = (4 | (15 << 4) | (5 << 8) | (5 << 12), 2);
    assert!(words(store.mesh(0, 0, 0).unwrap()).contains(&towards_hole));
}

#[test]
fn edit_inside_a_chunk_leaves_the_neighbours_alone() {
    let registry = registry();
    let mut store = ChunkStore::new();
    let around = [(0, 0, 0), (-1, 0, 0), (1, 0, 0), (0, -1, 0), (0, 1, 0), (0, 0, -1), (0, 0, 1)];
    for (x, y, z) in around {
        hold(&mut store, x, y, z, filled(0));
    }
    assert_eq!(store.remesh_around(&registry, 0, 0, 0).len(), 7);
    assert!(store.place_block(0, 0, 0, 7, 7, 7, Block(1)));
    assert!(store.mesh(0, 0, 0).is_none());
    for (x, y, z) in &around[1..] {
        assert!(store.mesh(*x, *y, *z).is_some());
    }
    assert!(store.place_block(0, 0, 0, 15, 0, 7, Block(1)));
    assert!(store.mesh(1, 0, 0).is_none());
    assert!(store.mesh(0, -1, 0).is_none());
    assert!(store.mesh(-1, 0, 0).is_some());
    assert!(store.mesh(0, 1, 0).is_some());
    assert!(store.mesh(0, 0, -1).is_some());
    assert!(store.mesh(0, 0, 1).is_some());
}

#[test]
fn edits_to_chunks_that_are_not_held_are_ignored() {
    let mut store = ChunkStore::new();
    assert!(!store.place_block(0, 0, 0, 1, 1, 1, Block(1)));
    assert!(store.get(0, 0, 0).is_none());
    assert!(store.request_chunk(0, 0, 0, 7).is_some());
    assert!(!store.remove_block(0, 0, 0, 1, 1, 1));
    assert_eq!(pending_since(&store, 0, 0, 0), Some(7));
    hold(&mut store, 1, 0, 0, filled(1));
    assert!(!store.set_block(1, 0, 0, 16, 0, 0, Block(0)));
    assert!(!store.set_block(1, 0, 0, 0, 0, usize::MAX, Block(0)));
    assert_eq!(store.get_block(1, 0, 0, 0, 0, 0), Block(1));
}

#[test]
fn arriving_chunk_invalidates_its_neighbours() {
    let registry = registry();
    let mut store = ChunkStore::new();
    hold(&mut store, 0, 0, 0, filled(1));
    hold(&mut store, 5, 5, 5, filled(1));
    assert_eq!(store.rebuild_mesh(&registry, 0, 0, 0), MeshUpdate::Rebuilt);
    assert_eq!(store.rebuild_mesh(&registry, 5, 5, 5), MeshUpdate::Rebuilt);
    assert_eq!(store.mesh(0, 0, 0).unwrap().len(), 6 * 256);
    hold(&mut store, 0, 1, 0, filled(1));
    assert!(store.mesh(0, 0, 0).is_none());
    assert!(store.mesh(5, 5, 5).is_some());
    let rebuilt = store.remesh_around(&registry, 0, 1, 0);
    assert_eq!(rebuilt, vec![(0, 1, 0), (0, 0, 0)]);
    assert_eq!(store.mesh(0, 0, 0).unwrap().len(), 5 * 256);
    assert_eq!(store.mesh(0, 1, 0).unwrap().len(), 5 * 256);
    assert!(store.remesh_around(&registry, 0, 1, 0).is_empty());
}

#[test]
fn remesh_around_walks_the_neighbours_in_order() {
    let registry = registry();
    let mut store = ChunkStore::new();
    for (x, y, z) in [(0, 0, 1), (0, 0, -1), (0, 1, 0), (0, -1, 0), (1, 0, 0), (-1, 0, 0), (0, 0, 0)]
    {
        hold(&mut store, x, y, z, filled(0));
    }
    hold(&mut store, 1, 1, 0, filled(0));
    let rebuilt = store.remesh_around(&registry, 0, 0, 0);
    assert_eq!(
        rebuilt,
        vec![(0, 0, 0), (-1, 0, 0), (1, 0, 0), (0, -1, 0), (0, 1, 0), (0, 0, -1), (0, 0, 1)]
    );
    assert!(store.mesh(1, 1, 0).is_none());
    assert!(store.remesh_around(&registry, i32::MAX, i32::MIN, 0).is_empty());
}

#[test]
fn evicting_a_chunk_invalidates_its_neighbours() {
    let registry = registry();
    let mut store = ChunkStore::new();
    hold(&mut store, 0, 0, 0, filled(1));
    hold(&mut store, 1, 0, 0, filled(1));
    store.remesh_around(&registry, 0, 0, 0);
    assert_eq!(store.mesh(1, 0, 0).unwrap().len(), 5 * 256);
    assert!(store.evict(0, 0, 0));
    assert!(store.get(0, 0, 0).is_none());
    assert!(store.mesh(1, 0, 0).is_none());
    assert!(!store.evict(0, 0, 0));
    assert!(store.request_chunk(4, 4, 4, 1).is_some());
    assert!(!store.evict(4, 4, 4));
    assert_eq!(pending_since(&store, 4, 4, 4), Some(1));
    assert_eq!(store.rebuild_mesh(&registry, 1, 0, 0), MeshUpdate::Rebuilt);
    assert_eq!(store.mesh(1, 0, 0).unwrap().len(), 6 * 256);
}

#[test]
fn region_request_asks_for_every_missing_chunk_once() {
    let mut store = ChunkStore::new();
    hold(&mut store, 0, 0, 0, filled(0));
    assert!(store.request_chunk(-5, -5, -5, 3).is_some());
    let packets = store.request_region(0, 0, 0, 10);
    let coords = requested(&packets);
    assert_eq!(coords.len(), 998);
    assert_eq!(coords.first(), Some(&(-5, -5, -4)));
    assert_eq!(coords.last(), Some(&(4, 4, 4)));
    assert!(!coords.contains(&(0, 0, 0)));
    assert!(!coords.contains(&(5, 0, 0)));
    assert_eq!(pending_since(&store, -5, -5, -5), Some(3));
    assert_eq!(pending_since(&store, 4, 4, 4), Some(10));
    assert!(store.get(5, 5, 5).is_none());
    assert!(is_held(&store, 0, 0, 0));
    assert_eq!(store.coords().len(), 1000);
    assert!(store.request_region(0, 0, 0, 20).is_empty());
    assert_eq!(store.request_region(1, 0, 0, 30).len(), 100);
}

#[test]
fn region_request_stops_at_the_edge_of_the_coordinate_range() {
    let mut store = ChunkStore::new();
    let packets = store.request_region(i32::MAX, i32::MIN, 0, 0);
    assert_eq!(packets.len(), 6 * 5 * 10);
    assert!(store.contains(i32::MAX, i32::MIN, -5));
    assert!(store.contains(i32::MAX - 5, i32::MIN + 4, 4));
}

#[test]
fn lighting_is_stored_only_for_a_valid_mesh() {
    let registry = registry();
    let mut store = ChunkStore::new();
    let mut blocks = filled(0);
    blocks[2][2][2] = 1;
    hold(&mut store, 0, 0, 0, blocks);
    assert!(!store.install_lighting(0, 0, 0, vec![0; 6]));
    assert_eq!(store.rebuild_mesh(&registry, 0, 0, 0), MeshUpdate::Rebuilt);
    assert!(!store.install_lighting(0, 0, 0, vec![0; 5]));
    assert!(!store.install_lighting(1, 0, 0, vec![0; 6]));
    assert!(store.lighting(0, 0, 0).is_none());
    assert!(store.install_lighting(0, 0, 0, vec![1, 2, 3, 4, 5, 6]));
    assert_eq!(store.lighting(0, 0, 0), Some(&vec![1, 2, 3, 4, 5, 6]));
    assert!(store.mesh(0, 0, 0).is_some());
    assert!(store.remove_block(0, 0, 0, 2, 2, 2));
    assert!(store.lighting(0, 0, 0).is_none());
    assert!(store.mesh(0, 0, 0).is_none());
}

#[test]
fn moved_light_invalidates_lighting_within_reach() {
    let registry = registry();
    let mut store = ChunkStore::new();
    for (x, y, z) in [(0, 0, 0), (1, 1, -1), (2, 0, 0), (0, -2, 0)] {
        hold(&mut store, x, y, z, filled(0));
    }
    for (x, y, z) in [(0, 0, 0), (1, 1, -1), (2, 0, 0), (0, -2, 0)] {
        assert_eq!(store.rebuild_mesh(&registry, x, y, z), MeshUpdate::Rebuilt);
        assert!(store.install_lighting(x, y, z, vec![]));
    }
    store.invalidate_lighting(0, 0, 0, 1);
    assert!(store.lighting(0, 0, 0).is_none());
    assert!(store.lighting(1, 1, -1).is_none());
    assert!(store.lighting(2, 0, 0).is_some());
    assert!(store.lighting(0, -2, 0).is_some());
    assert!(store.mesh(0, 0, 0).is_some());
    store.invalidate_lighting(1, -1, 0, 0);
    assert!(store.lighting(2, 0, 0).is_some());
    store.invalidate_lighting(i32::MAX, 0, 0, 2);
    assert!(store.lighting(2, 0, 0).is_some());
    store.invalidate_lighting(1, -1, 0, 1);
    assert!(store.lighting(2, 0, 0).is_none());
    assert!(store.lighting(0, -2, 0).is_none());
}

#[test]
fn cached_meshes_stay_equal_to_fresh_ones() {
    let registry = registry();
    let mut store = ChunkStore::new();
    let coords = [(0, 0, 0), (1, 0, 0), (0, 1, 0), (0, 0, 1), (1, 1, 0), (-1, 0, 0)];
    let check = |store: &ChunkStore| {
        for (x, y, z) in coords {
            if let Some(ChunkWaiter::Resident(chunk)) = store.get(x, y, z) {
                if let Some(mesh) = chunk.mesh() {
                    assert_eq!(words(mesh), words(&chunk.generate_mesh(store, &registry)));
                }
            }
        }
    };
    for (n, (x, y, z)) in coords.iter().enumerate() {
        let mut blocks = filled(0);
        for i in 0..16 {
            for j in 0..16 {
                blocks[i][j][(i + j + n) % 16] = 1 + ((i * j + n) % 2) as u32;
                blocks[(i * 5 + n) % 16][0][j] = 2;
            }
        }
        hold(&mut store, *x, *y, *z, blocks);
        store.remesh_around(&registry, 0, 0, 0);
        check(&store);
    }
    let edits = [
        ((0, 0, 0), (0, 3, 3), 0),
        ((0, 0, 0), (15, 15, 15), 1),
        ((1, 0, 0), (0, 0, 0), 2),
        ((0, 1, 0), (7, 0, 7), 0),
        ((0, 0, 1), (8, 8, 0), 1),
        ((-1, 0, 0), (15, 2, 9), 0),
        ((1, 1, 0), (4, 4, 4), 2),
    ];
    for ((cx, cy, cz), (x, y, z), block) in edits {
        assert!(store.set_block(cx, cy, cz, x, y, z, Block(block)));
        check(&store);
        store.rebuild_mesh(&registry, 0, 0, 0);
        store.rebuild_mesh(&registry, cx, cy, cz);
        check(&store);
    }
    assert!(store.evict(1, 0, 0));
    check(&store);
    for (x, y, z) in coords {
        store.rebuild_mesh(&registry, x, y, z);
    }
    check(&store);
    assert!(store.mesh(0, 0, 0).is_some());
}
