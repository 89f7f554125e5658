use minecraft_rust::chunk::{random_blocks, Block, RandomChunkGenerator};
use minecraft_rust::client::chunk::BlockGrid;
use minecraft_rust::client::store::{ChunkStore, ChunkWaiter};
use minecraft_rust::client::streaming::ClientEvent;
use minecraft_rust::packet::{check_packet_size, ServerPacket, UserPacket, MAX_PACKET_SIZE};
use minecraft_rust::server::chunk::{Chunk, ChunkCache, ChunkGenerator};
use minecraft_rust::server::player::{handle_packet, timed_out, PlayerAction, PLAYER_TIMEOUT_SECS};
use minecraft_rust::server::{PeerAddr, Routing, Sessions};

/// Fills every chunk with a pattern made from the seed and the coordinate,
/// and counts how often it was asked to.
struct CountingGenerator {
    seed: u32,
    calls: usize,
}

impl ChunkGenerator for CountingGenerator {
    fn from_seed(seed: u32) -> Self {
        CountingGenerator { seed, calls: 0 }
    }

    fn generate(&mut self, chunk_x: i32, chunk_y: i32, chunk_z: i32) -> Box<BlockGrid> {
        self.calls += 1;
        let mut blocks = Box::new([[[0u32; 16]; 16]; 16]);
        for x in 0..16 {
            for y in 0..16 {
                for z in 0..16 {
                    let mix = self.seed as i64
                        + (chunk_x as i64 * 16 + x as i64) * 31
                        + (chunk_y as i64 * 16 + y as i64) * 17
                        + (chunk_z as i64 * 16 + z as i64) * 7
                        + self.calls as i64;
                    blocks[x][y][z] = mix.rem_euclid(3) as u32;
                }
            }
        }
        blocks
    }
}

fn grid_of(packet: &ServerPacket) -> ((i32, i32, i32), Box<BlockGrid>) {
    match packet {
        ServerPacket::ChunkData { x, y, z, blocks } => ((*x, *y, *z), blocks.clone()),
        _ => panic!("not chunk data"),
    }
}

fn addr(port: u16) -> PeerAddr {
    PeerAddr { ip: 0xffff_7f00_0001, port }
}

#[test]
fn packet_size_limit() {
    assert_eq!(MAX_PACKET_SIZE, 1 << 20);
    assert!(check_packet_size(0).is_ok());
    assert!(check_packet_size(MAX_PACKET_SIZE).is_ok());
    assert_eq!(check_packet_size(MAX_PACKET_SIZE + 1).unwrap_err().len, MAX_PACKET_SIZE + 1);
    assert!(check_packet_size(usize::MAX).is_err());
}

#[test]
fn packets_that_end_a_session() {
    assert!(UserPacket::Leave.ends_session());
    assert!(!UserPacket::Ping.ends_session());
    assert!(!UserPacket::ChunkRequest { x: 0, y: 0, z: 0 }.ends_session());
    assert!(ServerPacket::Disconnect { reason: String::new() }.ends_session());
    assert!(!ServerPacket::Pong.ends_session());
    assert!(!ServerPacket::ConnectionAccepted.ends_session());
}

#[test]
fn server_chunk_carries_its_blocks_into_the_packet() {
    let mut gen = CountingGenerator::from_seed(5);
    let chunk = Chunk::new(&mut gen, 1, -2, 3);
    assert_eq!(gen.calls, 1);
    let (coord, blocks) = grid_of(&chunk.into_packet());
    assert_eq!(coord, (1, -2, 3));
    let (_, again) = grid_of(&chunk.into_packet());
    assert_eq!(blocks, again);
    let mut pattern = Box::new([[[0u32; 16]; 16]; 16]);
    pattern[3][2][1] = 9;
    let made = Chunk::from_blocks(7, 8, 9, pattern.clone());
    assert_eq!(grid_of(&made.into_packet()), ((7, 8, 9), pattern));
}

#[test]
fn cache_generates_once_per_coordinate() {
    let mut gen = CountingGenerator::from_seed(42);
    let mut cache = ChunkCache::new();
    assert!(!cache.contains(0, 0, 0));
    assert!(cache.lookup(0, 0, 0).is_none());
    let first = cache.serve(&mut gen, 0, 0, 0);
    assert_eq!(gen.calls, 1);
    assert!(cache.contains(0, 0, 0));
    let second = cache.serve(&mut gen, 0, 0, 0);
    assert_eq!(gen.calls, 1);
    assert_eq!(grid_of(&first), grid_of(&second));
    assert_eq!(grid_of(&cache.lookup(0, 0, 0).unwrap()), grid_of(&first));
    let other = cache.serve(&mut gen, 0, 0, 1);
    assert_eq!(gen.calls, 2);
    assert_eq!(grid_of(&other).0, (0, 0, 1));
    assert_ne!(grid_of(&other).1, grid_of(&first).1);
}

#[test]
fn cache_keeps_what_was_inserted() {
    let mut cache = ChunkCache::new();
    let mut blocks = Box::new([[[0u32; 16]; 16]; 16]);
    blocks[15][0][15] = 4;
    let packet = cache.insert_generated(i32::MIN, i32::MAX, -1, blocks.clone());
    assert_eq!(grid_of(&packet), ((i32::MIN, i32::MAX, -1), blocks.clone()));
    assert_eq!(grid_of(&cache.lookup(i32::MIN, i32::MAX, -1).unwrap()).1, blocks);
    assert!(cache.lookup(i32::MAX, i32::MIN, -1).is_none());
    assert!(cache.lookup(i32::MIN, i32::MAX, 0).is_none());
}

#[test]
fn end_to_end_chunk_request() {
    let mut client = ChunkStore::new();
    let mut gen = CountingGenerator::from_seed(7);
    let mut cache = ChunkCache::new();

    let request = client.request_chunk(0, 0, 0, 0).unwrap();
    let reply = match handle_packet(&mut cache, &mut gen, request) {
        PlayerAction::Reply(reply) => reply,
        PlayerAction::Stop => panic!("handler stopped"),
    };
    assert_eq!(gen.calls, 1);
    let first = grid_of(&reply);
    assert!(matches!(client.receive(reply), ClientEvent::ChunkInstalled { x: 0, y: 0, z: 0 }));
    match client.get(0, 0, 0) {
        Some(ChunkWaiter::Resident(chunk)) => assert_eq!(*chunk.blocks(), *first.1),
        _ => panic!("chunk is not held"),
    }

    let again = UserPacket::ChunkRequest { x: 0, y: 0, z: 0 };
    let reply = match handle_packet(&mut cache, &mut gen, again) {
        PlayerAction::Reply(reply) => reply,
        PlayerAction::Stop => panic!("handler stopped"),
    };
    assert_eq!(gen.calls, 1);
    assert_eq!(grid_of(&reply), first);
    assert!(matches!(client.receive(reply), ClientEvent::ChunkDiscarded { x: 0, y: 0, z: 0 }));
}

#[test]
fn handler_answers_ping_and_stops_on_leave() {
    let mut gen = CountingGenerator::from_seed(0);
    let mut cache = ChunkCache::new();
    assert!(matches!(
        handle_packet(&mut cache, &mut gen, UserPacket::Ping),
        PlayerAction::Reply(ServerPacket::Pong)
    ));
    assert!(matches!(handle_packet(&mut cache, &mut gen, UserPacket::Leave), PlayerAction::Stop));
    assert_eq!(gen.calls, 0);
    assert!(!cache.contains(0, 0, 0));
}

#[test]
fn timeout_disconnects_with_a_reason() {
    assert_eq!(PLAYER_TIMEOUT_SECS, 20);
    match timed_out() {
        ServerPacket::Disconnect { reason } => assert_eq!(reason, "timed out"),
        _ => panic!("not a disconnect"),
    }
}

#[test]
fn join_rejects_names_and_addresses_in_use() {
    let mut sessions = Sessions::new();
    assert_eq!(sessions.len(), 0);
    assert!(matches!(sessions.join(addr(1), String::from("uwu")), ServerPacket::ConnectionAccepted));
    match sessions.join(addr(2), String::from("uwu")) {
        ServerPacket::Disconnect { reason } => assert_eq!(reason, "username already taken!"),
        _ => panic!("duplicate name accepted"),
    }
    match sessions.join(addr(1), String::from("owo")) {
        ServerPacket::Disconnect { reason } => assert_eq!(reason, "address already connected!"),
        _ => panic!("duplicate address accepted"),
    }
    assert_eq!(sessions.len(), 1);
    assert!(matches!(sessions.join(addr(2), String::from("owo")), ServerPacket::ConnectionAccepted));
    assert_eq!(sessions.len(), 2);
    assert!(sessions.has_name(&String::from("owo")));
    assert!(!sessions.has_name(&String::from("ow")));
    assert!(sessions.has_addr(addr(2)));
    assert!(!sessions.has_addr(addr(3)));
    assert!(!sessions.has_addr(PeerAddr { ip: 1, port: 2 }));
    assert_eq!(sessions.username(addr(1)), Some(&String::from("uwu")));
    assert_eq!(sessions.username(addr(3)), None);
}

#[test]
fn leaving_frees_name_and_address() {
    let mut sessions = Sessions::new();
    sessions.join(addr(1), String::from("a"));
    sessions.join(addr(2), String::from("b"));
    sessions.join(addr(3), String::from("c"));
    assert_eq!(sessions.leave(addr(2)), Some(String::from("b")));
    assert_eq!(sessions.leave(addr(2)), None);
    assert_eq!(sessions.len(), 2);
    assert_eq!(sessions.username(addr(1)), Some(&String::from("a")));
    assert_eq!(sessions.username(addr(3)), Some(&String::from("c")));
    assert!(matches!(sessions.join(addr(2), String::from("b")), ServerPacket::ConnectionAccepted));
}

#[test]
fn routing_of_datagrams() {
    let mut sessions = Sessions::new();
    assert!(matches!(sessions.route(addr(1), UserPacket::Ping), Routing::Ignore));
    assert!(matches!(sessions.route(addr(1), UserPacket::Leave), Routing::Ignore));
    let join = UserPacket::JoinRequest { username: String::from("uwu") };
    assert!(matches!(
        sessions.route(addr(1), join),
        Routing::Accept(ServerPacket::ConnectionAccepted)
    ));
    let join = UserPacket::JoinRequest { username: String::from("uwu") };
    match sessions.route(addr(2), join) {
        Routing::Refuse(ServerPacket::Disconnect { reason }) => {
            assert_eq!(reason, "username already taken!")
        }
        _ => panic!("duplicate name not refused"),
    }
    assert!(matches!(sessions.route(addr(1), UserPacket::Ping), Routing::Forward(UserPacket::Ping)));
    assert!(matches!(
        sessions.route(addr(1), UserPacket::ChunkRequest { x: 1, y: 2, z: 3 }),
        Routing::Forward(UserPacket::ChunkRequest { x: 1, y: 2, z: 3 })
    ));
    assert!(matches!(sessions.route(addr(2), UserPacket::Ping), Routing::Ignore));
    assert!(matches!(
        sessions.route(addr(1), UserPacket::Leave),
        Routing::ForwardLast(UserPacket::Leave)
    ));
    assert_eq!(sessions.len(), 0);
    assert!(matches!(sessions.route(addr(1), UserPacket::Ping), Routing::Ignore));
}

#[test]
fn random_terrain_is_air_or_solid() {
    assert_eq!(Block::Air.id(), 0);
    assert_eq!(Block::Solid.id(), 1);
    assert_eq!(Block::from_toss(true), Block::Solid);
    assert_eq!(Block::from_toss(false), Block::Air);
    let blocks = random_blocks();
    let mut gen = RandomChunkGenerator::from_seed(1);
    let generated = gen.generate(3, 2, 1);
    let mut solid = 0;
    for x in 0..16 {
        for y in 0..16 {
            for z in 0..16 {
                assert!(blocks[x][y][z] <= 1);
                assert!(generated[x][y][z] <= 1);
                solid += blocks[x][y][z] + generated[x][y][z];
            }
        }
    }
    assert!(solid > 0 && solid < 2 * 4096);
}
