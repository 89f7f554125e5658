use minecraft_rust::coords::{chunk_key, chunk_to_world, key_coord, world_to_chunk};

#[test]
fn world_to_chunk_floors_negative_positions() {
    assert_eq!(world_to_chunk(-1), (-1, 15));
    assert_eq!(world_to_chunk(-16), (-1, 0));
    assert_eq!(world_to_chunk(-17), (-2, 15));
    assert_eq!(world_to_chunk(0), (0, 0));
    assert_eq!(world_to_chunk(15), (0, 15));
    assert_eq!(world_to_chunk(16), (1, 0));
}

#[test]
fn world_position_round_trip() {
    for w in -100i64..100 {
        let (chunk, offset) = world_to_chunk(w);
        assert!(offset < 16);
        assert_eq!(chunk_to_world(chunk as i32, offset), w);
    }
    let (chunk, offset) = world_to_chunk(i64::MIN);
    assert_eq!(chunk as i128 * 16 + offset as i128, i64::MIN as i128);
    let (chunk, offset) = world_to_chunk(i64::MAX);
    assert_eq!(chunk as i128 * 16 + offset as i128, i64::MAX as i128);
}

#[test]
fn chunk_key_round_trip() {
    assert_eq!(chunk_key(i32::MIN, i32::MIN, i32::MIN), 0);
    assert_eq!(chunk_key(0, 0, 0), (1u128 << 95) | (1u128 << 63) | (1u128 << 31));
    assert_eq!(chunk_key(i32::MAX, i32::MAX, i32::MAX), (1u128 << 96) - 1);
    for c in [(0, 0, 0), (1, -2, 3), (i32::MAX, i32::MIN, -1), (-7, 0, i32::MAX)] {
        assert_eq!(key_coord(chunk_key(c.0, c.1, c.2)), c);
    }
    assert_ne!(chunk_key(1, 0, 0), chunk_key(0, 1, 0));
    assert_ne!(chunk_key(0, 1, 0), chunk_key(0, 0, 1));
}
