//! Coordinate arithmetic: world positions, chunk indices, in-chunk offsets,
//! and the packing of a chunk coordinate into one map key.

use vstd::prelude::*;

verus! {

/// Index of the chunk that holds world position `w` along one axis: the
/// quotient rounded towards negative infinity.
pub open spec fn chunk_of(w: int) -> int {
    w / 16
}

/// Offset of world position `w` inside its chunk, in `0..16`.
pub open spec fn offset_of(w: int) -> int {
    w % 16
}

/// World position of offset `offset` in chunk `chunk` along one axis.
pub open spec fn world_of(chunk: int, offset: int) -> int {
    chunk * 16 + offset
}

/// Splitting a world position and recombining the parts gives the position
/// back, for negative positions as for positive ones.
pub proof fn lemma_world_round_trip(w: int)
    ensures
        world_of(chunk_of(w), offset_of(w)) == w,
        0 <= offset_of(w) < 16,
{
}

/// A world position has one split only: whatever chunk index and in-range
/// offset recombine to it are the ones that splitting finds.
pub proof fn lemma_split_unique(w: int, chunk: int, offset: int)
    requires
        world_of(chunk, offset) == w,
        0 <= offset < 16,
    ensures
        chunk == chunk_of(w),
        offset == offset_of(w),
{
}

/// Splits a world position along one axis into chunk index and offset.
pub fn world_to_chunk(w: i64) -> (split: (i64, usize))
    ensures
        split.0 == chunk_of(w as int),
        split.1 == offset_of(w as int),
        split.1 < 16,
        world_of(split.0 as int, split.1 as int) == w,
{
    if w >= 0 {
        (w / 16, (w % 16) as usize)
    } else {
        let below: i64 = -(w + 1);
        let chunk: i64 = -1 - below / 16;
        let offset: i64 = 15 - below % 16;
        (chunk, offset as usize)
    }
}

/// World position of an offset in a chunk along one axis.
pub fn chunk_to_world(chunk: i32, offset: usize) -> (w: i64)
    requires
        offset < 16,
    ensures
        w == world_of(chunk as int, offset as int),
        chunk_of(w as int) == chunk,
        offset_of(w as int) == offset,
{
    chunk as i64 * 16 + offset as i64
}

/// A chunk coordinate, as three chunk indices.
pub type ChunkCoord = (int, int, int);

/// Chunk coordinates that the store can hold: each index fits in 32 bits.
pub open spec fn coord_in_range(c: ChunkCoord) -> bool {
    &&& i32::MIN <= c.0 <= i32::MAX
    &&& i32::MIN <= c.1 <= i32::MAX
    &&& i32::MIN <= c.2 <= i32::MAX
}

/// The map key of a chunk coordinate: its three indices, each shifted to be
/// non-negative, as the digits of a number in base 2^32.
pub open spec fn key_of(c: ChunkCoord) -> int {
    (c.0 + 0x8000_0000) * 0x1_0000_0000_0000_0000 + (c.1 + 0x8000_0000) * 0x1_0000_0000 + (c.2
        + 0x8000_0000)
}

/// The chunk coordinate that a key stands for.
pub open spec fn coord_of(k: int) -> ChunkCoord {
    (
        k / 0x1_0000_0000_0000_0000 - 0x8000_0000,
        (k / 0x1_0000_0000) % 0x1_0000_0000 - 0x8000_0000,
        k % 0x1_0000_0000 - 0x8000_0000,
    )
}

/// Keys that stand for a chunk coordinate.
pub open spec fn key_in_range(k: int) -> bool {
    0 <= k < 0x1_0000_0000_0000_0000_0000_0000
}

/// Different coordinates have different keys.
pub proof fn lemma_key_injective(a: ChunkCoord, b: ChunkCoord)
    requires
        coord_in_range(a),
        coord_in_range(b),
        key_of(a) == key_of(b),
    ensures
        a == b,
{
}

/// Packing and unpacking are inverse to each other.
pub proof fn lemma_key_round_trip(c: ChunkCoord)
    requires
        coord_in_range(c),
    ensures
        key_in_range(key_of(c)),
        coord_of(key_of(c)) == c,
{
}

/// Unpacking and packing are inverse to each other.
pub proof fn lemma_coord_round_trip(k: int)
    requires
        key_in_range(k),
    ensures
        coord_in_range(coord_of(k)),
        key_of(coord_of(k)) == k,
{
}

/// Packs a chunk coordinate into its key.
pub fn chunk_key(x: i32, y: i32, z: i32) -> (k: u128)
    ensures
        k == key_of((x as int, y as int, z as int)),
        key_in_range(k as int),
{
    let hi: u128 = (x as i64 + 0x8000_0000) as u128;
    let mid: u128 = (y as i64 + 0x8000_0000) as u128;
    let lo: u128 = (z as i64 + 0x8000_0000) as u128;
    hi * 0x1_0000_0000_0000_0000 + mid * 0x1_0000_0000 + lo
}

/// Unpacks a key into the chunk coordinate it stands for.
pub fn key_coord(k: u128) -> (c: (i32, i32, i32))
    requires
        key_in_range(k as int),
    ensures
        (c.0 as int, c.1 as int, c.2 as int) == coord_of(k as int),
        key_of((c.0 as int, c.1 as int, c.2 as int)) == k,
{
    let hi: u128 = k / 0x1_0000_0000_0000_0000;
    let mid: u128 = (k / 0x1_0000_0000) % 0x1_0000_0000;
    let lo: u128 = k % 0x1_0000_0000;
    ((hi as i64 - 0x8000_0000) as i32, (mid as i64 - 0x8000_0000) as i32, (lo as i64
        - 0x8000_0000) as i32)
}

} // verus!
