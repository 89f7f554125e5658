//! Asking for all the chunks around a position at once.

use vstd::prelude::*;
use crate::client::chunk::{SlotView, WorldView};
use crate::client::store::ChunkStore;
use crate::client::streaming::{chunk_request, packet_views, request_spec};
use crate::coords::{coord_in_range, ChunkCoord};
use crate::packet::{UserPacket, UserPacketView};

verus! {

/// How far the region around a chunk extends: along each axis from this
/// many chunks below the chunk up to one less than this many above it.
pub const VIEW_DISTANCE: i32 = 5;

/// Whether the chunk at `k` lies in the region around the chunk at `c`.
pub open spec fn in_region(c: ChunkCoord, k: ChunkCoord) -> bool {
    &&& coord_in_range(k)
    &&& c.0 - 5 <= k.0 < c.0 + 5
    &&& c.1 - 5 <= k.1 < c.1 + 5
    &&& c.2 - 5 <= k.2 < c.2 + 5
}

/// Whether the chunk at `k` comes before step `(i, j, l)` when the region
/// around `c` is walked x first, then y, then z.
pub open spec fn region_before(c: ChunkCoord, k: ChunkCoord, i: int, j: int, l: int) -> bool {
    let a = k.0 - (c.0 - 5);
    let b = k.1 - (c.1 - 5);
    let d = k.2 - (c.2 - 5);
    in_region(c, k) && (a < i || (a == i && (b < j || (b == j && d < l))))
}

/// Whether the chunk at `k` is asked for when the region around `c` is:
/// it lies in the region and has no slot yet.
pub open spec fn region_wanted(world: WorldView, c: ChunkCoord, k: ChunkCoord) -> bool {
    in_region(c, k) && !world.contains_key(k)
}

/// The store after every chunk in the region around `c` has been asked for:
/// those that had no slot are pending since `now`.
pub open spec fn region_spec(world: WorldView, c: ChunkCoord, now: u64) -> WorldView {
    Map::new(
        |k: ChunkCoord| world.contains_key(k) || in_region(c, k),
        |k: ChunkCoord|
            if world.contains_key(k) {
                world[k]
            } else {
                SlotView::Pending(now)
            },
    )
}

/// `packets` is what is sent when the region around `c` is asked for: one
/// request for each chunk of the region that had no slot, and nothing else.
pub open spec fn is_region_batch(packets: Seq<UserPacketView>, world: WorldView, c: ChunkCoord) -> bool {
    &&& packets.no_duplicates()
    &&& forall|n: int|
        0 <= n < packets.len() ==> exists|k: ChunkCoord|
            region_wanted(world, c, k) && #[trigger] packets[n] == chunk_request(k)
    &&& forall|k: ChunkCoord|
        region_wanted(world, c, k) ==> packets.contains(#[trigger] chunk_request(k))
}

/// The store when the walk through the region around `c` has come to step
/// `(i, j, l)`.
pub open spec fn region_partial(
    world: WorldView,
    c: ChunkCoord,
    now: u64,
    i: int,
    j: int,
    l: int,
) -> WorldView {
    Map::new(
        |k: ChunkCoord| world.contains_key(k) || region_before(c, k, i, j, l),
        |k: ChunkCoord|
            if world.contains_key(k) {
                world[k]
            } else {
                SlotView::Pending(now)
            },
    )
}

/// The requests sent when the walk through the region around `c` has come
/// to step `(i, j, l)`.
pub open spec fn is_partial_region_batch(
    packets: Seq<UserPacketView>,
    world: WorldView,
    c: ChunkCoord,
    i: int,
    j: int,
    l: int,
) -> bool {
    &&& packets.no_duplicates()
    &&& forall|n: int|
        0 <= n < packets.len() ==> exists|k: ChunkCoord|
            region_before(c, k, i, j, l) && !world.contains_key(k) && #[trigger] packets[n]
                == chunk_request(k)
    &&& forall|k: ChunkCoord|
        region_before(c, k, i, j, l) && !world.contains_key(k) ==> packets.contains(
            #[trigger] chunk_request(k),
        )
}

impl ChunkStore {
    /// One step of [`ChunkStore::request_region`]: asks for the chunk at a
    /// coordinate that may lie outside the range that the store can hold.
    fn request_at(
        &mut self,
        x: i64,
        y: i64,
        z: i64,
        now: u64,
        packets: &mut Vec<UserPacket>,
    )
        requires
            old(self).wf(),
        ensures
            final(self).wf(),
            coord_in_range((x as int, y as int, z as int)) ==> final(self)@ == request_spec(
                old(self)@,
                (x as int, y as int, z as int),
                now,
            ),
            !coord_in_range((x as int, y as int, z as int)) ==> final(self)@ == old(self)@,
            packet_views(final(packets)@) == (if coord_in_range((x as int, y as int, z as int))
                && !old(self)@.contains_key((x as int, y as int, z as int)) {
                packet_views(old(packets)@).push(chunk_request((x as int, y as int, z as int)))
            } else {
                packet_views(old(packets)@)
            }),
    {
        if x < i32::MIN as i64 || x > i32::MAX as i64 || y < i32::MIN as i64 || y > i32::MAX as i64
            || z < i32::MIN as i64 || z > i32::MAX as i64 {
            return ;
        }
        match self.request_chunk(x as i32, y as i32, z as i32, now) {
            Some(packet) => {
                packets.push(packet);
                assert(packet_views(packets@) =~= packet_views(old(packets)@).push(
                    chunk_request((x as int, y as int, z as int)),
                ));
            },
            None => {},
        }
    }

    /// Asks for every chunk in the region around the chunk at `(x, y, z)`:
    /// along each axis from [`VIEW_DISTANCE`] chunks below it up to one less
    /// than that above it. Chunks that have no slot become pending, and the
    /// requests for them are returned. Chunks that are pending or held are
    /// left alone.
    pub fn request_region(&mut self, x: i32, y: i32, z: i32, now: u64) -> (packets: Vec<
        UserPacket,
    >)
        requires
            old(self).wf(),
        ensures
            final(self).wf(),
            final(self)@ == region_spec(old(self)@, (x as int, y as int, z as int), now),
            is_region_batch(packet_views(packets@), old(self)@, (x as int, y as int, z as int)),
    {
        let ghost world = self@;
        let ghost c: ChunkCoord = (x as int, y as int, z as int);
        let mut packets: Vec<UserPacket> = Vec::new();
        let mut i: i64 = 0;
        proof {
            assert(self@ =~= region_partial(world, c, now, 0, 0, 0));
        }
        while i < 10
            invariant
                self.wf(),
                0 <= i <= 10,
                c == (x as int, y as int, z as int),
                self@ == region_partial(world, c, now, i as int, 0, 0),
                is_partial_region_batch(packet_views(packets@), world, c, i as int, 0, 0),
            decreases 10 - i,
        {
            let mut j: i64 = 0;
            while j < 10
                invariant
                    self.wf(),
                    0 <= i < 10,
                    0 <= j <= 10,
                    c == (x as int, y as int, z as int),
                    self@ == region_partial(world, c, now, i as int, j as int, 0),
                    is_partial_region_batch(packet_views(packets@), world, c, i as int, j as int, 0),
                decreases 10 - j,
            {
                let mut l: i64 = 0;
                while l < 10
                    invariant
                        self.wf(),
                        0 <= i < 10,
                        0 <= j < 10,
                        0 <= l <= 10,
                        c == (x as int, y as int, z as int),
                        self@ == region_partial(world, c, now, i as int, j as int, l as int),
                        is_partial_region_batch(
                            packet_views(packets@),
                            world,
                            c,
                            i as int,
                            j as int,
                            l as int,
                        ),
                    decreases 10 - l,
                {
                    let ghost sent = packet_views(packets@);
                    let ghost k: ChunkCoord = (x - 5 + i, y - 5 + j, z - 5 + l);
                    self.request_at(
                        x as i64 - 5 + i,
                        y as i64 - 5 + j,
                        z as i64 - 5 + l,
                        now,
                        &mut packets,
                    );
                    proof {
                        let grown = packet_views(packets@);
                        let (ii, jj, ll) = (i as int, j as int, l as int);
                        assert forall|d: ChunkCoord| region_before(c, d, ii, jj, ll + 1) <==> (
                        region_before(c, d, ii, jj, ll) || (d == k && coord_in_range(k))) by {}
                        assert(!region_before(c, k, ii, jj, ll));
                        assert(self@ =~= region_partial(world, c, now, ii, jj, ll + 1));
                        if coord_in_range(k) && !world.contains_key(k) {
                            assert(grown == sent.push(chunk_request(k)));
                            assert forall|n: int| 0 <= n < sent.len() implies sent[n]
                                != chunk_request(k) by {
                                let d = choose|d: ChunkCoord|
                                    region_before(c, d, ii, jj, ll) && !world.contains_key(d)
                                        && sent[n] == chunk_request(d);
                                assert(d != k);
                            }
                            assert forall|n: int| 0 <= n < grown.len() implies exists|
                                d: ChunkCoord,
                            |
                                region_before(c, d, ii, jj, ll + 1) && !world.contains_key(d)
                                    && #[trigger] grown[n] == chunk_request(d) by {
                                if n < sent.len() {
                                    let d = choose|d: ChunkCoord|
                                        region_before(c, d, ii, jj, ll) && !world.contains_key(d)
                                            && sent[n] == chunk_request(d);
                                    assert(region_before(c, d, ii, jj, ll + 1) && grown[n]
                                        == chunk_request(d));
                                } else {
                                    assert(region_before(c, k, ii, jj, ll + 1) && grown[n]
                                        == chunk_request(k));
                                }
                            }
                            assert forall|d: ChunkCoord|
                                region_before(c, d, ii, jj, ll + 1) && !world.contains_key(
                                    d,
                                ) implies grown.contains(#[trigger] chunk_request(d)) by {
                                if d == k {
                                    assert(grown[sent.len() as int] == chunk_request(k));
                                } else {
                                    assert(sent.contains(chunk_request(d)));
                                    let n = choose|n: int|
                                        0 <= n < sent.len() && sent[n] == chunk_request(d);
                                    assert(grown[n] == chunk_request(d));
                                }
                            }
                        } else {
                            assert(grown == sent);
                            assert forall|n: int| 0 <= n < grown.len() implies exists|
                                d: ChunkCoord,
                            |
                                region_before(c, d, ii, jj, ll + 1) && !world.contains_key(d)
                                    && #[trigger] grown[n] == chunk_request(d) by {
                                let d = choose|d: ChunkCoord|
                                    region_before(c, d, ii, jj, ll) && !world.contains_key(d)
                                        && sent[n] == chunk_request(d);
                                assert(region_before(c, d, ii, jj, ll + 1) && grown[n]
                                    == chunk_request(d));
                            }
                        }
                    }
                    l = l + 1;
                }
                proof {
                    let (ii, jj) = (i as int, j as int);
                    assert forall|d: ChunkCoord| region_before(c, d, ii, jj, 10) <==> region_before(
                        c,
                        d,
                        ii,
                        jj + 1,
                        0,
                    ) by {}
                    assert(region_partial(world, c, now, ii, jj, 10) =~= region_partial(
                        world,
                        c,
                        now,
                        ii,
                        jj + 1,
                        0,
                    ));
                }
                j = j + 1;
            }
            proof {
                let ii = i as int;
                assert forall|d: ChunkCoord| region_before(c, d, ii, 10, 0) <==> region_before(
                    c,
                    d,
                    ii + 1,
                    0,
                    0,
                ) by {}
                assert(region_partial(world, c, now, ii, 10, 0) =~= region_partial(
                    world,
                    c,
                    now,
                    ii + 1,
                    0,
                    0,
                ));
            }
            i = i + 1;
        }
        proof {
            assert forall|d: ChunkCoord| region_before(c, d, 10, 0, 0) <==> in_region(c, d) by {}
            assert(self@ =~= region_spec(world, c, now));
        }
        packets
    }
}

} // verus!
