//! The client's side of chunk streaming: asking for chunks, asking again
//! when no answer came, and taking in the chunks that arrive.

use vstd::prelude::*;
use crate::client::chunk::{
    grid_view, is_pending, is_resident, BlockGrid, Chunk, ChunkView, SlotView, WorldView,
};
use crate::client::store::{coord_views, ChunkStore, ChunkWaiter};
use crate::coords::{coord_in_range, ChunkCoord};
use crate::packet::{ServerPacket, ServerPacketView, UserPacket, UserPacketView};

verus! {

/// Time after which a request that got no answer is sent again, in
/// milliseconds.
pub const RESEND_INTERVAL_MS: u64 = 800;

/// Whether a request sent at `sent_at` is to be sent again at `now`.
pub open spec fn is_due(sent_at: u64, now: u64) -> bool {
    now - sent_at > RESEND_INTERVAL_MS
}

/// The store after the client has asked for the chunk at `c`: a coordinate
/// without a slot becomes pending, any other stays as it is.
pub open spec fn request_spec(world: WorldView, c: ChunkCoord, now: u64) -> WorldView {
    if world.contains_key(c) {
        world
    } else {
        world.insert(c, SlotView::Pending(now))
    }
}

/// The chunk behind `c` with its caches dropped, if it is held.
pub open spec fn invalidate_one(world: WorldView, c: ChunkCoord) -> WorldView {
    if is_resident(world, c) {
        world.insert(c, SlotView::Resident(world[c]->Resident_0.invalidated()))
    } else {
        world
    }
}

/// The six chunks that share a face with `c`, their caches dropped.
pub open spec fn invalidate_around(world: WorldView, c: ChunkCoord) -> WorldView {
    let w1 = invalidate_one(world, (c.0 - 1, c.1, c.2));
    let w2 = invalidate_one(w1, (c.0 + 1, c.1, c.2));
    let w3 = invalidate_one(w2, (c.0, c.1 - 1, c.2));
    let w4 = invalidate_one(w3, (c.0, c.1 + 1, c.2));
    let w5 = invalidate_one(w4, (c.0, c.1, c.2 - 1));
    invalidate_one(w5, (c.0, c.1, c.2 + 1))
}

/// A chunk as it arrives: its blocks, nothing cached.
pub open spec fn fresh_chunk(c: ChunkCoord, blocks: Map<(int, int, int), u32>) -> ChunkView {
    ChunkView { coord: c, blocks, mesh: None, lighting: None }
}

/// The store after chunk data for `c` has arrived. Data for a pending
/// coordinate makes the chunk resident and drops the caches of the held
/// chunks around it, whose boundary faces depend on it. Data that was not
/// asked for, or that arrives again, changes nothing.
pub open spec fn install_spec(
    world: WorldView,
    c: ChunkCoord,
    blocks: Map<(int, int, int), u32>,
) -> WorldView {
    if is_pending(world, c) {
        invalidate_around(world.insert(c, SlotView::Resident(fresh_chunk(c, blocks))), c)
    } else {
        world
    }
}

/// Whether the request for `c` is to be sent again at `now`.
pub open spec fn resend_wanted(world: WorldView, c: ChunkCoord, now: u64) -> bool {
    &&& world.contains_key(c)
    &&& world[c] matches SlotView::Pending(sent_at)
    &&& is_due(sent_at, now)
}

/// The store after the overdue requests have been sent again at `now`:
/// each of them is pending since `now`.
pub open spec fn resend_spec(world: WorldView, now: u64) -> WorldView {
    Map::new(
        |c: ChunkCoord| world.contains_key(c),
        |c: ChunkCoord|
            if resend_wanted(world, c, now) {
                SlotView::Pending(now)
            } else {
                world[c]
            },
    )
}

/// The request for the chunk at `c`.
pub open spec fn chunk_request(c: ChunkCoord) -> UserPacketView {
    UserPacketView::ChunkRequest { x: c.0 as i32, y: c.1 as i32, z: c.2 as i32 }
}

/// What a list of packets says.
pub open spec fn packet_views(packets: Seq<UserPacket>) -> Seq<UserPacketView> {
    packets.map_values(|p: UserPacket| p@)
}

/// `packets` is what is sent when the overdue requests are sent again: one
/// request for each overdue coordinate and nothing else, in no particular
/// order.
pub open spec fn is_resend_batch(packets: Seq<UserPacketView>, world: WorldView, now: u64) -> bool {
    &&& packets.no_duplicates()
    &&& forall|i: int|
        0 <= i < packets.len() ==> exists|c: ChunkCoord|
            resend_wanted(world, c, now) && #[trigger] packets[i] == chunk_request(c)
    &&& forall|c: ChunkCoord|
        resend_wanted(world, c, now) ==> packets.contains(#[trigger] chunk_request(c))
}

/// The store when the overdue requests among the first `n` of `coords` have
/// been sent again.
pub open spec fn resend_partial(world: WorldView, now: u64, coords: Seq<ChunkCoord>, n: int) -> WorldView {
    Map::new(
        |c: ChunkCoord| world.contains_key(c),
        |c: ChunkCoord|
            if coords.take(n).contains(c) && resend_wanted(world, c, now) {
                SlotView::Pending(now)
            } else {
                world[c]
            },
    )
}

/// The requests sent when the overdue requests among the first `n` of
/// `coords` have been sent again.
pub open spec fn is_partial_batch(
    packets: Seq<UserPacketView>,
    world: WorldView,
    now: u64,
    coords: Seq<ChunkCoord>,
    n: int,
) -> bool {
    &&& packets.no_duplicates()
    &&& forall|i: int|
        0 <= i < packets.len() ==> exists|c: ChunkCoord|
            coords.take(n).contains(c) && resend_wanted(world, c, now) && #[trigger] packets[i]
                == chunk_request(c)
    &&& forall|c: ChunkCoord|
        coords.take(n).contains(c) && resend_wanted(world, c, now) ==> packets.contains(
            #[trigger] chunk_request(c),
        )
}

/// What the arrival of a packet from the server means to the client.
pub enum ClientEvent {
    /// A chunk that was asked for has arrived and is now held.
    ChunkInstalled { x: i32, y: i32, z: i32 },
    /// Chunk data arrived that was not asked for, or arrived again; it was
    /// discarded.
    ChunkDiscarded { x: i32, y: i32, z: i32 },
    /// The server disconnected the client: nothing more will arrive.
    Disconnected { reason: String },
    /// Anything else; the store does not change.
    Notice(ServerPacket),
}

/// The store after a packet from the server has been taken in.
pub open spec fn receive_spec(world: WorldView, packet: ServerPacketView) -> WorldView {
    match packet {
        ServerPacketView::ChunkData { x, y, z, blocks } => install_spec(
            world,
            (x as int, y as int, z as int),
            blocks,
        ),
        _ => world,
    }
}

/// Whether `event` is what taking in `packet` reports.
pub open spec fn is_event_of(event: ClientEvent, world: WorldView, packet: ServerPacketView) -> bool {
    match packet {
        ServerPacketView::ChunkData { x, y, z, blocks } => {
            if is_pending(world, (x as int, y as int, z as int)) {
                event matches ClientEvent::ChunkInstalled { x: ex, y: ey, z: ez } && ex == x && ey
                    == y && ez == z
            } else {
                event matches ClientEvent::ChunkDiscarded { x: ex, y: ey, z: ez } && ex == x && ey
                    == y && ez == z
            }
        },
        ServerPacketView::Disconnect { reason } => event matches ClientEvent::Disconnected {
            reason: r,
        } && r@ == reason,
        _ => event matches ClientEvent::Notice(p) && p@ == packet,
    }
}

impl ChunkStore {
    /// Drops the caches of the chunk at a coordinate, if the chunk is held.
    /// The coordinate may lie outside the range that the store can hold.
    pub(crate) fn invalidate_at(&mut self, x: i64, y: i64, z: i64)
        requires
            old(self).wf(),
        ensures
            final(self).wf(),
            final(self)@ == invalidate_one(old(self)@, (x as int, y as int, z as int)),
    {
        if x < i32::MIN as i64 || x > i32::MAX as i64 || y < i32::MIN as i64 || y > i32::MAX as i64
            || z < i32::MIN as i64 || z > i32::MAX as i64 {
            proof {
                self.lemma_coords_in_range();
            }
            return ;
        }
        let resident: bool = match self.get(x as i32, y as i32, z as i32) {
            Some(ChunkWaiter::Resident(_)) => true,
            _ => false,
        };
        if resident {
            match self.take(x as i32, y as i32, z as i32) {
                Some(ChunkWaiter::Resident(mut chunk)) => {
                    chunk.invalidate_mesh();
                    self.put(x as i32, y as i32, z as i32, ChunkWaiter::Resident(chunk));
                    assert(self@ =~= invalidate_one(old(self)@, (x as int, y as int, z as int)));
                },
                _ => {},
            }
        }
    }

    /// Drops the caches of the held chunks that share a face with the chunk
    /// at the given coordinate.
    pub(crate) fn invalidate_neighbors(&mut self, x: i32, y: i32, z: i32)
        requires
            old(self).wf(),
        ensures
            final(self).wf(),
            final(self)@ == invalidate_around(old(self)@, (x as int, y as int, z as int)),
    {
        self.invalidate_at(x as i64 - 1, y as i64, z as i64);
        self.invalidate_at(x as i64 + 1, y as i64, z as i64);
        self.invalidate_at(x as i64, y as i64 - 1, z as i64);
        self.invalidate_at(x as i64, y as i64 + 1, z as i64);
        self.invalidate_at(x as i64, y as i64, z as i64 - 1);
        self.invalidate_at(x as i64, y as i64, z as i64 + 1);
    }

    /// Asks for the chunk at a coordinate. A coordinate that has no slot
    /// becomes pending and the request to send is returned. For a pending
    /// or resident coordinate nothing changes and nothing is to be sent.
    pub fn request_chunk(&mut self, x: i32, y: i32, z: i32, now: u64) -> (packet: Option<
        UserPacket,
    >)
        requires
            old(self).wf(),
        ensures
            final(self).wf(),
            final(self)@ == request_spec(old(self)@, (x as int, y as int, z as int), now),
            packet is Some <==> !old(self)@.contains_key((x as int, y as int, z as int)),
            packet matches Some(p) ==> p@ == (UserPacketView::ChunkRequest { x, y, z }),
    {
        if self.contains(x, y, z) {
            None
        } else {
            self.put(x, y, z, ChunkWaiter::Pending(now));
            Some(UserPacket::ChunkRequest { x, y, z })
        }
    }

    /// Takes in the blocks of a chunk that the server sent. If the
    /// coordinate is pending, the chunk becomes resident, the caches of the
    /// held chunks around it are dropped, and `true` is returned. Otherwise
    /// the data is discarded and `false` is returned.
    pub fn install_chunk(&mut self, x: i32, y: i32, z: i32, blocks: Box<BlockGrid>) -> (installed:
        bool)
        requires
            old(self).wf(),
        ensures
            final(self).wf(),
            final(self)@ == install_spec(
                old(self)@,
                (x as int, y as int, z as int),
                grid_view(*blocks),
            ),
            installed == is_pending(old(self)@, (x as int, y as int, z as int)),
    {
        let pending: bool = match self.get(x, y, z) {
            Some(ChunkWaiter::Pending(_)) => true,
            _ => false,
        };
        if pending {
            let chunk = Chunk::from_data(x, y, z, blocks);
            self.put(x, y, z, ChunkWaiter::Resident(chunk));
            self.invalidate_neighbors(x, y, z);
            true
        } else {
            false
        }
    }
    /// Sends again every request that has been pending for longer than
    /// [`RESEND_INTERVAL_MS`]: returns the requests to send and records `now`
    /// as the time they were sent.
    pub fn resend_due(&mut self, now: u64) -> (packets: Vec<UserPacket>)
        requires
            old(self).wf(),
        ensures
            final(self).wf(),
            final(self)@ == resend_spec(old(self)@, now),
            is_resend_batch(packet_views(packets@), old(self)@, now),
    {
        let coords = self.coords();
        let ghost cs = coord_views(coords@);
        let ghost world = self@;
        let mut packets: Vec<UserPacket> = Vec::new();
        let mut i: usize = 0;
        proof {
            self.lemma_coords_in_range();
            assert(cs.take(0) =~= Seq::<ChunkCoord>::empty());
            assert(self@ =~= resend_partial(world, now, cs, 0));
        }
        while i < coords.len()
            invariant
                self.wf(),
                i <= coords.len(),
                cs == coord_views(coords@),
                cs.no_duplicates(),
                forall|c: ChunkCoord| world.contains_key(c) <==> cs.contains(c),
                forall|c: ChunkCoord| #[trigger] world.contains_key(c) ==> coord_in_range(c),
                self@ == resend_partial(world, now, cs, i as int),
                is_partial_batch(packet_views(packets@), world, now, cs, i as int),
            decreases coords.len() - i,
        {
            let (x, y, z) = coords[i];
            let ghost c: ChunkCoord = (x as int, y as int, z as int);
            let ghost sent = packet_views(packets@);
            proof {
                assert(cs[i as int] == c);
                assert(cs.contains(c));
                assert(cs.take(i as int + 1) =~= cs.take(i as int).push(c));
                if cs.take(i as int).contains(c) {
                    let j = choose|j: int| 0 <= j < i && cs.take(i as int)[j] == c;
                    assert(cs[j] == cs[i as int]);
                }
                assert forall|d: ChunkCoord| cs.take(i as int + 1).contains(d) <==> (d == c
                    || cs.take(i as int).contains(d)) by {
                    if cs.take(i as int).contains(d) {
                        let j = choose|j: int| 0 <= j < i && cs.take(i as int)[j] == d;
                        assert(cs.take(i as int + 1)[j] == d);
                    }
                    if d == c {
                        assert(cs.take(i as int + 1)[i as int] == d);
                    }
                }
            }
            let due: bool = match self.get(x, y, z) {
                Some(ChunkWaiter::Pending(sent_at)) => now > *sent_at && now - *sent_at
                    > RESEND_INTERVAL_MS,
                _ => false,
            };
            assert(due == resend_wanted(world, c, now));
            if due {
                self.put(x, y, z, ChunkWaiter::Pending(now));
                packets.push(UserPacket::ChunkRequest { x, y, z });
                proof {
                    let grown = packet_views(packets@);
                    assert(grown =~= sent.push(chunk_request(c)));
                    assert forall|j: int| 0 <= j < sent.len() implies sent[j] != chunk_request(
                        c,
                    ) by {
                        let d = choose|d: ChunkCoord|
                            cs.take(i as int).contains(d) && resend_wanted(world, d, now) && sent[j]
                                == chunk_request(d);
                        assert(d != c);
                    }
                    assert forall|j: int| 0 <= j < grown.len() implies exists|d: ChunkCoord|
                        cs.take(i as int + 1).contains(d) && resend_wanted(world, d, now)
                            && #[trigger] grown[j] == chunk_request(d) by {
                        if j < sent.len() {
                            let d = choose|d: ChunkCoord|
                                cs.take(i as int).contains(d) && resend_wanted(world, d, now)
                                    && sent[j] == chunk_request(d);
                            assert(cs.take(i as int + 1).contains(d) && grown[j] == chunk_request(
                                d,
                            ));
                        } else {
                            assert(cs.take(i as int + 1).contains(c) && grown[j] == chunk_request(
                                c,
                            ));
                        }
                    }
                    assert forall|d: ChunkCoord|
                        cs.take(i as int + 1).contains(d) && resend_wanted(
                            world,
                            d,
                            now,
                        ) implies grown.contains(#[trigger] chunk_request(d)) by {
                        if d == c {
                            assert(grown[sent.len() as int] == chunk_request(c));
                        } else {
                            assert(sent.contains(chunk_request(d)));
                            let j = choose|j: int| 0 <= j < sent.len() && sent[j] == chunk_request(d);
                            assert(grown[j] == chunk_request(d));
                        }
                    }
                }
            }
            assert(self@ =~= resend_partial(world, now, cs, i as int + 1));
            i = i + 1;
        }
        proof {
            assert(cs.take(i as int) =~= cs);
            assert(self@ =~= resend_spec(world, now));
        }
        packets
    }
    /// Takes in a packet from the server. Chunk data goes to
    /// [`ChunkStore::install_chunk`]; every other packet leaves the store as
    /// it is and is handed back for the client to act on.
    pub fn receive(&mut self, packet: ServerPacket) -> (event: ClientEvent)
        requires
            old(self).wf(),
        ensures
            final(self).wf(),
            final(self)@ == receive_spec(old(self)@, packet@),
            is_event_of(event, old(self)@, packet@),
    {
        match packet {
            ServerPacket::ChunkData { x, y, z, blocks } => {
                if self.install_chunk(x, y, z, blocks) {
                    ClientEvent::ChunkInstalled { x, y, z }
                } else {
                    ClientEvent::ChunkDiscarded { x, y, z }
                }
            },
            ServerPacket::Disconnect { reason } => ClientEvent::Disconnected { reason },
            other => ClientEvent::Notice(other),
        }
    }
}

} // verus!
