//! What the server does for one connected player.

use vstd::prelude::*;
use crate::packet::{ServerPacket, ServerPacketView, UserPacket, UserPacketView};
use crate::server::chunk::{blocks_packet, ChunkCache, ChunkGenerator};

verus! {

/// Time without a packet after which a player counts as gone, in seconds.
pub const PLAYER_TIMEOUT_SECS: u64 = 20;

/// What a player's handler does next.
pub enum PlayerAction {
    /// Send the packet to the player and go on.
    Reply(ServerPacket),
    /// The player has left: end the handler.
    Stop,
}

/// The packet that tells a player that the server has heard nothing from
/// the player for too long.
pub fn timed_out() -> (packet: ServerPacket)
    ensures
        packet@ == (ServerPacketView::Disconnect { reason: "timed out"@ }),
{
    ServerPacket::Disconnect { reason: "timed out".to_owned() }
}

/// Deals with one packet of a connected player. A ping is answered with a
/// pong. A request for a chunk is answered with the chunk, generated on the
/// first request and served from the cache after that. `Leave` ends the
/// handler. Requests to join never reach a handler.
pub fn handle_packet<G>(cache: &mut ChunkCache, gen: &mut G, packet: UserPacket) -> (action:
    PlayerAction) where G: ChunkGenerator
    requires
        old(cache).wf(),
        !(packet is JoinRequest),
    ensures
        final(cache).wf(),
        match packet@ {
            UserPacketView::Ping => {
                &&& action matches PlayerAction::Reply(reply)
                &&& reply@ == ServerPacketView::Pong
                &&& final(cache)@ == old(cache)@
                &&& *final(gen) == *old(gen)
            },
            UserPacketView::Leave => {
                &&& action is Stop
                &&& final(cache)@ == old(cache)@
                &&& *final(gen) == *old(gen)
            },
            UserPacketView::ChunkRequest { x, y, z } => {
                let c = (x as int, y as int, z as int);
                &&& action matches PlayerAction::Reply(reply)
                &&& final(cache)@.contains_key(c)
                &&& reply@ == blocks_packet(c, final(cache)@[c])
                &&& old(cache)@.contains_key(c) ==> final(cache)@ == old(cache)@ && *final(gen)
                    == *old(gen)
                &&& !old(cache)@.contains_key(c) ==> final(cache)@ == old(cache)@.insert(
                    c,
                    final(cache)@[c],
                )
                &&& !old(cache)@.contains_key(c) ==> old(gen).makes(x, y, z, final(cache)@[c])
            },
            UserPacketView::JoinRequest { .. } => true,
        },
{
    match packet {
        UserPacket::Ping => PlayerAction::Reply(ServerPacket::Pong),
        UserPacket::Leave => PlayerAction::Stop,
        UserPacket::ChunkRequest { x, y, z } => PlayerAction::Reply(cache.serve(gen, x, y, z)),
        UserPacket::JoinRequest { .. } => PlayerAction::Stop,
    }
}

} // verus!
