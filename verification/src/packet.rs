//! The messages that client and server exchange, one datagram each.

use vstd::prelude::*;
use crate::client::chunk::{grid_view, BlockGrid};

verus! {

/// Largest datagram payload, in bytes.
pub const MAX_PACKET_SIZE: usize = 1048576;

/// Packet from user to server
pub enum UserPacket {
    JoinRequest { username: String },
    Ping,
    Leave,
    ChunkRequest { x: i32, y: i32, z: i32 },
}

/// Mathematical content of a [`UserPacket`].
pub enum UserPacketView {
    JoinRequest { username: Seq<char> },
    Ping,
    Leave,
    ChunkRequest { x: i32, y: i32, z: i32 },
}

impl View for UserPacket {
    type V = UserPacketView;

    open spec fn view(&self) -> UserPacketView {
        match self {
            UserPacket::JoinRequest { username } => UserPacketView::JoinRequest {
                username: username@,
            },
            UserPacket::Ping => UserPacketView::Ping,
            UserPacket::Leave => UserPacketView::Leave,
            UserPacket::ChunkRequest { x, y, z } => UserPacketView::ChunkRequest {
                x: *x,
                y: *y,
                z: *z,
            },
        }
    }
}

/// Packet from server to user
pub enum ServerPacket {
    ConnectionAccepted,
    Pong,
    PlayerJoined { username: String },
    PlayerLeft { username: String },
    Disconnect { reason: String },
    ChunkData { x: i32, y: i32, z: i32, blocks: Box<BlockGrid> },
}

/// Mathematical content of a [`ServerPacket`].
pub enum ServerPacketView {
    ConnectionAccepted,
    Pong,
    PlayerJoined { username: Seq<char> },
    PlayerLeft { username: Seq<char> },
    Disconnect { reason: Seq<char> },
    ChunkData { x: i32, y: i32, z: i32, blocks: Map<(int, int, int), u32> },
}

impl View for ServerPacket {
    type V = ServerPacketView;

    open spec fn view(&self) -> ServerPacketView {
        match self {
            ServerPacket::ConnectionAccepted => ServerPacketView::ConnectionAccepted,
            ServerPacket::Pong => ServerPacketView::Pong,
            ServerPacket::PlayerJoined { username } => ServerPacketView::PlayerJoined {
                username: username@,
            },
            ServerPacket::PlayerLeft { username } => ServerPacketView::PlayerLeft {
                username: username@,
            },
            ServerPacket::Disconnect { reason } => ServerPacketView::Disconnect { reason: reason@ },
            ServerPacket::ChunkData { x, y, z, blocks } => ServerPacketView::ChunkData {
                x: *x,
                y: *y,
                z: *z,
                blocks: grid_view(**blocks),
            },
        }
    }
}

impl UserPacket {
    /// Whether nothing is sent after this packet: the client is leaving.
    pub fn ends_session(&self) -> (ends: bool)
        ensures
            ends == (self@ is Leave),
    {
        match self {
            UserPacket::Leave => true,
            _ => false,
        }
    }
}

impl ServerPacket {
    /// Whether nothing is received after this packet: the server has
    /// disconnected the client.
    pub fn ends_session(&self) -> (ends: bool)
        ensures
            ends == (self@ is Disconnect),
    {
        match self {
            ServerPacket::Disconnect { .. } => true,
            _ => false,
        }
    }
}

/// A serialised packet that is too long for one datagram.
#[derive(Copy, Clone, Debug, PartialEq, Eq, Structural)]
pub struct PacketTooLarge {
    /// Length of the serialised packet, in bytes.
    pub len: usize,
}

/// Accepts the length of a serialised packet if the packet fits in one
/// datagram.
pub fn check_packet_size(len: usize) -> (checked: Result<(), PacketTooLarge>)
    ensures
        len <= MAX_PACKET_SIZE <==> checked is Ok,
        checked matches Err(e) ==> e.len == len,
{
    if len > MAX_PACKET_SIZE {
        Err(PacketTooLarge { len })
    } else {
        Ok(())
    }
}

} // verus!
