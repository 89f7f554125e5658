//! The server's side: who is connected, the chunks generated so far, and
//! what the server answers.

use vstd::prelude::*;
use crate::packet::{ServerPacket, ServerPacketView, UserPacket, UserPacketView};

pub mod chunk;
pub mod player;

verus! {

/// The address that a datagram came from: the sender's IP address as a
/// 128-bit number (an IPv4 address in its IPv6-mapped form) and its port.
#[derive(Copy, Clone, Debug, PartialEq, Eq, Structural)]
pub struct PeerAddr {
    pub ip: u128,
    pub port: u16,
}

/// One connected player.
pub struct Session {
    addr: PeerAddr,
    username: String,
}

/// The connected players, in the order in which they joined. Looking a
/// name or an address up scans them.
pub struct Sessions {
    entries: Vec<Session>,
}

/// Mathematical content of [`Sessions`]: address and name of each connected
/// player, in the order in which they joined.
pub type SessionsView = Seq<(PeerAddr, Seq<char>)>;

/// Whether a player of that name is connected.
pub open spec fn name_taken(sessions: SessionsView, name: Seq<char>) -> bool {
    exists|i: int| 0 <= i < sessions.len() && (#[trigger] sessions[i]).1 == name
}

/// Whether a player is connected from that address.
pub open spec fn addr_taken(sessions: SessionsView, addr: PeerAddr) -> bool {
    exists|i: int| 0 <= i < sessions.len() && (#[trigger] sessions[i]).0 == addr
}

/// Validity: no two players share a name, and no two an address.
pub open spec fn sessions_wf(sessions: SessionsView) -> bool {
    forall|i: int, j: int|
        0 <= i < j < sessions.len() ==> (#[trigger] sessions[i]).0 != (#[trigger] sessions[j]).0
            && sessions[i].1 != sessions[j].1
}

/// What the server answers to a request to join.
pub open spec fn join_reply(sessions: SessionsView, addr: PeerAddr, name: Seq<char>) -> ServerPacketView {
    if name_taken(sessions, name) {
        ServerPacketView::Disconnect { reason: "username already taken!"@ }
    } else if addr_taken(sessions, addr) {
        ServerPacketView::Disconnect { reason: "address already connected!"@ }
    } else {
        ServerPacketView::ConnectionAccepted
    }
}

/// The connected players after a request to join: the new player is added
/// unless the name or the address is in use.
pub open spec fn join_spec(sessions: SessionsView, addr: PeerAddr, name: Seq<char>) -> SessionsView {
    if name_taken(sessions, name) || addr_taken(sessions, addr) {
        sessions
    } else {
        sessions.push((addr, name))
    }
}

/// `after` is `before` without the player connected from `addr`.
pub open spec fn has_left(before: SessionsView, after: SessionsView, addr: PeerAddr) -> bool {
    if addr_taken(before, addr) {
        exists|i: int|
            0 <= i < before.len() && (#[trigger] before[i]).0 == addr && after == before.remove(i)
    } else {
        after == before
    }
}

/// What the server does with a datagram.
pub enum Routing {
    /// Answer the sender; the request to join was refused.
    Refuse(ServerPacket),
    /// Answer the sender and start serving the new player.
    Accept(ServerPacket),
    /// Hand the packet to the player's handler.
    Forward(UserPacket),
    /// Hand the packet to the player's handler and wait for the handler to
    /// end: the player has left.
    ForwardLast(UserPacket),
    /// Drop the packet: it is from nobody the server knows.
    Ignore,
}

impl View for Sessions {
    type V = SessionsView;

    closed spec fn view(&self) -> SessionsView {
        Seq::new(self.entries@.len(), |i: int| (self.entries@[i].addr, self.entries@[i].username@))
    }
}

impl Sessions {
    /// Validity: see [`sessions_wf`].
    pub open spec fn wf(&self) -> bool {
        sessions_wf(self@)
    }

    /// Nobody connected.
    pub fn new() -> (sessions: Sessions)
        ensures
            sessions.wf(),
            sessions@.len() == 0,
    {
        Sessions { entries: Vec::new() }
    }

    /// Number of connected players.
    pub fn len(&self) -> (n: usize)
        ensures
            n == self@.len(),
    {
        self.entries.len()
    }

    /// Whether a player of that name is connected.
    pub fn has_name(&self, name: &String) -> (taken: bool)
        ensures
            taken == name_taken(self@, name@),
    {
        let mut i: usize = 0;
        while i < self.entries.len()
            invariant
                i <= self.entries@.len(),
                forall|j: int| 0 <= j < i ==> (#[trigger] self@[j]).1 != name@,
            decreases self.entries@.len() - i,
        {
            if self.entries[i].username == *name {
                assert(self@[i as int].1 == name@);
                return true;
            }
            i = i + 1;
        }
        false
    }

    /// Position of the player connected from `addr`, if there is one.
    fn position(&self, addr: PeerAddr) -> (found: Option<usize>)
        ensures
            found is Some <==> addr_taken(self@, addr),
            found matches Some(i) ==> i < self@.len() && self@[i as int].0 == addr,
    {
        let mut i: usize = 0;
        while i < self.entries.len()
            invariant
                i <= self.entries@.len(),
                forall|j: int| 0 <= j < i ==> (#[trigger] self@[j]).0 != addr,
            decreases self.entries@.len() - i,
        {
            if self.entries[i].addr == addr {
                assert(self@[i as int].0 == addr);
                return Some(i);
            }
            i = i + 1;
        }
        None
    }

    /// Whether a player is connected from that address.
    pub fn has_addr(&self, addr: PeerAddr) -> (taken: bool)
        ensures
            taken == addr_taken(self@, addr),
    {
        self.position(addr).is_some()
    }

    /// The name of the player connected from `addr`.
    pub fn username(&self, addr: PeerAddr) -> (name: Option<&String>)
        ensures
            name is Some <==> addr_taken(self@, addr),
            name matches Some(n) ==> exists|i: int|
                0 <= i < self@.len() && (#[trigger] self@[i]) == (addr, n@),
    {
        match self.position(addr) {
            Some(i) => {
                assert(self@[i as int] == (addr, self.entries@[i as int].username@));
                Some(&self.entries[i].username)
            },
            None => None,
        }
    }

    /// Deals with a request to join. A player whose name and address are
    /// both unused is added and accepted. A name or an address that is in
    /// use is refused with the reason, and nothing changes.
    pub fn join(&mut self, addr: PeerAddr, username: String) -> (reply: ServerPacket)
        requires
            old(self).wf(),
        ensures
            final(self).wf(),
            final(self)@ == join_spec(old(self)@, addr, username@),
            reply@ == join_reply(old(self)@, addr, username@),
    {
        if self.has_name(&username) {
            ServerPacket::Disconnect { reason: "username already taken!".to_owned() }
        } else if self.has_addr(addr) {
            ServerPacket::Disconnect { reason: "address already connected!".to_owned() }
        } else {
            let ghost name = username@;
            self.entries.push(Session { addr, username });
            assert(self@ =~= old(self)@.push((addr, name)));
            ServerPacket::ConnectionAccepted
        }
    }

    /// Removes the player connected from `addr`, if there is one, and
    /// returns the player's name.
    pub fn leave(&mut self, addr: PeerAddr) -> (name: Option<String>)
        requires
            old(self).wf(),
        ensures
            final(self).wf(),
            has_left(old(self)@, final(self)@, addr),
            name is Some <==> addr_taken(old(self)@, addr),
            name matches Some(n) ==> exists|i: int|
                0 <= i < old(self)@.len() && (#[trigger] old(self)@[i]) == (addr, n@),
    {
        match self.position(addr) {
            Some(i) => {
                let session = self.entries.remove(i);
                assert(self@ =~= old(self)@.remove(i as int));
                assert(old(self)@[i as int] == (addr, session.username@));
                Some(session.username)
            },
            None => None,
        }
    }

    /// Decides what to do with a datagram. A request to join is answered,
    /// and accepted if name and address are unused. Any other packet goes
    /// to the handler of the player connected from that address; with a
    /// `Leave` the player is removed. A packet from an unknown address is
    /// dropped.
    pub fn route(&mut self, addr: PeerAddr, packet: UserPacket) -> (routing: Routing)
        requires
            old(self).wf(),
        ensures
            final(self).wf(),
            match packet@ {
                UserPacketView::JoinRequest { username } => {
                    &&& final(self)@ == join_spec(old(self)@, addr, username)
                    &&& if join_reply(old(self)@, addr, username)
                        is ConnectionAccepted {
                        routing matches Routing::Accept(reply) && reply@
                            == ServerPacketView::ConnectionAccepted
                    } else {
                        routing matches Routing::Refuse(reply) && reply@ == join_reply(
                            old(self)@,
                            addr,
                            username,
                        )
                    }
                },
                UserPacketView::Leave => {
                    &&& has_left(old(self)@, final(self)@, addr)
                    &&& if addr_taken(old(self)@, addr) {
                        routing matches Routing::ForwardLast(p) && p@ == packet@
                    } else {
                        routing is Ignore
                    }
                },
                _ => {
                    &&& final(self)@ == old(self)@
                    &&& if addr_taken(old(self)@, addr) {
                        routing matches Routing::Forward(p) && p@ == packet@
                    } else {
                        routing is Ignore
                    }
                },
            },
    {
        match packet {
            UserPacket::JoinRequest { username } => {
                let reply = self.join(addr, username);
                match reply {
                    ServerPacket::ConnectionAccepted => Routing::Accept(reply),
                    _ => Routing::Refuse(reply),
                }
            },
            UserPacket::Leave => {
                match self.leave(addr) {
                    Some(_) => Routing::ForwardLast(UserPacket::Leave),
                    None => Routing::Ignore,
                }
            },
            other => {
                if self.has_addr(addr) {
                    Routing::Forward(other)
                } else {
                    Routing::Ignore
                }
            },
        }
    }
}

} // verus!
