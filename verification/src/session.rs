//! Server-side state for one remote peer: sequence counters in both
//! directions, the handshake state, the peer's position, and the
//! disconnected flag, together with the single inbound entry point that
//! mutates them.

use vstd::prelude::*;

use crate::guard::{accept, spec_accept};
use crate::handshake::{transition, spec_transition, HandshakeEvent, HandshakeState};
use crate::packet::{packet_wf, Packet, PacketV};
use crate::proto::{decode_message, encode_message, lemma_encode_message_wf, message_wf,
    spec_decode_message, spec_encode_message, Message, MessageV};

verus! {

/// What a session actor reacts to: an outbound request, an inbound
/// packet, or the stop signal.
#[derive(Debug)]
pub enum SessionMessage {
    Send(Message),
    Recv(Packet),
    Stop,
}

/// One peer's protocol state. The remote address is an opaque 64-bit
/// identity chosen by the caller that owns the socket.
#[derive(Debug, Clone, Copy, PartialEq, Eq, Structural)]
pub struct Session {
    /// The peer's address, the session's immutable identity key.
    pub remote: u64,
    /// Highest sequence number accepted from this peer.
    pub client_sequence: u32,
    /// Next sequence number to send to this peer.
    pub server_sequence: u32,
    pub handshake: HandshakeState,
    /// The peer's position on each axis.
    pub x: i32,
    pub y: i32,
    /// Set by an inbound `Disconnect`; the registry drops the session.
    pub disconnected: bool,
}

/// Saturating coordinate addition.
pub open spec fn sat_add_i32(a: i32, b: i32) -> i32 {
    if a + b > i32::MAX {
        i32::MAX
    } else if a + b < i32::MIN {
        i32::MIN
    } else {
        (a + b) as i32
    }
}

/// Adds a movement delta to a coordinate, clamping at the axis bounds.
pub fn sat_add(a: i32, b: i32) -> (r: i32)
    ensures
        r == sat_add_i32(a, b),
{
    match a.checked_add(b) {
        Some(v) => v,
        None => if b >= 0 {
            i32::MAX
        } else {
            i32::MIN
        },
    }
}

/// A fresh session for a peer: nothing accepted yet, the first send will
/// carry sequence number 1, handshake down, position at the origin.
pub open spec fn spec_init(remote: u64) -> Session {
    Session {
        remote,
        client_sequence: 0,
        server_sequence: 1,
        handshake: HandshakeState::Disconnected,
        x: 0,
        y: 0,
        disconnected: false,
    }
}

/// Dispatch of one decoded message (§ after the sequence guard has
/// accepted the packet): handshake traffic drives the state machine, a
/// heartbeat is echoed, a movement shifts the position, a disconnect
/// raises the flag, and an inbound refresh is not a valid message and is
/// ignored.
pub open spec fn spec_dispatch(s: Session, m: MessageV, fresh_nonce: u32) -> (Session, Option<
    MessageV,
>) {
    match m {
        MessageV::Connect => {
            let (hs, reply) = spec_transition(s.handshake, HandshakeEvent::Connect, fresh_nonce);
            (
                Session { handshake: hs, ..s },
                match reply {
                    Some(h) => Some(MessageV::Handshake(h)),
                    None => None,
                },
            )
        },
        MessageV::Handshake(h) => {
            let (hs, reply) = spec_transition(s.handshake, HandshakeEvent::Message(h), fresh_nonce);
            (
                Session { handshake: hs, ..s },
                match reply {
                    Some(h2) => Some(MessageV::Handshake(h2)),
                    None => None,
                },
            )
        },
        MessageV::Heartbeat => (s, Some(MessageV::Heartbeat)),
        MessageV::Move { dx, dy } => (
            Session { x: sat_add_i32(s.x, dx), y: sat_add_i32(s.y, dy), ..s },
            None,
        ),
        MessageV::Disconnect => (Session { disconnected: true, ..s }, None),
        MessageV::Refresh(_) => (s, None),
    }
}

/// The whole inbound step for one packet: the sequence guard rejects a
/// stale packet outright; an accepted packet records its sequence number,
/// and its payload — if it decodes at all — is dispatched.
pub open spec fn spec_on_packet(s: Session, p: PacketV, fresh_nonce: u32) -> (Session, Option<
    MessageV,
>) {
    if !spec_accept(s.client_sequence, p.sequence_number) {
        (s, None)
    } else {
        let s1 = Session { client_sequence: p.sequence_number, ..s };
        match spec_decode_message(p.message) {
            None => (s1, None),
            Some(m) => spec_dispatch(s1, m, fresh_nonce),
        }
    }
}

/// Sending a reply consumes one outbound sequence number.
pub open spec fn spec_after_reply(s: Session, reply: Option<MessageV>) -> Session {
    if reply is Some {
        Session { server_sequence: s.server_sequence.wrapping_add(1), ..s }
    } else {
        s
    }
}

/// Whether an exec reply packet carries exactly the reply the spec step
/// calls for, stamped with the session's outbound sequence number, and is
/// itself encodable.
pub open spec fn reply_matches(r: Option<Packet>, reply: Option<MessageV>, seq: u32) -> bool {
    match (r, reply) {
        (Some(rp), Some(rm)) => rp.sequence_number == seq && rp.message@ == spec_encode_message(rm)
            && packet_wf(rp@),
        (None, None) => true,
        _ => false,
    }
}

impl Session {
    /// A fresh session for the given peer address.
    pub fn new(remote: u64) -> (r: Session)
        ensures
            r == spec_init(remote),
    {
        Session {
            remote,
            client_sequence: 0,
            server_sequence: 1,
            handshake: HandshakeState::Disconnected,
            x: 0,
            y: 0,
            disconnected: false,
        }
    }

    /// The peer's current position.
    pub fn pos(&self) -> (r: (i32, i32))
        ensures
            r == (self.x, self.y),
    {
        (self.x, self.y)
    }

    /// Whether the peer has asked to disconnect.
    pub fn disconnected(&self) -> (r: bool)
        ensures
            r == self.disconnected,
    {
        self.disconnected
    }

    /// Builds the packet that carries `msg` to this peer, stamped with the
    /// next outbound sequence number, which is then advanced.
    pub fn send(&mut self, msg: &Message) -> (r: Packet)
        requires
            message_wf(msg@),
        ensures
            r.sequence_number == old(self).server_sequence,
            r.message@ == spec_encode_message(msg@),
            packet_wf(r@),
            *final(self) == (Session {
                server_sequence: old(self).server_sequence.wrapping_add(1),
                ..*old(self)
            }),
    {
        proof {
            lemma_encode_message_wf(msg@);
        }
        let data = encode_message(msg);
        let packet = Packet::new(self.server_sequence, data);
        self.server_sequence = self.server_sequence.wrapping_add(1);
        packet
    }

    /// The single inbound entry point (`fresh_nonce` is the value a newly
    /// started negotiation would use): applies the sequence guard, decodes
    /// the payload, dispatches, and returns the reply packet, if any.
    pub fn on_packet(&mut self, packet: &Packet, fresh_nonce: u32) -> (r: Option<Packet>)
        ensures
            ({
                let (s2, reply) = spec_on_packet(*old(self), packet@, fresh_nonce);
                &&& *final(self) == spec_after_reply(s2, reply)
                &&& reply_matches(r, reply, old(self).server_sequence)
            }),
    {
        if !accept(self.client_sequence, packet.sequence_number) {
            return None;
        }
        self.client_sequence = packet.sequence_number;
        match decode_message(packet.message.as_slice()) {
            None => None,
            Some(m) => match m {
                Message::Connect => {
                    let (hs, reply) = transition(
                        self.handshake,
                        HandshakeEvent::Connect,
                        fresh_nonce,
                    );
                    self.handshake = hs;
                    match reply {
                        Some(h) => Some(self.send(&Message::Handshake(h))),
                        None => None,
                    }
                },
                Message::Handshake(h) => {
                    let (hs, reply) = transition(
                        self.handshake,
                        HandshakeEvent::Message(h),
                        fresh_nonce,
                    );
                    self.handshake = hs;
                    match reply {
                        Some(h2) => Some(self.send(&Message::Handshake(h2))),
                        None => None,
                    }
                },
                Message::Heartbeat => Some(self.send(&Message::Heartbeat)),
                Message::Move { dx, dy } => {
                    self.x = sat_add(self.x, dx);
                    self.y = sat_add(self.y, dy);
                    None
                },
                Message::Disconnect => {
                    self.disconnected = true;
                    None
                },
                Message::Refresh(_) => None,
            },
        }
    }

    /// One turn of the session actor: `Stop` asks the caller to retire the
    /// actor, `Recv` runs the inbound step, `Send` builds the outbound
    /// packet. The returned flag is `true` iff the actor should stop.
    pub fn handle_message(&mut self, msg: &SessionMessage, fresh_nonce: u32) -> (r: (
        bool,
        Option<Packet>,
    ))
        requires
            msg matches SessionMessage::Send(m) ==> message_wf(m@),
        ensures
            ({
                match msg {
                    SessionMessage::Stop => r == (true, Option::<Packet>::None) && *final(self)
                        == *old(self),
                    SessionMessage::Recv(p) => {
                        let (s2, reply) = spec_on_packet(*old(self), p@, fresh_nonce);
                        &&& !r.0
                        &&& *final(self) == spec_after_reply(s2, reply)
                        &&& reply_matches(r.1, reply, old(self).server_sequence)
                    },
                    SessionMessage::Send(m) => {
                        &&& !r.0
                        &&& *final(self) == spec_after_reply(*old(self), Some(m@))
                        &&& reply_matches(r.1, Some(m@), old(self).server_sequence)
                    },
                }
            }),
    {
        match msg {
            SessionMessage::Stop => (true, None),
            SessionMessage::Recv(p) => (false, self.on_packet(p, fresh_nonce)),
            SessionMessage::Send(m) => (false, Some(self.send(m))),
        }
    }
}

} // verus!
