//! Client-side connection state: the two sequence counters, the outbound
//! packet builder, the inbound filter, and the client's half of the
//! connect handshake as a step function the socket loop drives.

use vstd::prelude::*;

use crate::guard::spec_accept;
use crate::handshake::HandshakeMessage;
use crate::packet::{packet_wf, Packet, PacketV};
use crate::proto::{decode_message, encode_message, lemma_encode_message_wf, message_wf,
    spec_decode_message, spec_encode_message, Message, MessageV};

verus! {

/// The client's progress through the connect exchange: it has sent
/// `Connect` and awaits the challenge; it has echoed the challenge and
/// awaits the verdict; or it is done, well or badly.
#[derive(Debug, Clone, Copy, PartialEq, Eq, Structural)]
pub enum ConnectPhase {
    AwaitingChallenge,
    AwaitingSuccess { nonce: u32 },
    Established,
    Failed,
}

/// The client's half of the handshake: a challenge is echoed back
/// unexamined — the nonce exists for the server's sake — and then only
/// `Success` completes the exchange. Any unexpected message is fatal for
/// this attempt; a finished exchange ignores further steps.
pub open spec fn spec_connect_step(phase: ConnectPhase, m: MessageV) -> (
    ConnectPhase,
    Option<MessageV>,
) {
    match phase {
        ConnectPhase::AwaitingChallenge => match m {
            MessageV::Handshake(HandshakeMessage::Challenge(nonce)) => (
                ConnectPhase::AwaitingSuccess { nonce },
                Some(MessageV::Handshake(HandshakeMessage::Challenge(nonce))),
            ),
            _ => (ConnectPhase::Failed, None),
        },
        ConnectPhase::AwaitingSuccess { .. } => match m {
            MessageV::Handshake(HandshakeMessage::Success) => (ConnectPhase::Established, None),
            _ => (ConnectPhase::Failed, None),
        },
        _ => (phase, None),
    }
}

/// One step of the client's connect exchange, driven by each message the
/// connection yields while connecting.
pub fn connect_step(phase: ConnectPhase, m: &Message) -> (r: (ConnectPhase, Option<Message>))
    ensures
        r.0 == spec_connect_step(phase, m@).0,
        match (r.1, spec_connect_step(phase, m@).1) {
            (Some(a), Some(b)) => a@ == b,
            (None, None) => true,
            _ => false,
        },
{
    match phase {
        ConnectPhase::AwaitingChallenge => match m {
            Message::Handshake(HandshakeMessage::Challenge(nonce)) => (
                ConnectPhase::AwaitingSuccess { nonce: *nonce },
                Some(Message::Handshake(HandshakeMessage::Challenge(*nonce))),
            ),
            _ => (ConnectPhase::Failed, None),
        },
        ConnectPhase::AwaitingSuccess { .. } => match m {
            Message::Handshake(HandshakeMessage::Success) => (ConnectPhase::Established, None),
            _ => (ConnectPhase::Failed, None),
        },
        _ => (phase, None),
    }
}

/// What `accept_packet` does to a connection: a stale sequence number or
/// an undecodable payload discards the datagram and changes nothing; an
/// accepted packet records its sequence number and yields its message.
pub open spec fn spec_accept_packet(c: Conn, p: PacketV) -> (Conn, Option<MessageV>) {
    if !spec_accept(c.server_sequence, p.sequence_number) {
        (c, None)
    } else {
        match spec_decode_message(p.message) {
            None => (c, None),
            Some(m) => (Conn { server_sequence: p.sequence_number, ..c }, Some(m)),
        }
    }
}

/// The client's view of its single server session.
#[derive(Debug, Clone, Copy, PartialEq, Eq, Structural)]
pub struct Conn {
    /// Highest sequence number accepted from the server.
    pub server_sequence: u32,
    /// Next sequence number to send.
    pub client_sequence: u32,
}

impl Conn {
    /// A fresh connection: nothing accepted yet, the first send will
    /// carry sequence number 1.
    pub fn new() -> (r: Conn)
        ensures
            r == (Conn { server_sequence: 0u32, client_sequence: 1u32 }),
    {
        Conn { server_sequence: 0, client_sequence: 1 }
    }

    /// Builds the packet that carries `msg` to the server, stamped with
    /// the next outbound sequence number, which is then advanced.
    pub fn send(&mut self, msg: &Message) -> (r: Packet)
        requires
            message_wf(msg@),
        ensures
            r.sequence_number == old(self).client_sequence,
            r.message@ == spec_encode_message(msg@),
            packet_wf(r@),
            *final(self) == (Conn {
                client_sequence: old(self).client_sequence.wrapping_add(1),
                ..*old(self)
            }),
    {
        proof {
            lemma_encode_message_wf(msg@);
        }
        let data = encode_message(msg);
        let packet = Packet::new(self.client_sequence, data);
        self.client_sequence = self.client_sequence.wrapping_add(1);
        packet
    }

    /// The receive filter: yields the message of a packet that is newer
    /// than anything seen and whose payload decodes; everything else is
    /// silently discarded, and only a yielded packet moves the counter.
    pub fn accept_packet(&mut self, packet: &Packet) -> (r: Option<Message>)
        ensures
            ({
                let (c2, m) = spec_accept_packet(*old(self), packet@);
                &&& *final(self) == c2
                &&& match (r, m) {
                    (Some(a), Some(b)) => a@ == b,
                    (None, None) => true,
                    _ => false,
                }
            }),
    {
        if packet.sequence_number <= self.server_sequence {
            return None;
        }
        match decode_message(packet.message.as_slice()) {
            None => None,
            Some(m) => {
                self.server_sequence = packet.sequence_number;
                Some(m)
            },
        }
    }
}

} // verus!
