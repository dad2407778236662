//! The challenge-response handshake: a three-state machine that turns an
//! exchange of control messages over a stateless transport into a
//! connected / disconnected verdict.

use vstd::prelude::*;

verus! {

/// The per-session handshake state.
#[derive(Debug, Clone, Copy, PartialEq, Eq, Structural)]
pub enum HandshakeState {
    Disconnected,
    Negotiating { nonce: u32 },
    Connected,
}

/// The handshake sub-protocol messages.
#[derive(Debug, Clone, Copy, PartialEq, Eq, Structural)]
pub enum HandshakeMessage {
    Challenge(u32),
    Success,
    Failure,
}

/// What the server-side machine reacts to: a connection request, or a
/// handshake message proper.
#[derive(Debug, Clone, Copy, PartialEq, Eq, Structural)]
pub enum HandshakeEvent {
    Connect,
    Message(HandshakeMessage),
}

/// The transition table. `fresh_nonce` is the value a new negotiation
/// would be bound to; it is consumed only by the `Disconnected`/`Connect`
/// row. Any pair the table does not name leaves the state unchanged and
/// replies nothing.
pub open spec fn spec_transition(
    state: HandshakeState,
    event: HandshakeEvent,
    fresh_nonce: u32,
) -> (HandshakeState, Option<HandshakeMessage>) {
    match (state, event) {
        (HandshakeState::Disconnected, HandshakeEvent::Connect) => (
            HandshakeState::Negotiating { nonce: fresh_nonce },
            Some(HandshakeMessage::Challenge(fresh_nonce)),
        ),
        (
            HandshakeState::Negotiating { nonce },
            HandshakeEvent::Message(HandshakeMessage::Challenge(ack)),
        ) => if ack == nonce {
            (HandshakeState::Connected, Some(HandshakeMessage::Success))
        } else {
            (HandshakeState::Disconnected, Some(HandshakeMessage::Failure))
        },
        _ => (state, None),
    }
}

/// One step of the server-side handshake machine.
pub fn transition(state: HandshakeState, event: HandshakeEvent, fresh_nonce: u32) -> (r: (
    HandshakeState,
    Option<HandshakeMessage>,
))
    ensures
        r == spec_transition(state, event, fresh_nonce),
{
    match (state, event) {
        (HandshakeState::Disconnected, HandshakeEvent::Connect) => (
            HandshakeState::Negotiating { nonce: fresh_nonce },
            Some(HandshakeMessage::Challenge(fresh_nonce)),
        ),
        (
            HandshakeState::Negotiating { nonce },
            HandshakeEvent::Message(HandshakeMessage::Challenge(ack)),
        ) => if ack == nonce {
            (HandshakeState::Connected, Some(HandshakeMessage::Success))
        } else {
            (HandshakeState::Disconnected, Some(HandshakeMessage::Failure))
        },
        _ => (state, None),
    }
}

/// Happy path: `Connect` from `Disconnected` issues a challenge bound to
/// the fresh nonce, and echoing exactly that nonce connects the peer with
/// a `Success` reply.
pub proof fn lemma_handshake_happy_path(nonce: u32, later_nonce: u32)
    ensures
        spec_transition(HandshakeState::Disconnected, HandshakeEvent::Connect, nonce) == (
            HandshakeState::Negotiating { nonce },
            Some(HandshakeMessage::Challenge(nonce)),
        ),
        spec_transition(
            HandshakeState::Negotiating { nonce },
            HandshakeEvent::Message(HandshakeMessage::Challenge(nonce)),
            later_nonce,
        ) == (HandshakeState::Connected, Some(HandshakeMessage::Success)),
{
}

/// Nonce mismatch: echoing any other value than the one the negotiation
/// was bound to tears the handshake down with a `Failure` reply.
pub proof fn lemma_handshake_nonce_mismatch(nonce: u32, ack: u32, later_nonce: u32)
    requires
        ack != nonce,
    ensures
        spec_transition(
            HandshakeState::Negotiating { nonce },
            HandshakeEvent::Message(HandshakeMessage::Challenge(ack)),
            later_nonce,
        ) == (HandshakeState::Disconnected, Some(HandshakeMessage::Failure)),
{
}

} // verus!
