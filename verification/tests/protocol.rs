use baseplate::guard::accept;
use baseplate::handshake::{transition, HandshakeEvent, HandshakeMessage, HandshakeState};
use baseplate::proto::{decode_message, encode_message, Message};

#[test]
fn anti_replay_guard() {
    assert!(!accept(5, 5));
    assert!(!accept(5, 4));
    assert!(accept(5, 6));
    // Gaps are tolerated: any strictly newer number passes.
    assert!(accept(5, 1000));
    assert!(!accept(u32::MAX, u32::MAX));
}

#[test]
fn handshake_happy_path() {
    let (state, reply) = transition(HandshakeState::Disconnected, HandshakeEvent::Connect, 42);
    assert_eq!(state, HandshakeState::Negotiating { nonce: 42 });
    assert_eq!(reply, Some(HandshakeMessage::Challenge(42)));

    let (state, reply) = transition(
        state,
        HandshakeEvent::Message(HandshakeMessage::Challenge(42)),
        7,
    );
    assert_eq!(state, HandshakeState::Connected);
    assert_eq!(reply, Some(HandshakeMessage::Success));
}

#[test]
fn handshake_nonce_mismatch() {
    let (state, reply) = transition(
        HandshakeState::Negotiating { nonce: 7 },
        HandshakeEvent::Message(HandshakeMessage::Challenge(8)),
        0,
    );
    assert_eq!(state, HandshakeState::Disconnected);
    assert_eq!(reply, Some(HandshakeMessage::Failure));
}

#[test]
fn handshake_ignores_unexpected_pairs() {
    // Duplicate connect during negotiation: unchanged, no resend.
    let negotiating = HandshakeState::Negotiating { nonce: 3 };
    let (state, reply) = transition(negotiating, HandshakeEvent::Connect, 99);
    assert_eq!(state, negotiating);
    assert_eq!(reply, None);

    // A challenge out of the blue: unchanged, no reply.
    let (state, reply) = transition(
        HandshakeState::Disconnected,
        HandshakeEvent::Message(HandshakeMessage::Challenge(1)),
        0,
    );
    assert_eq!(state, HandshakeState::Disconnected);
    assert_eq!(reply, None);

    // Success to an already connected peer: unchanged.
    let (state, reply) = transition(
        HandshakeState::Connected,
        HandshakeEvent::Message(HandshakeMessage::Success),
        0,
    );
    assert_eq!(state, HandshakeState::Connected);
    assert_eq!(reply, None);
}

fn roundtrip(msg: &Message) -> Message {
    let bytes = encode_message(msg);
    decode_message(&bytes).expect("must decode")
}

#[test]
fn message_codec_roundtrips_every_variant() {
    match roundtrip(&Message::Connect) {
        Message::Connect => {}
        other => panic!("got {:?}", other),
    }
    match roundtrip(&Message::Disconnect) {
        Message::Disconnect => {}
        other => panic!("got {:?}", other),
    }
    match roundtrip(&Message::Heartbeat) {
        Message::Heartbeat => {}
        other => panic!("got {:?}", other),
    }
    match roundtrip(&Message::Handshake(HandshakeMessage::Challenge(0xDEADBEEF))) {
        Message::Handshake(HandshakeMessage::Challenge(n)) => assert_eq!(n, 0xDEADBEEF),
        other => panic!("got {:?}", other),
    }
    match roundtrip(&Message::Handshake(HandshakeMessage::Success)) {
        Message::Handshake(HandshakeMessage::Success) => {}
        other => panic!("got {:?}", other),
    }
    match roundtrip(&Message::Handshake(HandshakeMessage::Failure)) {
        Message::Handshake(HandshakeMessage::Failure) => {}
        other => panic!("got {:?}", other),
    }
    match roundtrip(&Message::Move { dx: -3, dy: 14 }) {
        Message::Move { dx, dy } => {
            assert_eq!(dx, -3);
            assert_eq!(dy, 14);
        }
        other => panic!("got {:?}", other),
    }
    match roundtrip(&Message::Refresh(vec![])) {
        Message::Refresh(points) => assert!(points.is_empty()),
        other => panic!("got {:?}", other),
    }
    match roundtrip(&Message::Refresh(vec![(0, 0), (-1, 1), (i32::MIN, i32::MAX)])) {
        Message::Refresh(points) => {
            assert_eq!(points, vec![(0, 0), (-1, 1), (i32::MIN, i32::MAX)])
        }
        other => panic!("got {:?}", other),
    }
}

#[test]
fn message_codec_rejects_garbage() {
    // Empty body, unknown tag, trailing byte, short challenge.
    assert!(decode_message(&[]).is_none());
    assert!(decode_message(&[9]).is_none());
    assert!(decode_message(&[0, 0]).is_none());
    assert!(decode_message(&[2, 0, 1, 2]).is_none());
    // A refresh whose count disagrees with the remaining bytes.
    assert!(decode_message(&[4, 0, 0, 0, 2, 1, 2, 3, 4, 5, 6, 7, 8]).is_none());
}
