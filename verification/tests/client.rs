use baseplate::conn::{connect_step, Conn, ConnectPhase};
use baseplate::future::RetryPolicy;
use baseplate::handshake::HandshakeMessage;
use baseplate::packet::Packet;
use baseplate::proto::{decode_message, encode_message, Message};
use baseplate::state::State;

#[test]
fn conn_send_numbers_outbound_packets() {
    let mut conn = Conn::new();
    let first = conn.send(&Message::Connect);
    let second = conn.send(&Message::Heartbeat);
    assert_eq!(first.sequence_number, 1);
    assert_eq!(second.sequence_number, 2);
    assert_eq!(conn.client_sequence, 3);
    match decode_message(&first.message) {
        Some(Message::Connect) => {}
        other => panic!("expected connect, got {:?}", other),
    }
}

#[test]
fn conn_receive_filter() {
    let mut conn = Conn::new();
    let fresh = Packet::new(3, encode_message(&Message::Heartbeat));
    match conn.accept_packet(&fresh) {
        Some(Message::Heartbeat) => {}
        other => panic!("expected heartbeat, got {:?}", other),
    }
    assert_eq!(conn.server_sequence, 3);

    // Stale, duplicate, and undecodable datagrams are discarded and the
    // counter stays put.
    let stale = Packet::new(3, encode_message(&Message::Heartbeat));
    assert!(conn.accept_packet(&stale).is_none());
    let older = Packet::new(2, encode_message(&Message::Heartbeat));
    assert!(conn.accept_packet(&older).is_none());
    let garbage = Packet::new(9, vec![0xFF, 0xFF]);
    assert!(conn.accept_packet(&garbage).is_none());
    assert_eq!(conn.server_sequence, 3);
}

#[test]
fn connect_exchange_happy_path() {
    let phase = ConnectPhase::AwaitingChallenge;
    let (phase, reply) = connect_step(
        phase,
        &Message::Handshake(HandshakeMessage::Challenge(42)),
    );
    assert_eq!(phase, ConnectPhase::AwaitingSuccess { nonce: 42 });
    match reply {
        Some(Message::Handshake(HandshakeMessage::Challenge(nonce))) => assert_eq!(nonce, 42),
        other => panic!("expected an echoed challenge, got {:?}", other),
    }
    let (phase, reply) = connect_step(phase, &Message::Handshake(HandshakeMessage::Success));
    assert_eq!(phase, ConnectPhase::Established);
    assert!(reply.is_none());
}

#[test]
fn connect_exchange_fails_on_unexpected_message() {
    let (phase, reply) = connect_step(ConnectPhase::AwaitingChallenge, &Message::Heartbeat);
    assert_eq!(phase, ConnectPhase::Failed);
    assert!(reply.is_none());

    let (phase, _) = connect_step(
        ConnectPhase::AwaitingSuccess { nonce: 1 },
        &Message::Handshake(HandshakeMessage::Failure),
    );
    assert_eq!(phase, ConnectPhase::Failed);
}

#[test]
fn retry_budget_counts_failures() {
    let mut policy = RetryPolicy::new(3);
    assert!(policy.record_failure());
    assert!(policy.record_failure());
    // The third failure exhausts the budget.
    assert!(!policy.record_failure());
    assert_eq!(policy.failures, 3);
}

#[test]
fn state_wraps_positions() {
    let state = State::new(vec![(1, 2), (3, 4)]);
    assert_eq!(state.points().len(), 2);
    assert_eq!(state.points()[0], (1, 2));
    assert_eq!(state.points()[1], (3, 4));
}
