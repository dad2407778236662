use baseplate::handshake::{HandshakeMessage, HandshakeState};
use baseplate::packet::Packet;
use baseplate::proto::{decode_message, encode_message, Message};
use baseplate::registry::Registry;
use baseplate::session::{Session, SessionMessage};

fn packet_for(sequence_number: u32, msg: &Message) -> Packet {
    Packet::new(sequence_number, encode_message(msg))
}

#[test]
fn session_connect_issues_challenge() {
    let mut session = Session::new(1);
    let reply = session
        .on_packet(&packet_for(1, &Message::Connect), 42)
        .expect("a challenge is owed");
    assert_eq!(session.handshake, HandshakeState::Negotiating { nonce: 42 });
    assert_eq!(session.client_sequence, 1);
    assert_eq!(reply.sequence_number, 1);
    match decode_message(&reply.message) {
        Some(Message::Handshake(HandshakeMessage::Challenge(nonce))) => assert_eq!(nonce, 42),
        other => panic!("expected a challenge, got {:?}", other),
    }
    // Echoing the nonce connects the peer.
    let reply = session
        .on_packet(
            &packet_for(2, &Message::Handshake(HandshakeMessage::Challenge(42))),
            7,
        )
        .expect("a success is owed");
    assert_eq!(session.handshake, HandshakeState::Connected);
    assert_eq!(reply.sequence_number, 2);
    match decode_message(&reply.message) {
        Some(Message::Handshake(HandshakeMessage::Success)) => {}
        other => panic!("expected success, got {:?}", other),
    }
}

#[test]
fn session_wrong_nonce_disconnects() {
    let mut session = Session::new(1);
    session.on_packet(&packet_for(1, &Message::Connect), 7).unwrap();
    let reply = session
        .on_packet(
            &packet_for(2, &Message::Handshake(HandshakeMessage::Challenge(8))),
            0,
        )
        .expect("a failure is owed");
    assert_eq!(session.handshake, HandshakeState::Disconnected);
    match decode_message(&reply.message) {
        Some(Message::Handshake(HandshakeMessage::Failure)) => {}
        other => panic!("expected failure, got {:?}", other),
    }
}

#[test]
fn session_rejects_stale_sequence_numbers() {
    let mut session = Session::new(1);
    session.on_packet(&packet_for(5, &Message::Connect), 42).unwrap();
    let before = session;
    // Same and older sequence numbers are dropped without any change.
    assert!(session.on_packet(&packet_for(5, &Message::Heartbeat), 0).is_none());
    assert_eq!(session, before);
    assert!(session.on_packet(&packet_for(4, &Message::Heartbeat), 0).is_none());
    assert_eq!(session, before);
    // A gap is fine.
    assert!(session.on_packet(&packet_for(50, &Message::Heartbeat), 0).is_some());
    assert_eq!(session.client_sequence, 50);
}

#[test]
fn session_echoes_heartbeat() {
    let mut session = Session::new(1);
    let reply = session
        .on_packet(&packet_for(1, &Message::Heartbeat), 0)
        .expect("a heartbeat echo is owed");
    match decode_message(&reply.message) {
        Some(Message::Heartbeat) => {}
        other => panic!("expected heartbeat, got {:?}", other),
    }
}

#[test]
fn session_move_shifts_position_and_disconnect_raises_flag() {
    let mut session = Session::new(1);
    assert!(session.on_packet(&packet_for(1, &Message::Move { dx: 2, dy: -3 }), 0).is_none());
    assert_eq!(session.pos(), (2, -3));
    assert!(session.on_packet(&packet_for(2, &Message::Move { dx: -1, dy: 1 }), 0).is_none());
    assert_eq!(session.pos(), (1, -2));
    assert!(!session.disconnected());
    assert!(session.on_packet(&packet_for(3, &Message::Disconnect), 0).is_none());
    assert!(session.disconnected());
}

#[test]
fn session_send_numbers_outbound_packets() {
    let mut session = Session::new(1);
    let first = session.send(&Message::Heartbeat);
    let second = session.send(&Message::Heartbeat);
    assert_eq!(first.sequence_number, 1);
    assert_eq!(second.sequence_number, 2);
    assert_eq!(session.server_sequence, 3);
}

#[test]
fn session_actor_messages() {
    let mut session = Session::new(1);
    let (stop, reply) = session.handle_message(&SessionMessage::Stop, 0);
    assert!(stop);
    assert!(reply.is_none());
    let (stop, reply) = session.handle_message(
        &SessionMessage::Send(Message::Refresh(vec![(1, 2)])),
        0,
    );
    assert!(!stop);
    let packet = reply.unwrap();
    match decode_message(&packet.message) {
        Some(Message::Refresh(points)) => assert_eq!(points, vec![(1, 2)]),
        other => panic!("expected refresh, got {:?}", other),
    }
    let (stop, reply) = session.handle_message(
        &SessionMessage::Recv(packet_for(1, &Message::Heartbeat)),
        0,
    );
    assert!(!stop);
    assert!(reply.is_some());
}

#[test]
fn registry_creates_sessions_lazily_and_drops_on_disconnect() {
    let mut registry = Registry::new();
    let datagram = packet_for(1, &Message::Connect).to_bytes().unwrap();
    registry.handle_datagram_with(10, &datagram, 42);
    assert_eq!(registry.sessions.len(), 1);
    assert_eq!(registry.sessions[0].remote, 10);

    // A datagram that is not a valid packet still registers the peer but
    // changes nothing else.
    registry.handle_datagram_with(11, &[1, 2, 3], 0);
    assert_eq!(registry.sessions.len(), 2);
    assert_eq!(registry.sessions[1], Session::new(11));

    let bye = packet_for(2, &Message::Disconnect).to_bytes().unwrap();
    registry.handle_datagram_with(10, &bye, 0);
    assert_eq!(registry.sessions.len(), 1);
    assert_eq!(registry.sessions[0].remote, 11);
}

#[test]
fn session_isolation() {
    let mut registry = Registry::new();
    let hello = packet_for(1, &Message::Connect).to_bytes().unwrap();
    registry.handle_datagram_with(1, &hello, 41);
    registry.handle_datagram_with(2, &hello, 43);
    let other_before = registry.sessions[1];

    // Traffic for the first peer: the second peer's counters and position
    // stay exactly as they were.
    let movement = packet_for(2, &Message::Move { dx: 5, dy: 5 }).to_bytes().unwrap();
    registry.handle_datagram_with(1, &movement, 0);
    let beat = packet_for(3, &Message::Heartbeat).to_bytes().unwrap();
    registry.handle_datagram_with(1, &beat, 0);
    assert_eq!(registry.sessions[1], other_before);
    assert_eq!(registry.sessions[0].pos(), (5, 5));
    assert_eq!(registry.sessions[1].pos(), (0, 0));
}

/// Connects a peer at `addr` and moves it to `(x, y)`.
fn connected_session(registry: &mut Registry, addr: u64, x: i32, y: i32) {
    let nonce = addr as u32;
    let hello = packet_for(1, &Message::Connect).to_bytes().unwrap();
    registry.handle_datagram_with(addr, &hello, nonce);
    let echo = packet_for(2, &Message::Handshake(HandshakeMessage::Challenge(nonce)))
        .to_bytes()
        .unwrap();
    registry.handle_datagram_with(addr, &echo, 0);
    let movement = packet_for(3, &Message::Move { dx: x, dy: y }).to_bytes().unwrap();
    registry.handle_datagram_with(addr, &movement, 0);
}

#[test]
fn broadcast_scenario() {
    let mut registry = Registry::new();
    connected_session(&mut registry, 1, 0, 0);
    connected_session(&mut registry, 2, 1, 1);
    connected_session(&mut registry, 3, 2, 2);
    for session in registry.sessions.iter() {
        assert_eq!(session.handshake, HandshakeState::Connected);
    }

    let out = registry.tick();
    assert_eq!(out.len(), 3);
    for (i, (addr, packet)) in out.iter().enumerate() {
        assert_eq!(*addr, (i + 1) as u64);
        match decode_message(&packet.message) {
            Some(Message::Refresh(points)) => {
                assert_eq!(points, vec![(0, 0), (1, 1), (2, 2)]);
            }
            other => panic!("expected refresh, got {:?}", other),
        }
    }
}
