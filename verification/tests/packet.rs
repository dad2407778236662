use baseplate::packet::{Packet, PacketError};
use pretty_hex::PrettyHex;

#[test]
fn test_write() {
    let packet = Packet {
        message: b"HELLO WORLD!".to_vec(),
        sequence_number: 5,
        timestamp: chrono::Utc::now().timestamp_nanos_opt().unwrap(),
    };
    let encoded = packet.to_bytes().unwrap();
    println!("{:?}", encoded.hex_dump());
}

#[test]
fn test_roundtrip_id() {
    let packet = Packet {
        message: b"HELLO WORLD!".to_vec(),
        sequence_number: 5,
        timestamp: chrono::Utc::now().timestamp_nanos_opt().unwrap(),
    };
    let encoded = packet.to_bytes().unwrap();
    println!("{:?}", encoded.hex_dump());
    let decoded = Packet::from_bytes(&encoded).unwrap();
    println!("{:?}", decoded.to_bytes().unwrap().hex_dump());
    assert_eq!(decoded, packet);
}

#[test]
fn test_bad_input() {
    match Packet::from_bytes(b"osaijioajdoiasjdoisajidjisoajdoiajiojdas") {
        Ok(_) => panic!("should not happen"),
        Err(err) => {
            println!("{:?}", err);
        }
    }
}

#[test]
fn roundtrip_empty_message_and_negative_timestamp() {
    let packet = Packet {
        message: Vec::new(),
        sequence_number: 0,
        timestamp: -1,
    };
    let encoded = packet.to_bytes().unwrap();
    assert_eq!(encoded.len(), 20);
    let decoded = Packet::from_bytes(&encoded).unwrap();
    assert_eq!(decoded, packet);

    let packet = Packet {
        message: vec![0u8, 255, 1, 254],
        sequence_number: u32::MAX,
        timestamp: i64::MIN,
    };
    let decoded = Packet::from_bytes(&packet.to_bytes().unwrap()).unwrap();
    assert_eq!(decoded, packet);
}

#[test]
fn corrupting_any_message_byte_fails_the_checksum() {
    let packet = Packet {
        message: b"integrity matters".to_vec(),
        sequence_number: 9,
        timestamp: 123_456_789,
    };
    let encoded = packet.to_bytes().unwrap();
    let original_crc = u32::from_be_bytes([encoded[4], encoded[5], encoded[6], encoded[7]]);
    for i in 20..encoded.len() {
        let mut tampered = encoded.clone();
        tampered[i] ^= 0xFF;
        match Packet::from_bytes(&tampered) {
            Err(PacketError::InvalidChecksum { received, computed }) => {
                assert_eq!(received, original_crc);
                assert_ne!(computed, received);
            }
            other => panic!("expected InvalidChecksum, got {:?}", other),
        }
    }
}

#[test]
fn decoding_any_strict_prefix_fails_with_invalid_length() {
    let packet = Packet {
        message: b"truncate me".to_vec(),
        sequence_number: 7,
        timestamp: 42,
    };
    let encoded = packet.to_bytes().unwrap();
    for n in 0..encoded.len() {
        match Packet::from_bytes(&encoded[..n]) {
            Err(PacketError::InvalidLength { .. }) => {}
            other => panic!("prefix of {} bytes: expected InvalidLength, got {:?}", n, other),
        }
    }
}

#[test]
fn header_length_error_reports_expected_and_actual() {
    match Packet::from_bytes(&[1, 2, 3]) {
        Err(PacketError::InvalidLength { expected, actual }) => {
            assert_eq!(expected, 4);
            assert_eq!(actual, 3);
        }
        other => panic!("expected InvalidLength, got {:?}", other),
    }
}

#[test]
fn checksum_field_is_crc32_ieee() {
    // The IEEE-polynomial CRC-32 of b"123456789" is the well-known check
    // value 0xCBF43926; the header stores it big-endian at offset 4.
    let packet = Packet {
        message: b"123456789".to_vec(),
        sequence_number: 1,
        timestamp: 0,
    };
    let encoded = packet.to_bytes().unwrap();
    assert_eq!(&encoded[4..8], &[0xCB, 0xF4, 0x39, 0x26]);
}

#[test]
fn end_to_end_example() {
    let packet = Packet {
        message: b"HELLO WORLD!".to_vec(),
        sequence_number: 5,
        timestamp: 1_038_021_983_902_183,
    };
    let encoded = packet.to_bytes().unwrap();
    let decoded = Packet::from_bytes(&encoded).unwrap();
    assert_eq!(decoded, packet);

    // Corrupt the checksum field itself: decode must report the tampered
    // value as received and the message's true CRC-32 as computed.
    let original_crc = u32::from_be_bytes([encoded[4], encoded[5], encoded[6], encoded[7]]);
    let mut tampered = encoded.clone();
    tampered[5] ^= 0x55;
    let tampered_crc = u32::from_be_bytes([tampered[4], tampered[5], tampered[6], tampered[7]]);
    match Packet::from_bytes(&tampered) {
        Err(PacketError::InvalidChecksum { received, computed }) => {
            assert_eq!(received, tampered_crc);
            assert_eq!(computed, original_crc);
        }
        other => panic!("expected InvalidChecksum, got {:?}", other),
    }
}

#[test]
fn trailing_bytes_after_declared_length_are_ignored() {
    let packet = Packet {
        message: b"abc".to_vec(),
        sequence_number: 3,
        timestamp: 77,
    };
    let mut encoded = packet.to_bytes().unwrap();
    encoded.push(0xAA);
    encoded.push(0xBB);
    let decoded = Packet::from_bytes(&encoded).unwrap();
    assert_eq!(decoded, packet);
}
