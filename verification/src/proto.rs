//! The application-level protocol unit carried inside `Packet.message`,
//! with its self-describing binary encoding: a tag byte, then the
//! variant's fields, integers big-endian.

use vstd::prelude::*;

use crate::handshake::HandshakeMessage;
use crate::wire::{
    be_u32, bits_i32, from_bits_i32, get_u32_be, i32_bits, lemma_i32_bits_roundtrip,
    lemma_u32_be_roundtrip, push_u32_be, to_bits_i32, u32_be_bytes,
};

verus! {

/// A decoded application message. Coordinates are whole units on each
/// axis; what a unit means is the application's business.
#[derive(Debug, Clone)]
pub enum Message {
    Connect,
    Disconnect,
    Handshake(HandshakeMessage),
    Heartbeat,
    /// The broadcast list of every session's position, in registry order.
    Refresh(Vec<(i32, i32)>),
    /// A relative movement of the sender's position.
    Move { dx: i32, dy: i32 },
}

/// The mathematical value of a message.
#[verifier::ext_equal]
pub enum MessageV {
    Connect,
    Disconnect,
    Handshake(HandshakeMessage),
    Heartbeat,
    Refresh(Seq<(i32, i32)>),
    Move { dx: i32, dy: i32 },
}

impl View for Message {
    type V = MessageV;

    open spec fn view(&self) -> MessageV {
        match self {
            Message::Connect => MessageV::Connect,
            Message::Disconnect => MessageV::Disconnect,
            Message::Handshake(h) => MessageV::Handshake(*h),
            Message::Heartbeat => MessageV::Heartbeat,
            Message::Refresh(points) => MessageV::Refresh(points@),
            Message::Move { dx, dy } => MessageV::Move { dx: *dx, dy: *dy },
        }
    }
}

/// A `Refresh` list must be small enough that the encoded payload fits
/// a packet's 32-bit length field and, with the packet header, memory;
/// everything else is always encodable.
pub open spec fn message_wf(m: MessageV) -> bool {
    match m {
        MessageV::Refresh(points) => points.len() * 8 + 5 <= 0xFFFFFFFF && points.len() * 8 + 25
            <= usize::MAX,
        _ => true,
    }
}

/// The encoded coordinate pairs, eight bytes each.
pub open spec fn spec_encode_points(points: Seq<(i32, i32)>) -> Seq<u8>
    decreases points.len(),
{
    if points.len() == 0 {
        seq![]
    } else {
        u32_be_bytes(i32_bits(points[0].0)) + u32_be_bytes(i32_bits(points[0].1))
            + spec_encode_points(points.drop_first())
    }
}

/// The encoded bytes of a handshake message.
pub open spec fn spec_encode_handshake(h: HandshakeMessage) -> Seq<u8> {
    match h {
        HandshakeMessage::Challenge(nonce) => seq![0u8] + u32_be_bytes(nonce),
        HandshakeMessage::Success => seq![1u8],
        HandshakeMessage::Failure => seq![2u8],
    }
}

/// The encoded bytes of a message: a tag byte, then the fields.
pub open spec fn spec_encode_message(m: MessageV) -> Seq<u8> {
    match m {
        MessageV::Connect => seq![0u8],
        MessageV::Disconnect => seq![1u8],
        MessageV::Handshake(h) => seq![2u8] + spec_encode_handshake(h),
        MessageV::Heartbeat => seq![3u8],
        MessageV::Refresh(points) => seq![4u8] + u32_be_bytes(points.len() as u32)
            + spec_encode_points(points),
        MessageV::Move { dx, dy } => seq![5u8] + u32_be_bytes(i32_bits(dx)) + u32_be_bytes(
            i32_bits(dy),
        ),
    }
}

/// The first `count` coordinate pairs read from `b`.
pub open spec fn spec_decode_points(b: Seq<u8>, count: nat) -> Seq<(i32, i32)>
    recommends
        8 * count <= b.len(),
    decreases count,
{
    if count == 0 {
        seq![]
    } else {
        seq![(bits_i32(be_u32(b.subrange(0, 4))), bits_i32(be_u32(b.subrange(4, 8))))]
            + spec_decode_points(b.skip(8), (count - 1) as nat)
    }
}

/// The decoding of a message body: `None` for anything that is not
/// exactly the encoding of one message.
pub open spec fn spec_decode_message(b: Seq<u8>) -> Option<MessageV> {
    if b.len() < 1 {
        None
    } else if b[0] == 0 {
        if b.len() == 1 {
            Some(MessageV::Connect)
        } else {
            None
        }
    } else if b[0] == 1 {
        if b.len() == 1 {
            Some(MessageV::Disconnect)
        } else {
            None
        }
    } else if b[0] == 2 {
        if b.len() < 2 {
            None
        } else if b[1] == 0 {
            if b.len() == 6 {
                Some(MessageV::Handshake(HandshakeMessage::Challenge(be_u32(b.subrange(2, 6)))))
            } else {
                None
            }
        } else if b[1] == 1 {
            if b.len() == 2 {
                Some(MessageV::Handshake(HandshakeMessage::Success))
            } else {
                None
            }
        } else if b[1] == 2 {
            if b.len() == 2 {
                Some(MessageV::Handshake(HandshakeMessage::Failure))
            } else {
                None
            }
        } else {
            None
        }
    } else if b[0] == 3 {
        if b.len() == 1 {
            Some(MessageV::Heartbeat)
        } else {
            None
        }
    } else if b[0] == 4 {
        if b.len() < 5 {
            None
        } else {
            let count = be_u32(b.subrange(1, 5));
            if b.len() == 5 + 8 * count {
                Some(MessageV::Refresh(spec_decode_points(b.skip(5), count as nat)))
            } else {
                None
            }
        }
    } else if b[0] == 5 {
        if b.len() == 9 {
            Some(
                MessageV::Move {
                    dx: bits_i32(be_u32(b.subrange(1, 5))),
                    dy: bits_i32(be_u32(b.subrange(5, 9))),
                },
            )
        } else {
            None
        }
    } else {
        None
    }
}

pub proof fn lemma_encode_points_len(points: Seq<(i32, i32)>)
    ensures
        spec_encode_points(points).len() == 8 * points.len(),
    decreases points.len(),
{
    if points.len() > 0 {
        lemma_encode_points_len(points.drop_first());
    }
}

/// Appending one pair to the list appends its eight bytes to the encoding.
pub proof fn lemma_encode_points_push(points: Seq<(i32, i32)>, p: (i32, i32))
    ensures
        spec_encode_points(points.push(p)) == spec_encode_points(points) + u32_be_bytes(
            i32_bits(p.0),
        ) + u32_be_bytes(i32_bits(p.1)),
    decreases points.len(),
{
    if points.len() == 0 {
        assert(points.push(p)[0] == p);
        assert(points.push(p).drop_first() =~= Seq::<(i32, i32)>::empty());
        assert(spec_encode_points(Seq::<(i32, i32)>::empty()) =~= Seq::<u8>::empty());
        assert(spec_encode_points(points.push(p)) =~= u32_be_bytes(i32_bits(p.0)) + u32_be_bytes(
            i32_bits(p.1),
        ));
        assert(spec_encode_points(points) + u32_be_bytes(i32_bits(p.0)) + u32_be_bytes(
            i32_bits(p.1),
        ) =~= u32_be_bytes(i32_bits(p.0)) + u32_be_bytes(i32_bits(p.1)));
    } else {
        assert(points.push(p)[0] == points[0]);
        assert(points.push(p).drop_first() =~= points.drop_first().push(p));
        lemma_encode_points_push(points.drop_first(), p);
        assert(spec_encode_points(points.push(p)) =~= spec_encode_points(points) + u32_be_bytes(
            i32_bits(p.0),
        ) + u32_be_bytes(i32_bits(p.1)));
    }
}

/// Decoding reads back exactly the pairs that were encoded.
pub proof fn lemma_points_roundtrip(points: Seq<(i32, i32)>)
    ensures
        spec_decode_points(spec_encode_points(points), points.len()) == points,
    decreases points.len(),
{
    if points.len() > 0 {
        let rest = points.drop_first();
        let b = spec_encode_points(points);
        lemma_encode_points_len(rest);
        assert(b.subrange(0, 4) =~= u32_be_bytes(i32_bits(points[0].0)));
        assert(b.subrange(4, 8) =~= u32_be_bytes(i32_bits(points[0].1)));
        lemma_u32_be_roundtrip(i32_bits(points[0].0));
        lemma_u32_be_roundtrip(i32_bits(points[0].1));
        lemma_i32_bits_roundtrip(points[0].0);
        lemma_i32_bits_roundtrip(points[0].1);
        assert(b.skip(8) =~= spec_encode_points(rest));
        lemma_points_roundtrip(rest);
        assert(spec_decode_points(b, points.len()) == seq![points[0]] + spec_decode_points(
            b.skip(8),
            rest.len(),
        ));
        assert(seq![points[0]] + rest =~= points);
    }
}

/// A well-formed message encodes to a payload that fits a packet.
pub proof fn lemma_encode_message_wf(m: MessageV)
    requires
        message_wf(m),
    ensures
        spec_encode_message(m).len() <= 0xFFFFFFFF,
        spec_encode_message(m).len() + 20 <= usize::MAX,
{
    match m {
        MessageV::Refresh(points) => {
            lemma_encode_points_len(points);
        },
        _ => {},
    }
}

/// Round-trip: decoding an encoded message gives the message back.
pub proof fn lemma_message_roundtrip(m: MessageV)
    requires
        message_wf(m),
    ensures
        spec_decode_message(spec_encode_message(m)) == Some(m),
{
    let b = spec_encode_message(m);
    match m {
        MessageV::Handshake(h) => {
            match h {
                HandshakeMessage::Challenge(nonce) => {
                    assert(b.subrange(2, 6) =~= u32_be_bytes(nonce));
                    lemma_u32_be_roundtrip(nonce);
                },
                _ => {},
            }
        },
        MessageV::Refresh(points) => {
            lemma_encode_points_len(points);
            assert(b.subrange(1, 5) =~= u32_be_bytes(points.len() as u32));
            lemma_u32_be_roundtrip(points.len() as u32);
            assert(b.skip(5) =~= spec_encode_points(points));
            lemma_points_roundtrip(points);
            assert(spec_decode_message(b) matches Some(d) && d =~= m);
        },
        MessageV::Move { dx, dy } => {
            assert(b.subrange(1, 5) =~= u32_be_bytes(i32_bits(dx)));
            assert(b.subrange(5, 9) =~= u32_be_bytes(i32_bits(dy)));
            lemma_u32_be_roundtrip(i32_bits(dx));
            lemma_u32_be_roundtrip(i32_bits(dy));
            lemma_i32_bits_roundtrip(dx);
            lemma_i32_bits_roundtrip(dy);
        },
        _ => {},
    }
}

/// Encodes a message as the payload bytes of a packet.
pub fn encode_message(m: &Message) -> (r: Vec<u8>)
    requires
        message_wf(m@),
    ensures
        r@ == spec_encode_message(m@),
{
    let mut out: Vec<u8> = Vec::new();
    match m {
        Message::Connect => {
            out.push(0);
        },
        Message::Disconnect => {
            out.push(1);
        },
        Message::Handshake(h) => {
            out.push(2);
            match h {
                HandshakeMessage::Challenge(nonce) => {
                    out.push(0);
                    push_u32_be(&mut out, *nonce);
                },
                HandshakeMessage::Success => {
                    out.push(1);
                },
                HandshakeMessage::Failure => {
                    out.push(2);
                },
            }
        },
        Message::Heartbeat => {
            out.push(3);
        },
        Message::Refresh(points) => {
            out.push(4);
            push_u32_be(&mut out, points.len() as u32);
            let mut i: usize = 0;
            while i < points.len()
                invariant
                    i <= points@.len(),
                    out@ == seq![4u8] + u32_be_bytes(points@.len() as u32) + spec_encode_points(
                        points@.take(i as int),
                    ),
                decreases points@.len() - i,
            {
                let (x, y) = points[i];
                push_u32_be(&mut out, to_bits_i32(x));
                push_u32_be(&mut out, to_bits_i32(y));
                proof {
                    assert(points@.take(i + 1) =~= points@.take(i as int).push(points@[i as int]));
                    lemma_encode_points_push(points@.take(i as int), points@[i as int]);
                    assert(out@ =~= seq![4u8] + u32_be_bytes(points@.len() as u32)
                        + spec_encode_points(points@.take(i + 1)));
                }
                i = i + 1;
            }
            proof {
                assert(points@.take(points@.len() as int) =~= points@);
            }
        },
        Message::Move { dx, dy } => {
            out.push(5);
            push_u32_be(&mut out, to_bits_i32(*dx));
            push_u32_be(&mut out, to_bits_i32(*dy));
        },
    }
    proof {
        assert(out@ =~= spec_encode_message(m@));
    }
    out
}

/// Decodes the payload bytes of a packet back into a message.
pub fn decode_message(bytes: &[u8]) -> (r: Option<Message>)
    ensures
        ({
            let d = spec_decode_message(bytes@);
            match r {
                Some(m) => d matches Some(v) && m@ == v,
                None => d is None,
            }
        }),
{
    let n = bytes.len();
    if n < 1 {
        return None;
    }
    let tag = bytes[0];
    if tag == 0 {
        if n == 1 {
            Some(Message::Connect)
        } else {
            None
        }
    } else if tag == 1 {
        if n == 1 {
            Some(Message::Disconnect)
        } else {
            None
        }
    } else if tag == 2 {
        if n < 2 {
            return None;
        }
        let sub = bytes[1];
        if sub == 0 {
            if n == 6 {
                Some(Message::Handshake(HandshakeMessage::Challenge(get_u32_be(bytes, 2))))
            } else {
                None
            }
        } else if sub == 1 {
            if n == 2 {
                Some(Message::Handshake(HandshakeMessage::Success))
            } else {
                None
            }
        } else if sub == 2 {
            if n == 2 {
                Some(Message::Handshake(HandshakeMessage::Failure))
            } else {
                None
            }
        } else {
            None
        }
    } else if tag == 3 {
        if n == 1 {
            Some(Message::Heartbeat)
        } else {
            None
        }
    } else if tag == 4 {
        if n < 5 {
            return None;
        }
        let count = get_u32_be(bytes, 1);
        if (n as u64) != 5u64 + 8u64 * (count as u64) {
            return None;
        }
        let count = count as usize;
        let mut points: Vec<(i32, i32)> = Vec::new();
        let mut i: usize = 0;
        while i < count
            invariant
                i <= count,
                n == bytes@.len(),
                n == 5 + 8 * count,
                points@ == spec_decode_points(bytes@.skip(5), i as nat),
            decreases count - i,
        {
            let x = from_bits_i32(get_u32_be(bytes, 5 + 8 * i));
            let y = from_bits_i32(get_u32_be(bytes, 5 + 8 * i + 4));
            points.push((x, y));
            proof {
                lemma_decode_points_take(bytes@.skip(5), i as nat);
                assert(bytes@.skip(5).subrange(8 * i as int, 8 * i + 4) =~= bytes@.subrange(
                    5 + 8 * i,
                    5 + 8 * i + 4,
                ));
                assert(bytes@.skip(5).subrange(8 * i + 4, 8 * i + 8) =~= bytes@.subrange(
                    5 + 8 * i + 4,
                    5 + 8 * i + 8,
                ));
            }
            i = i + 1;
        }
        Some(Message::Refresh(points))
    } else if tag == 5 {
        if n == 9 {
            Some(
                Message::Move {
                    dx: from_bits_i32(get_u32_be(bytes, 1)),
                    dy: from_bits_i32(get_u32_be(bytes, 5)),
                },
            )
        } else {
            None
        }
    } else {
        None
    }
}

/// Reading one more pair appends the pair found at offset `8 * count`.
proof fn lemma_decode_points_take(b: Seq<u8>, count: nat)
    requires
        8 * count + 8 <= b.len(),
    ensures
        spec_decode_points(b, count + 1) == spec_decode_points(b, count).push(
            (
                bits_i32(be_u32(b.subrange(8 * (count as int), 8 * (count as int) + 4))),
                bits_i32(be_u32(b.subrange(8 * (count as int) + 4, 8 * (count as int) + 8))),
            ),
        ),
    decreases count,
{
    let k = count as int;
    if count == 0 {
        assert(spec_decode_points(b.skip(8), 0) =~= Seq::<(i32, i32)>::empty());
        assert(spec_decode_points(b, 0) =~= Seq::<(i32, i32)>::empty());
        assert(spec_decode_points(b, 1) =~= spec_decode_points(b, 0).push(
            (bits_i32(be_u32(b.subrange(0, 4))), bits_i32(be_u32(b.subrange(4, 8)))),
        ));
    } else {
        lemma_decode_points_take(b.skip(8), (count - 1) as nat);
        assert(b.skip(8).subrange(8 * (k - 1), 8 * (k - 1) + 4) =~= b.subrange(8 * k, 8 * k + 4));
        assert(b.skip(8).subrange(8 * (k - 1) + 4, 8 * (k - 1) + 8) =~= b.subrange(
            8 * k + 4,
            8 * k + 8,
        ));
        assert(spec_decode_points(b, count + 1) =~= spec_decode_points(b, count).push(
            (
                bits_i32(be_u32(b.subrange(8 * k, 8 * k + 4))),
                bits_i32(be_u32(b.subrange(8 * k + 4, 8 * k + 8))),
            ),
        ));
    }
}

} // verus!
