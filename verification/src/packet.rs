//! The wire envelope: a 20-byte big-endian header followed by the payload.
//!
//! Layout: `[sequence_number: u32][checksum: u32][message_length: u32]`
//! `[timestamp: i64][message: message_length bytes]`, all big-endian. The
//! checksum is the CRC-32 of the message bytes alone.

use vstd::prelude::*;

use crate::checksum::{crc32, crc32_of};
use crate::wire::{
    be_u32, be_u64, bits_i64, from_bits_i64, get_u32_be, get_u64_be, i64_bits, lemma_u32_be_roundtrip,
    lemma_u64_be_roundtrip, push_u32_be, push_u64_be, to_bits_i64, u32_be_bytes, u64_be_bytes,
};

verus! {

/// Why a datagram failed to decode.
#[derive(Debug, Clone, Copy, PartialEq, Eq, Structural)]
pub enum PacketError {
    /// A header field or the declared payload needed `expected` more bytes,
    /// but only `actual` remained.
    InvalidLength { expected: usize, actual: usize },
    /// The checksum carried in the header disagrees with the one computed
    /// over the received message bytes.
    InvalidChecksum { received: u32, computed: u32 },
}

/// The wire envelope carried in one datagram.
#[derive(Debug)]
pub struct Packet {
    pub sequence_number: u32,
    /// Nanoseconds since the epoch at send time; informational only.
    pub timestamp: i64,
    /// The opaque application payload.
    pub message: Vec<u8>,
}

/// The mathematical value of a packet.
#[verifier::ext_equal]
pub struct PacketV {
    pub sequence_number: u32,
    pub timestamp: i64,
    pub message: Seq<u8>,
}

impl View for Packet {
    type V = PacketV;

    open spec fn view(&self) -> PacketV {
        PacketV {
            sequence_number: self.sequence_number,
            timestamp: self.timestamp,
            message: self.message@,
        }
    }
}

/// The payload length must fit the 32-bit length field, and the whole
/// encoding must fit in memory.
pub open spec fn packet_wf(p: PacketV) -> bool {
    &&& p.message.len() <= 0xFFFFFFFF
    &&& p.message.len() + 20 <= usize::MAX
}

/// The encoded bytes of a packet: header, then payload.
pub open spec fn spec_encode(p: PacketV) -> Seq<u8> {
    u32_be_bytes(p.sequence_number) + u32_be_bytes(crc32_of(p.message)) + u32_be_bytes(
        p.message.len() as u32,
    ) + u64_be_bytes(i64_bits(p.timestamp)) + p.message
}

/// The decoding of a byte sequence: header fields are read in order, each
/// read failing if fewer bytes remain than it needs; then the declared
/// payload is extracted and its checksum compared with the header's.
pub open spec fn spec_decode(b: Seq<u8>) -> Result<PacketV, PacketError> {
    if b.len() < 4 {
        Err(PacketError::InvalidLength { expected: 4, actual: b.len() as usize })
    } else if b.len() < 8 {
        Err(PacketError::InvalidLength { expected: 4, actual: (b.len() - 4) as usize })
    } else if b.len() < 12 {
        Err(PacketError::InvalidLength { expected: 4, actual: (b.len() - 8) as usize })
    } else if b.len() < 20 {
        Err(PacketError::InvalidLength { expected: 8, actual: (b.len() - 12) as usize })
    } else {
        let declared_len = be_u32(b.subrange(8, 12));
        if b.len() - 20 < declared_len {
            Err(PacketError::InvalidLength {
                expected: declared_len as usize,
                actual: (b.len() - 20) as usize,
            })
        } else {
            let received = be_u32(b.subrange(4, 8));
            let message = b.subrange(20, 20 + declared_len);
            if received != crc32_of(message) {
                Err(PacketError::InvalidChecksum { received, computed: crc32_of(message) })
            } else {
                Ok(
                    PacketV {
                        sequence_number: be_u32(b.subrange(0, 4)),
                        timestamp: bits_i64(be_u64(b.subrange(12, 20))),
                        message,
                    },
                )
            }
        }
    }
}

impl Packet {
    /// A packet stamped with the current time; the checksum is computed
    /// when the packet is encoded.
    pub fn new(sequence_number: u32, message: Vec<u8>) -> (r: Packet)
        ensures
            r.sequence_number == sequence_number,
            r.message@ == message@,
    {
        let timestamp = now_nanos();
        Packet { sequence_number, timestamp, message }
    }

    /// Encodes the packet as its wire bytes.
    pub fn to_bytes(&self) -> (r: Result<Vec<u8>, PacketError>)
        requires
            packet_wf(self@),
        ensures
            r matches Ok(b) && b@ == spec_encode(self@),
    {
        let mut out: Vec<u8> = Vec::new();
        push_u32_be(&mut out, self.sequence_number);
        push_u32_be(&mut out, crc32(self.message.as_slice()));
        push_u32_be(&mut out, self.message.len() as u32);
        push_u64_be(&mut out, to_bits_i64(self.timestamp));
        let mut i: usize = 0;
        while i < self.message.len()
            invariant
                i <= self.message.len(),
                self.message.len() + 20 <= usize::MAX,
                out@ == spec_encode(self@).subrange(0, 20 + i),
            decreases self.message.len() - i,
        {
            out.push(self.message[i]);
            proof {
                assert(out@ =~= spec_encode(self@).subrange(0, 20 + i + 1));
            }
            i = i + 1;
        }
        proof {
            assert(out@ =~= spec_encode(self@));
        }
        Ok(out)
    }

    /// Decodes wire bytes back into a packet.
    pub fn from_bytes(bytes: &[u8]) -> (r: Result<Packet, PacketError>)
        ensures
            ({
                let d = spec_decode(bytes@);
                match r {
                    Ok(p) => d matches Ok(q) && p@ == q,
                    Err(e) => d matches Err(e2) && e == e2,
                }
            }),
    {
        let n = bytes.len();
        if n < 4 {
            return Err(PacketError::InvalidLength { expected: 4, actual: n });
        }
        if n < 8 {
            return Err(PacketError::InvalidLength { expected: 4, actual: n - 4 });
        }
        if n < 12 {
            return Err(PacketError::InvalidLength { expected: 4, actual: n - 8 });
        }
        if n < 20 {
            return Err(PacketError::InvalidLength { expected: 8, actual: n - 12 });
        }
        let sequence_number = get_u32_be(bytes, 0);
        let received = get_u32_be(bytes, 4);
        let declared_len = get_u32_be(bytes, 8) as usize;
        let timestamp = from_bits_i64(get_u64_be(bytes, 12));
        if n - 20 < declared_len {
            return Err(PacketError::InvalidLength { expected: declared_len, actual: n - 20 });
        }
        let mut message: Vec<u8> = Vec::new();
        let mut i: usize = 0;
        while i < declared_len
            invariant
                i <= declared_len,
                n == bytes@.len(),
                20 + declared_len <= n,
                message@ == bytes@.subrange(20, 20 + i),
            decreases declared_len - i,
        {
            message.push(bytes[20 + i]);
            proof {
                assert(message@ =~= bytes@.subrange(20, 20 + i + 1));
            }
            i = i + 1;
        }
        let computed = crc32(message.as_slice());
        if received != computed {
            return Err(PacketError::InvalidChecksum { received, computed });
        }
        Ok(Packet { sequence_number, timestamp, message })
    }
}

impl PartialEq for Packet {
    fn eq(&self, other: &Packet) -> (r: bool) {
        self.sequence_number == other.sequence_number && self.timestamp == other.timestamp
            && bytes_eq(&self.message, &other.message)
    }
}

impl Eq for Packet {

}

impl vstd::std_specs::cmp::PartialEqSpecImpl for Packet {
    open spec fn obeys_eq_spec() -> bool {
        true
    }

    open spec fn eq_spec(&self, other: &Packet) -> bool {
        self@ =~= other@
    }
}

/// Compares two byte vectors element by element.
fn bytes_eq(a: &Vec<u8>, b: &Vec<u8>) -> (r: bool)
    ensures
        r == (a@ =~= b@),
{
    if a.len() != b.len() {
        return false;
    }
    let mut i: usize = 0;
    while i < a.len()
        invariant
            i <= a.len(),
            a@.len() == b@.len(),
            forall|j: int| 0 <= j < i ==> a@[j] == b@[j],
        decreases a.len() - i,
    {
        if a[i] != b[i] {
            return false;
        }
        i = i + 1;
    }
    true
}

/// Relies on `chrono::Utc::now` and `DateTime::timestamp_nanos_opt` for the
/// send-time stamp; a time outside the representable range falls back to 0.
/// Nothing is promised of the clock's value.
#[verifier::external_body]
fn now_nanos() -> i64 {
    chrono::Utc::now().timestamp_nanos_opt().unwrap_or(0)
}

/// Round-trip: decoding an encoded packet gives the packet back.
pub proof fn lemma_packet_roundtrip(p: PacketV)
    requires
        packet_wf(p),
    ensures
        spec_decode(spec_encode(p)) == Ok::<PacketV, PacketError>(p),
{
    let b = spec_encode(p);
    assert(b.len() == 20 + p.message.len());
    assert(b.subrange(0, 4) =~= u32_be_bytes(p.sequence_number));
    assert(b.subrange(4, 8) =~= u32_be_bytes(crc32_of(p.message)));
    assert(b.subrange(8, 12) =~= u32_be_bytes(p.message.len() as u32));
    assert(b.subrange(12, 20) =~= u64_be_bytes(i64_bits(p.timestamp)));
    lemma_u32_be_roundtrip(p.sequence_number);
    lemma_u32_be_roundtrip(crc32_of(p.message));
    lemma_u32_be_roundtrip(p.message.len() as u32);
    lemma_u64_be_roundtrip(i64_bits(p.timestamp));
    assert(b.subrange(20, 20 + p.message.len() as int) =~= p.message);
    assert(spec_decode(b) matches Ok(q) && q =~= p);
}

/// Truncation: decoding any strict prefix of a valid encoding fails with
/// `InvalidLength`.
pub proof fn lemma_packet_truncation(p: PacketV, n: int)
    requires
        packet_wf(p),
        0 <= n < spec_encode(p).len(),
    ensures
        spec_decode(spec_encode(p).subrange(0, n)) matches Err(e) && e is InvalidLength,
{
    let b = spec_encode(p);
    let t = b.subrange(0, n);
    if n >= 20 {
        assert(t.subrange(8, 12) =~= b.subrange(8, 12));
        assert(b.subrange(8, 12) =~= u32_be_bytes(p.message.len() as u32));
        lemma_u32_be_roundtrip(p.message.len() as u32);
        assert(t.len() - 20 < p.message.len());
    }
}

/// Checksum integrity: a valid encoding whose payload is corrupted in one
/// byte decodes to `InvalidChecksum`, carrying the transmitted and the
/// recomputed checksum — provided the corrupted payload's CRC-32 differs
/// from the original's, which is all an uninterpreted checksum can say.
pub proof fn lemma_corruption_detected(p: PacketV, i: int, v: u8)
    requires
        packet_wf(p),
        0 <= i < p.message.len(),
        crc32_of(p.message.update(i, v)) != crc32_of(p.message),
    ensures
        spec_decode(spec_encode(p).update(20 + i, v)) == Err::<PacketV, PacketError>(
            PacketError::InvalidChecksum {
                received: crc32_of(p.message),
                computed: crc32_of(p.message.update(i, v)),
            },
        ),
{
    let b = spec_encode(p).update(20 + i, v);
    assert(b.subrange(4, 8) =~= u32_be_bytes(crc32_of(p.message)));
    assert(b.subrange(8, 12) =~= u32_be_bytes(p.message.len() as u32));
    lemma_u32_be_roundtrip(crc32_of(p.message));
    lemma_u32_be_roundtrip(p.message.len() as u32);
    assert(b.subrange(20, 20 + p.message.len() as int) =~= p.message.update(i, v));
}

} // verus!
