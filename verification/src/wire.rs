//! Big-endian encodings of the fixed-width integers that appear in the
//! packet header: `u32` fields and the signed 64-bit timestamp.

use vstd::prelude::*;

verus! {

/// The four big-endian bytes of a 32-bit value.
pub open spec fn u32_be_bytes(x: u32) -> Seq<u8> {
    seq![
        (x / 0x1000000u32) as u8,
        ((x / 0x10000u32) % 0x100) as u8,
        ((x / 0x100u32) % 0x100) as u8,
        (x % 0x100) as u8,
    ]
}

/// The 32-bit value read from four big-endian bytes.
pub open spec fn be_u32(b: Seq<u8>) -> u32
    recommends
        b.len() == 4,
{
    (b[0] * 0x1000000 + b[1] * 0x10000 + b[2] * 0x100 + b[3]) as u32
}

/// The eight big-endian bytes of a 64-bit value.
pub open spec fn u64_be_bytes(x: u64) -> Seq<u8> {
    seq![
        (x / 0x100000000000000u64) as u8,
        ((x / 0x1000000000000u64) % 0x100) as u8,
        ((x / 0x10000000000u64) % 0x100) as u8,
        ((x / 0x100000000u64) % 0x100) as u8,
        ((x / 0x1000000u64) % 0x100) as u8,
        ((x / 0x10000u64) % 0x100) as u8,
        ((x / 0x100u64) % 0x100) as u8,
        (x % 0x100) as u8,
    ]
}

/// The 64-bit value read from eight big-endian bytes.
pub open spec fn be_u64(b: Seq<u8>) -> u64
    recommends
        b.len() == 8,
{
    (b[0] * 0x100000000000000 + b[1] * 0x1000000000000 + b[2] * 0x10000000000
        + b[3] * 0x100000000 + b[4] * 0x1000000 + b[5] * 0x10000 + b[6] * 0x100 + b[7]) as u64
}

/// The two's-complement 64-bit pattern of a signed value.
pub open spec fn i64_bits(x: i64) -> u64 {
    if x >= 0 {
        x as u64
    } else {
        (x + 0x10000000000000000) as u64
    }
}

/// The signed value whose two's-complement pattern is `u`.
pub open spec fn bits_i64(u: u64) -> i64 {
    if u < 0x8000000000000000 {
        u as i64
    } else {
        (u - 0x10000000000000000) as i64
    }
}

/// The two's-complement 32-bit pattern of a signed value.
pub open spec fn i32_bits(x: i32) -> u32 {
    if x >= 0 {
        x as u32
    } else {
        (x + 0x100000000) as u32
    }
}

/// The signed value whose two's-complement pattern is `u`.
pub open spec fn bits_i32(u: u32) -> i32 {
    if u < 0x80000000 {
        u as i32
    } else {
        (u - 0x100000000) as i32
    }
}

pub proof fn lemma_i32_bits_roundtrip(x: i32)
    ensures
        bits_i32(i32_bits(x)) == x,
{
}

/// The two's-complement pattern of `x`, as executable code.
pub fn to_bits_i32(x: i32) -> (r: u32)
    ensures
        r == i32_bits(x),
{
    if x >= 0 {
        x as u32
    } else {
        ((x as i64) + 0x100000000i64) as u32
    }
}

/// The signed value of a two's-complement pattern, as executable code.
pub fn from_bits_i32(u: u32) -> (r: i32)
    ensures
        r == bits_i32(u),
{
    if u < 0x80000000 {
        u as i32
    } else {
        ((u as i64) - 0x100000000i64) as i32
    }
}

pub proof fn lemma_u32_be_roundtrip(x: u32)
    ensures
        be_u32(u32_be_bytes(x)) == x,
{
    assert((x / 0x1000000u32) * 0x1000000 + ((x / 0x10000u32) % 0x100) * 0x10000 + ((x
        / 0x100u32) % 0x100) * 0x100 + (x % 0x100) == x) by (bit_vector);
}

pub proof fn lemma_u64_be_roundtrip(x: u64)
    ensures
        be_u64(u64_be_bytes(x)) == x,
{
    assert((x / 0x100000000000000u64) * 0x100000000000000 + ((x / 0x1000000000000u64) % 0x100)
        * 0x1000000000000 + ((x / 0x10000000000u64) % 0x100) * 0x10000000000 + ((x
        / 0x100000000u64) % 0x100) * 0x100000000 + ((x / 0x1000000u64) % 0x100) * 0x1000000 + ((x
        / 0x10000u64) % 0x100) * 0x10000 + ((x / 0x100u64) % 0x100) * 0x100 + (x % 0x100)
        == x) by (bit_vector);
}

/// Appends the four big-endian bytes of `x`.
pub fn push_u32_be(out: &mut Vec<u8>, x: u32)
    ensures
        final(out)@ == old(out)@ + u32_be_bytes(x),
{
    proof {
        assert(x / 0x1000000u32 < 0x100 && (x / 0x10000u32) % 0x100 < 0x100 && (x / 0x100u32)
            % 0x100 < 0x100 && x % 0x100 < 0x100) by (bit_vector);
    }
    out.push((x / 0x1000000) as u8);
    out.push(((x / 0x10000) % 0x100) as u8);
    out.push(((x / 0x100) % 0x100) as u8);
    out.push((x % 0x100) as u8);
    assert(out@ =~= old(out)@ + u32_be_bytes(x));
}

/// Appends the eight big-endian bytes of `x`.
pub fn push_u64_be(out: &mut Vec<u8>, x: u64)
    ensures
        final(out)@ == old(out)@ + u64_be_bytes(x),
{
    proof {
        assert(x / 0x100000000000000u64 < 0x100 && (x / 0x1000000000000u64) % 0x100 < 0x100 && (x
            / 0x10000000000u64) % 0x100 < 0x100 && (x / 0x100000000u64) % 0x100 < 0x100 && (x
            / 0x1000000u64) % 0x100 < 0x100 && (x / 0x10000u64) % 0x100 < 0x100 && (x / 0x100u64)
            % 0x100 < 0x100 && x % 0x100 < 0x100) by (bit_vector);
    }
    out.push((x / 0x100000000000000) as u8);
    out.push(((x / 0x1000000000000) % 0x100) as u8);
    out.push(((x / 0x10000000000) % 0x100) as u8);
    out.push(((x / 0x100000000) % 0x100) as u8);
    out.push(((x / 0x1000000) % 0x100) as u8);
    out.push(((x / 0x10000) % 0x100) as u8);
    out.push(((x / 0x100) % 0x100) as u8);
    out.push((x % 0x100) as u8);
    assert(out@ =~= old(out)@ + u64_be_bytes(x));
}

/// Reads the big-endian `u32` at offset `i`.
pub fn get_u32_be(bytes: &[u8], i: usize) -> (r: u32)
    requires
        i + 4 <= bytes@.len(),
    ensures
        r == be_u32(bytes@.subrange(i as int, i + 4)),
{
    let r = (bytes[i] as u32) * 0x1000000 + (bytes[i + 1] as u32) * 0x10000 + (bytes[i + 2] as u32)
        * 0x100 + (bytes[i + 3] as u32);
    proof {
        let s = bytes@.subrange(i as int, i + 4);
        assert(s[0] == bytes@[i as int] && s[1] == bytes@[i + 1] && s[2] == bytes@[i + 2] && s[3]
            == bytes@[i + 3]);
    }
    r
}

/// Reads the big-endian `u64` at offset `i`.
pub fn get_u64_be(bytes: &[u8], i: usize) -> (r: u64)
    requires
        i + 8 <= bytes@.len(),
    ensures
        r == be_u64(bytes@.subrange(i as int, i + 8)),
{
    let r = (bytes[i] as u64) * 0x100000000000000 + (bytes[i + 1] as u64) * 0x1000000000000 + (
    bytes[i + 2] as u64) * 0x10000000000 + (bytes[i + 3] as u64) * 0x100000000 + (bytes[i
        + 4] as u64) * 0x1000000 + (bytes[i + 5] as u64) * 0x10000 + (bytes[i + 6] as u64) * 0x100
        + (bytes[i + 7] as u64);
    proof {
        let s = bytes@.subrange(i as int, i + 8);
        assert(s[0] == bytes@[i as int] && s[1] == bytes@[i + 1] && s[2] == bytes@[i + 2] && s[3]
            == bytes@[i + 3] && s[4] == bytes@[i + 4] && s[5] == bytes@[i + 5] && s[6] == bytes@[i
            + 6] && s[7] == bytes@[i + 7]);
    }
    r
}

/// The two's-complement pattern of `x`, as executable code.
pub fn to_bits_i64(x: i64) -> (r: u64)
    ensures
        r == i64_bits(x),
{
    if x >= 0 {
        x as u64
    } else {
        ((x as i128) + 0x10000000000000000i128) as u64
    }
}

/// The signed value of a two's-complement pattern, as executable code.
pub fn from_bits_i64(u: u64) -> (r: i64)
    ensures
        r == bits_i64(u),
{
    if u < 0x8000000000000000 {
        u as i64
    } else {
        ((u as i128) - 0x10000000000000000i128) as i64
    }
}

} // verus!
