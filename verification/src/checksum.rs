//! The integrity check used by the packet codec: CRC-32 with the IEEE
//! polynomial, computed by the `crc` crate.

use vstd::prelude::*;

verus! {

/// The CRC-32 (IEEE polynomial) of a byte sequence. The algorithm is the
/// `crc` crate's business; the codec only needs that it is a function of
/// the bytes alone.
pub uninterp spec fn crc32_of(data: Seq<u8>) -> u32;

/// Relies on `crc::Crc::<u32>::checksum` with the `CRC_32_ISO_HDLC`
/// algorithm (the IEEE polynomial): the result depends on the bytes alone.
#[verifier::external_body]
pub(crate) fn crc32(data: &[u8]) -> (r: u32)
    ensures
        r == crc32_of(data@),
{
    crc::Crc::<u32>::new(&crc::CRC_32_ISO_HDLC).checksum(data)
}

} // verus!
