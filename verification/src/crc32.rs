//! The 32-bit cyclic redundancy check that guards every chunk record.

use vstd::prelude::*;

verus! {

/// The CRC-32/ISO-HDLC checksum of a byte sequence.  The checksum itself is
/// computed by an outside crate; contracts treat it as an opaque function of
/// the bytes alone.
pub uninterp spec fn crc32_of(bytes: Seq<u8>) -> u32;

/// Relies on crc::Crc::<u32>::new(&crc::CRC_32_ISO_HDLC).checksum, a pure
/// table-driven function of the input bytes alone.
#[verifier::external_body]
pub(crate) fn crc32_checksum(bytes: &[u8]) -> (r: u32)
    ensures
        r == crc32_of(bytes@),
{
    crc::Crc::<u32>::new(&crc::CRC_32_ISO_HDLC).checksum(bytes)
}

} // verus!
