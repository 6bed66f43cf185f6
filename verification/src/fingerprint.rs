//! Content fingerprinting: a checksum over a file's full bytes, used to
//! detect byte-level changes between detection cycles.

use vstd::prelude::*;

verus! {

/// The CRC-32 checksum of a byte sequence, as `crc32fast` computes it.
/// The checksum is a pure function of the bytes alone, so it carries a name
/// here rather than a page-long definition.
pub uninterp spec fn crc32_of(bytes: Seq<u8>) -> u32;

/// Relies on `crc32fast::hash`: the CRC-32 (IEEE) checksum of the given
/// bytes, determined by the bytes alone.
#[verifier::external_body]
pub(crate) fn fingerprint_bytes(bytes: &Vec<u8>) -> (r: u32)
    ensures
        r == crc32_of(bytes@),
{
    crc32fast::hash(bytes.as_slice())
}

} // verus!
