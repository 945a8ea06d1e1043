//! The checksum that candidate foundations are made of.

use crc::{Crc, CRC_32_ISCSI};
use vstd::prelude::*;

verus! {

/// The CRC-32/ISCSI (Castagnoli) checksum of a row of bytes.
pub uninterp spec fn crc32_iscsi(bytes: Seq<u8>) -> u32;

/// `Crc::<u32>::new(&CRC_32_ISCSI).checksum(bytes)` of the crate `crc`: the
/// CRC-32/ISCSI checksum of the bytes. The checksum depends on the bytes
/// alone; its value is not stated here, only named.
#[verifier::external_body]
pub(crate) fn checksum_iscsi(bytes: &[u8]) -> (sum: u32)
    ensures
        sum == crc32_iscsi(bytes@),
{
    Crc::<u32>::new(&CRC_32_ISCSI).checksum(bytes)
}

} // verus!
