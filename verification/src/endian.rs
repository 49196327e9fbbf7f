//! Little-endian integers as they appear in RIFF headers.

use byteorder::{ByteOrder, LittleEndian};
use vstd::prelude::*;

verus! {

/// The unsigned 32-bit number whose little-endian encoding is the first four
/// bytes of `bytes`.
pub open spec fn le_u32(bytes: Seq<u8>) -> u32
    recommends
        bytes.len() >= 4,
{
    (bytes[0] as int + 0x100 * (bytes[1] as int) + 0x1_0000 * (bytes[2] as int) + 0x100_0000 * (
    bytes[3] as int)) as u32
}

/// Calls `byteorder::LittleEndian::read_u32`, which decodes the first four
/// bytes of `bytes` with `u32::from_le_bytes` and panics on a shorter slice.
/// The contract is taken on trust: the result is the number those four bytes
/// encode, least significant byte first.
#[verifier::external_body]
pub(crate) fn read_le_u32(bytes: &[u8]) -> (value: u32)
    requires
        bytes@.len() >= 4,
    ensures
        value == le_u32(bytes@),
{
    LittleEndian::read_u32(bytes)
}

} // verus!
