//! Little-endian integers, as the archive stores every number.

use byteorder::{ByteOrder, LittleEndian};
use vstd::prelude::*;

verus! {

/// The number that `bytes` spell, least significant byte first.
pub open spec fn le_value(bytes: Seq<u8>) -> nat
    decreases bytes.len(),
{
    if bytes.len() == 0 {
        0
    } else {
        bytes[0] as nat + 256 * le_value(bytes.skip(1))
    }
}

/// Calls `byteorder::LittleEndian::read_u32`, which reads the first four bytes
/// of `buf` as a little-endian number and panics on a shorter slice.
#[verifier::external_body]
pub(crate) fn le_u32(buf: &[u8]) -> (v: u32)
    requires
        buf@.len() >= 4,
    ensures
        v as nat == le_value(buf@.subrange(0, 4)),
{
    LittleEndian::read_u32(buf)
}

/// Calls `byteorder::LittleEndian::read_u64`, which reads the first eight bytes
/// of `buf` as a little-endian number and panics on a shorter slice.
#[verifier::external_body]
pub(crate) fn le_u64(buf: &[u8]) -> (v: u64)
    requires
        buf@.len() >= 8,
    ensures
        v as nat == le_value(buf@.subrange(0, 8)),
{
    LittleEndian::read_u64(buf)
}

} // verus!
