//! Little-endian integers, as the container stores them.

use byteorder::ByteOrder;
use byteorder::LittleEndian;
use vstd::prelude::*;

verus! {

/// The number that the first four bytes of `b` spell, least significant byte first.
pub open spec fn le_u32(b: Seq<u8>) -> u32
    recommends
        b.len() >= 4,
{
    (b[0] as int + b[1] as int * 0x100 + b[2] as int * 0x1_0000 + b[3] as int * 0x100_0000) as u32
}

/// The number that the first eight bytes of `b` spell, least significant byte first.
pub open spec fn le_u64(b: Seq<u8>) -> u64
    recommends
        b.len() >= 8,
{
    (le_u32(b) as int + le_u32(b.skip(4)) as int * 0x1_0000_0000) as u64
}

/// Calls `byteorder::LittleEndian::read_u32`, which reads the first four bytes
/// of `buf` as a little-endian `u32`. The contract is not proved: it restates
/// the documented result, and leaves out the buffers of fewer than four bytes,
/// on which the call panics.
#[verifier::external_body]
pub(crate) fn read_u32(buf: &[u8]) -> (value: u32)
    requires
        buf@.len() >= 4,
    ensures
        value == le_u32(buf@),
{
    LittleEndian::read_u32(buf)
}

/// Calls `byteorder::LittleEndian::read_u64`, which reads the first eight bytes
/// of `buf` as a little-endian `u64`. The contract is not proved: it restates
/// the documented result, and leaves out the buffers of fewer than eight bytes,
/// on which the call panics.
#[verifier::external_body]
pub(crate) fn read_u64(buf: &[u8]) -> (value: u64)
    requires
        buf@.len() >= 8,
    ensures
        value == le_u64(buf@),
{
    LittleEndian::read_u64(buf)
}

} // verus!
