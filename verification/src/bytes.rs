use vstd::prelude::*;
use vstd::endian::{endianness, Endian};

verus! {

/// Little-endian value of `len` bytes starting at `offset`.
pub open spec fn le_value(bytes: Seq<u8>, offset: int, len: nat) -> int
    decreases len,
{
    if len == 0 {
        0
    } else {
        bytes[offset] as int + 256 * le_value(bytes, offset + 1, (len - 1) as nat)
    }
}

/// Big-endian value of `len` bytes starting at `offset`.
pub open spec fn be_value(bytes: Seq<u8>, offset: int, len: nat) -> int
    decreases len,
{
    if len == 0 {
        0
    } else {
        bytes[offset + len - 1] as int + 256 * be_value(bytes, offset, (len - 1) as nat)
    }
}

/// Value of `len` bytes starting at `offset` in the byte order of the machine
/// the library runs on.
pub open spec fn ne_value(bytes: Seq<u8>, offset: int, len: nat) -> int {
    match endianness() {
        Endian::Little => le_value(bytes, offset, len),
        Endian::Big => be_value(bytes, offset, len),
    }
}

/// Calls `u16::from_ne_bytes` on the two bytes at `offset`: the value of those
/// bytes in the machine's byte order, as std documents.
#[verifier::external_body]
pub(crate) fn read_u16_ne(bytes: &[u8], offset: usize) -> (value: u16)
    requires
        offset + 2 <= bytes@.len(),
    ensures
        value as int == ne_value(bytes@, offset as int, 2),
{
    u16::from_ne_bytes([bytes[offset], bytes[offset + 1]])
}

/// Calls `u32::from_ne_bytes` on the four bytes at `offset`: the value of those
/// bytes in the machine's byte order, as std documents.
#[verifier::external_body]
pub(crate) fn read_u32_ne(bytes: &[u8], offset: usize) -> (value: u32)
    requires
        offset + 4 <= bytes@.len(),
    ensures
        value as int == ne_value(bytes@, offset as int, 4),
{
    u32::from_ne_bytes([bytes[offset], bytes[offset + 1], bytes[offset + 2], bytes[offset + 3]])
}

/// Calls `u64::from_ne_bytes` on the eight bytes at `offset`: the value of
/// those bytes in the machine's byte order, as std documents.
#[verifier::external_body]
pub(crate) fn read_u64_ne(bytes: &[u8], offset: usize) -> (value: u64)
    requires
        offset + 8 <= bytes@.len(),
    ensures
        value as int == ne_value(bytes@, offset as int, 8),
{
    u64::from_ne_bytes(
        [
            bytes[offset],
            bytes[offset + 1],
            bytes[offset + 2],
            bytes[offset + 3],
            bytes[offset + 4],
            bytes[offset + 5],
            bytes[offset + 6],
            bytes[offset + 7],
        ],
    )
}

} // verus!
