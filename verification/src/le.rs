//! Little-endian integers at fixed places in a byte string.

use vstd::prelude::*;

verus! {

/// The unsigned 16-bit integer whose low byte lies at `at`.
pub open spec fn le_u16(bytes: Seq<u8>, at: int) -> u16 {
    (bytes[at] as int + 0x100 * bytes[at + 1] as int) as u16
}

/// The unsigned 32-bit integer whose low byte lies at `at`.
pub open spec fn le_u32(bytes: Seq<u8>, at: int) -> u32 {
    (bytes[at] as int + 0x100 * bytes[at + 1] as int + 0x1_0000 * bytes[at + 2] as int + 0x100_0000
        * bytes[at + 3] as int) as u32
}

/// The signed 32-bit integer whose low byte lies at `at`, in two's
/// complement.
pub open spec fn le_i32(bytes: Seq<u8>, at: int) -> i32 {
    if le_u32(bytes, at) >= 0x8000_0000 {
        (le_u32(bytes, at) as int - 0x1_0000_0000) as i32
    } else {
        le_u32(bytes, at) as i32
    }
}

/// The unsigned 64-bit integer whose low byte lies at `at`.
pub open spec fn le_u64(bytes: Seq<u8>, at: int) -> u64 {
    (le_u32(bytes, at) as int + 0x1_0000_0000 * le_u32(bytes, at + 4) as int) as u64
}

/// The four bytes that start at `at`.
pub open spec fn tag_at(bytes: Seq<u8>, at: int) -> Seq<u8> {
    bytes.subrange(at, at + 4)
}

/// Reads the unsigned 16-bit integer whose low byte lies at `at`.
pub fn read_le_u16(bytes: &[u8], at: usize) -> (value: u16)
    requires
        at + 2 <= bytes@.len(),
    ensures
        value == le_u16(bytes@, at as int),
{
    (bytes[at] as u16) + 0x100 * (bytes[at + 1] as u16)
}

/// Reads the unsigned 32-bit integer whose low byte lies at `at`.
pub fn read_le_u32(bytes: &[u8], at: usize) -> (value: u32)
    requires
        at + 4 <= bytes@.len(),
    ensures
        value == le_u32(bytes@, at as int),
{
    (bytes[at] as u32) + 0x100 * (bytes[at + 1] as u32) + 0x1_0000 * (bytes[at + 2] as u32)
        + 0x100_0000 * (bytes[at + 3] as u32)
}

/// Reads the signed 32-bit integer whose low byte lies at `at`.
pub fn read_le_i32(bytes: &[u8], at: usize) -> (value: i32)
    requires
        at + 4 <= bytes@.len(),
    ensures
        value == le_i32(bytes@, at as int),
{
    let raw = read_le_u32(bytes, at);
    if raw >= 0x8000_0000 {
        ((raw - 0x8000_0000) as i32) - 0x4000_0000 - 0x4000_0000
    } else {
        raw as i32
    }
}

/// Reads the unsigned 64-bit integer whose low byte lies at `at`.
pub fn read_le_u64(bytes: &[u8], at: usize) -> (value: u64)
    requires
        at + 8 <= bytes@.len(),
    ensures
        value == le_u64(bytes@, at as int),
{
    let low = read_le_u32(bytes, at);
    assert(at + 4 < bytes.len());
    let high = read_le_u32(bytes, at + 4);
    (low as u64) + 0x1_0000_0000 * (high as u64)
}

/// Copies the four bytes that start at `at`.
pub fn read_tag(bytes: &[u8], at: usize) -> (tag: [u8; 4])
    requires
        at + 4 <= bytes@.len(),
    ensures
        tag@ == tag_at(bytes@, at as int),
{
    let tag = [bytes[at], bytes[at + 1], bytes[at + 2], bytes[at + 3]];
    assert(tag@ =~= tag_at(bytes@, at as int));
    tag
}

} // verus!
