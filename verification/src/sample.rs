//! Raw sensor samples: reading them out of a frame and scaling them to
//! eight bits.

use vstd::prelude::*;
use vstd::arithmetic::power2::{lemma2_to64, lemma_pow2_strictly_increases, lemma_pow2_unfold, pow2};
use vstd::slice::slice_subrange;
use byteorder::{BigEndian, LittleEndian, ReadBytesExt};
use crate::video_format::Endianness;

verus! {

/// The largest depth at which a 16-bit sample can still scale to
/// something other than zero.
pub const MAX_SCALING_DEPTH: u32 = 24;

/// The bytes one sample takes: two where a pixel takes two bytes, else one.
pub open spec fn sample_width(bytes_per_pixel: u8) -> int {
    if bytes_per_pixel == 2 {
        2
    } else {
        1
    }
}

/// The 16-bit value that two bytes spell in the given byte order.
pub open spec fn u16_of_bytes(first: u8, second: u8, endianness: Endianness) -> u16 {
    match endianness {
        Endianness::LittleEndian => (first as int + 256 * second as int) as u16,
        Endianness::BigEndian => (256 * first as int + second as int) as u16,
    }
}

/// The sample that starts at `offset` in `frame`.
pub open spec fn sample_at(
    frame: Seq<u8>,
    offset: int,
    bytes_per_pixel: u8,
    endianness: Endianness,
) -> u16 {
    if bytes_per_pixel == 2 {
        u16_of_bytes(frame[offset], frame[offset + 1], endianness)
    } else {
        frame[offset] as u16
    }
}

/// A sample of `depth` significant bits scaled to the range of a byte:
/// `sample * 255 / 2^depth` rounded to the nearest integer, halves upwards,
/// and no more than 255.
pub open spec fn normalized(sample: u16, depth: u32) -> u8 {
    let unit = pow2(depth as nat) as int;
    let rounded = (510 * sample + unit) / (2 * unit);
    if rounded > 255 {
        255u8
    } else {
        rounded as u8
    }
}

/// `2^depth` where that matters for a 16-bit sample, else `None`.
pub open spec fn scale_unit_of(depth: u32) -> Option<u64> {
    if depth <= MAX_SCALING_DEPTH {
        Some(pow2(depth as nat) as u64)
    } else {
        None
    }
}

/// `byteorder::ReadBytesExt::read_u16::<LittleEndian>` on a byte slice: the
/// first two bytes, the first being the low one; nothing where the slice
/// holds fewer than two bytes.
#[verifier::external_body]
fn read_u16_little_endian(bytes: &[u8]) -> (r: Option<u16>)
    ensures
        bytes@.len() >= 2 ==> r == Some(
            u16_of_bytes(bytes@[0], bytes@[1], Endianness::LittleEndian),
        ),
        bytes@.len() < 2 ==> r is None,
{
    let mut reader = bytes;
    reader.read_u16::<LittleEndian>().ok()
}

/// `byteorder::ReadBytesExt::read_u16::<BigEndian>` on a byte slice: the
/// first two bytes, the first being the high one; nothing where the slice
/// holds fewer than two bytes.
#[verifier::external_body]
fn read_u16_big_endian(bytes: &[u8]) -> (r: Option<u16>)
    ensures
        bytes@.len() >= 2 ==> r == Some(u16_of_bytes(bytes@[0], bytes@[1], Endianness::BigEndian)),
        bytes@.len() < 2 ==> r is None,
{
    let mut reader = bytes;
    reader.read_u16::<BigEndian>().ok()
}

/// `byteorder::ReadBytesExt::read_u8` on a byte slice: its first byte;
/// nothing where the slice is empty.
#[verifier::external_body]
fn read_u8(bytes: &[u8]) -> (r: Option<u8>)
    ensures
        bytes@.len() >= 1 ==> r == Some(bytes@[0]),
        bytes@.len() < 1 ==> r is None,
{
    let mut reader = bytes;
    reader.read_u8().ok()
}

/// Reads the sample that starts at `offset`; `None` where the frame ends
/// before the sample does.
pub fn read_sample(frame: &[u8], offset: usize, bytes_per_pixel: u8, endianness: Endianness) -> (r:
    Option<u16>)
    ensures
        r == if offset + sample_width(bytes_per_pixel) <= frame@.len() {
            Some(sample_at(frame@, offset as int, bytes_per_pixel, endianness))
        } else {
            None
        },
{
    let len = frame.len();
    if bytes_per_pixel == 2 {
        if offset >= len || len - offset < 2 {
            return None;
        }
        let window = slice_subrange(frame, offset, offset + 2);
        match endianness {
            Endianness::LittleEndian => read_u16_little_endian(window),
            Endianness::BigEndian => read_u16_big_endian(window),
        }
    } else {
        if offset >= len {
            return None;
        }
        let window = slice_subrange(frame, offset, offset + 1);
        match read_u8(window) {
            Some(byte) => Some(byte as u16),
            None => None,
        }
    }
}

/// Computes `2^depth` for the depths at which a 16-bit sample can scale to
/// something other than zero.
pub fn scale_unit(depth: u32) -> (unit: Option<u64>)
    ensures
        unit == scale_unit_of(depth),
{
    if depth > MAX_SCALING_DEPTH {
        return None;
    }
    let mut unit: u64 = 1;
    let mut done: u32 = 0;
    proof {
        lemma2_to64();
    }
    while done < depth
        invariant
            done <= depth <= MAX_SCALING_DEPTH,
            unit == pow2(done as nat),
            unit <= pow2(24),
            pow2(24) == 0x1000000,
        decreases depth - done,
    {
        proof {
            lemma_pow2_unfold((done + 1) as nat);
            if done + 1 < 24 {
                lemma_pow2_strictly_increases((done + 1) as nat, 24);
            }
        }
        unit = unit * 2;
        done = done + 1;
    }
    Some(unit)
}

/// Scales a sample by a unit that `scale_unit` computed.
pub(crate) fn normalize_by(sample: u16, depth: u32, unit: Option<u64>) -> (r: u8)
    requires
        unit == scale_unit_of(depth),
    ensures
        r == normalized(sample, depth),
{
    match unit {
        Some(unit) => {
            proof {
                lemma2_to64();
                if depth < 24 {
                    lemma_pow2_strictly_increases(depth as nat, 24);
                }
            }
            let rounded: u64 = (510 * (sample as u64) + unit) / (2 * unit);
            if rounded > 255 {
                255
            } else {
                rounded as u8
            }
        },
        None => {
            proof {
                lemma2_to64();
                if depth > 25 {
                    lemma_pow2_strictly_increases(25, depth as nat);
                }
                let unit = pow2(depth as nat) as int;
                let top = 510 * sample + unit;
                assert(top / (2 * unit) == 0) by (nonlinear_arith)
                    requires
                        0 <= top < 2 * unit,
                ;
            }
            0
        },
    }
}

/// Scales a sample of `depth` significant bits to the range of a byte.
pub fn normalize(sample: u16, depth: u32) -> (r: u8)
    ensures
        r == normalized(sample, depth),
{
    normalize_by(sample, depth, scale_unit(depth))
}

} // verus!
