//! Four-character codes: the tags of a RIFF container.

use vstd::prelude::*;
use vstd::string::StringExecFns;
use vstd::string::StringSliceAdditionalSpecFns;
use vstd::utf8::{decode_utf8, encode_utf8_decode_utf8, valid_utf8};

verus! {

/// Four-character code
pub type FourCC = [u8; 4];

/// `RIFF`, the tag that opens a container.
pub const FOURCC_RIFF: FourCC = [0x52, 0x49, 0x46, 0x46];

/// `LIST`, the tag that opens a list.
pub const FOURCC_LIST: FourCC = [0x4c, 0x49, 0x53, 0x54];

/// `avih`, the main header.
pub const FOURCC_AVIH: FourCC = [0x61, 0x76, 0x69, 0x68];

/// `hdrl`, the list of headers.
pub const FOURCC_HDRL: FourCC = [0x68, 0x64, 0x72, 0x6c];

/// `strh`, a stream's header.
pub const FOURCC_STRH: FourCC = [0x73, 0x74, 0x72, 0x68];

/// `strf`, a stream's format.
pub const FOURCC_STRF: FourCC = [0x73, 0x74, 0x72, 0x66];

/// `strl`, the list that describes one stream.
pub const FOURCC_STRL: FourCC = [0x73, 0x74, 0x72, 0x6c];

/// `movi`, the list of frame payloads.
pub const FOURCC_MOVI: FourCC = [0x6d, 0x6f, 0x76, 0x69];

/// `00db`, an uncompressed frame of the first stream.
pub const FOURCC_FRAME: FourCC = [0x30, 0x30, 0x64, 0x62];

/// Whether two codes are the same.
pub fn same_fourcc(a: &FourCC, b: &FourCC) -> (same: bool)
    ensures
        same == (a@ == b@),
{
    let same = a[0] == b[0] && a[1] == b[1] && a[2] == b[2] && a[3] == b[3];
    assert(same == (a@ =~= b@));
    same
}

/// The error of `core::str::from_utf8`; nothing is read from it.
#[verifier::external_type_specification]
#[verifier::external_body]
pub struct ExUtf8Error(core::str::Utf8Error);

/// `core::str::from_utf8` accepts exactly the byte strings that are valid
/// UTF-8, and the text it gives is spelled by the bytes it was given.
pub assume_specification[ core::str::from_utf8 ](v: &[u8]) -> (r: Result<
    &str,
    core::str::Utf8Error,
>)
    ensures
        r is Ok <==> valid_utf8(v@),
        r matches Ok(text) ==> text.spec_bytes() == v@,
;

/// One hexadecimal digit.
pub open spec fn hex_digit_text(digit: int) -> Seq<char> {
    if digit == 0 {
        "0"@
    } else if digit == 1 {
        "1"@
    } else if digit == 2 {
        "2"@
    } else if digit == 3 {
        "3"@
    } else if digit == 4 {
        "4"@
    } else if digit == 5 {
        "5"@
    } else if digit == 6 {
        "6"@
    } else if digit == 7 {
        "7"@
    } else if digit == 8 {
        "8"@
    } else if digit == 9 {
        "9"@
    } else if digit == 10 {
        "a"@
    } else if digit == 11 {
        "b"@
    } else if digit == 12 {
        "c"@
    } else if digit == 13 {
        "d"@
    } else if digit == 14 {
        "e"@
    } else {
        "f"@
    }
}

/// A byte in hexadecimal, without leading zero.
pub open spec fn hex_byte_text(byte: u8) -> Seq<char> {
    if byte < 16 {
        hex_digit_text(byte as int)
    } else {
        hex_digit_text(byte as int / 16) + hex_digit_text(byte as int % 16)
    }
}

/// Four bytes as a list in hexadecimal, such as `[ff, 0, 1a, 2]`.
pub open spec fn hex_list_text(code: Seq<u8>) -> Seq<char> {
    "["@ + hex_byte_text(code[0]) + ", "@ + hex_byte_text(code[1]) + ", "@ + hex_byte_text(code[2])
        + ", "@ + hex_byte_text(code[3]) + "]"@
}

/// How a code is shown: as text where its bytes are UTF-8, else as a list
/// of its bytes in hexadecimal.
pub open spec fn fourcc_text(code: Seq<u8>) -> Seq<char> {
    if valid_utf8(code) {
        decode_utf8(code)
    } else {
        hex_list_text(code)
    }
}

fn hex_digit(digit: u8) -> (text: &'static str)
    requires
        digit < 16,
    ensures
        text@ == hex_digit_text(digit as int),
{
    if digit == 0 {
        "0"
    } else if digit == 1 {
        "1"
    } else if digit == 2 {
        "2"
    } else if digit == 3 {
        "3"
    } else if digit == 4 {
        "4"
    } else if digit == 5 {
        "5"
    } else if digit == 6 {
        "6"
    } else if digit == 7 {
        "7"
    } else if digit == 8 {
        "8"
    } else if digit == 9 {
        "9"
    } else if digit == 10 {
        "a"
    } else if digit == 11 {
        "b"
    } else if digit == 12 {
        "c"
    } else if digit == 13 {
        "d"
    } else if digit == 14 {
        "e"
    } else {
        "f"
    }
}

fn append_hex_byte(text: &mut String, byte: u8)
    ensures
        final(text)@ == old(text)@ + hex_byte_text(byte),
{
    if byte >= 16 {
        text.append(hex_digit(byte / 16));
    }
    text.append(hex_digit(byte % 16));
}

/// Shows a code: as text where its bytes are UTF-8, else as a list of its
/// bytes in hexadecimal.
pub fn format_fourcc(value: FourCC) -> (text: String)
    ensures
        text@ == fourcc_text(value@),
{
    match core::str::from_utf8(value.as_slice()) {
        Ok(s) => {
            proof {
                encode_utf8_decode_utf8(s@);
            }
            String::from_str(s)
        },
        _ => {
            let mut text = String::from_str("[");
            append_hex_byte(&mut text, value[0]);
            text.append(", ");
            append_hex_byte(&mut text, value[1]);
            text.append(", ");
            append_hex_byte(&mut text, value[2]);
            text.append(", ");
            append_hex_byte(&mut text, value[3]);
            text.append("]");
            text
        },
    }
}

} // verus!
