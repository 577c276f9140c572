use astro_video_player::fourcc::{format_fourcc, same_fourcc, FOURCC_FRAME, FOURCC_MOVI};

#[test]
fn text_codes_are_shown_as_text() {
    assert_eq!(format_fourcc(*b"movi"), "movi");
    assert_eq!(format_fourcc(FOURCC_MOVI), "movi");
    assert_eq!(format_fourcc(FOURCC_FRAME), "00db");
    assert_eq!(format_fourcc(*b"AVI "), "AVI ");
    assert_eq!(format_fourcc([0x41, 0x00, 0x7f, 0x42]), "A\u{0}\u{7f}B");
}

#[test]
fn utf8_codes_are_shown_as_text() {
    // two characters of two bytes each
    assert_eq!(format_fourcc([0xc3, 0xa9, 0xc3, 0xa8]), "\u{e9}\u{e8}");
    // one character of four bytes
    assert_eq!(format_fourcc([0xf0, 0x9f, 0x98, 0x80]), "\u{1f600}");
}

#[test]
fn other_codes_are_shown_in_hexadecimal() {
    assert_eq!(format_fourcc([0xff, 0x00, 0x1a, 0x02]), "[ff, 0, 1a, 2]");
    assert_eq!(format_fourcc([0x80, 0x0f, 0x10, 0xa0]), "[80, f, 10, a0]");
    // a character cut short
    assert_eq!(format_fourcc([0x61, 0x62, 0x63, 0xc3]), "[61, 62, 63, c3]");
    // an encoding longer than its character needs
    assert_eq!(format_fourcc([0xc0, 0x80, 0x41, 0x42]), "[c0, 80, 41, 42]");
}

#[test]
fn codes_are_compared_byte_by_byte() {
    assert!(same_fourcc(b"movi", &FOURCC_MOVI));
    assert!(!same_fourcc(b"movj", &FOURCC_MOVI));
    assert!(!same_fourcc(b"Xovi", &FOURCC_MOVI));
}
