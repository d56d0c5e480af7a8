//! Text.

use signage_desktop::text::{hex, is_whitespace};

#[test]
fn hex_is_lowercase_and_zero_padded() {
    assert_eq!(hex(&[0x00, 0x0f, 0xff, 0xa5]), "000fffa5");
}

#[test]
fn every_byte_has_its_own_hex() {
    let all: Vec<u8> = (0..=255).collect();
    let expected: String = all.iter().map(|b| format!("{b:02x}")).collect();
    assert_eq!(hex(&all), expected);
    assert_eq!(hex(&[]), "");
}

#[test]
fn white_space_is_what_unicode_says() {
    for c in '\0'..=char::MAX {
        assert_eq!(is_whitespace(c), c.is_whitespace(), "{:x}", c as u32);
    }
}
