use operations::unicode::fix_unicode_string;
use operations::unicode::parse_utf16;
use operations::unicode::remove_broken_bom_and_parse_utf16;
use operations::unicode::Endian;

#[test]
fn broken_little_endian_bom_is_repaired() {
    assert_eq!(fix_unicode_string("\u{FF}\u{FE}H\u{0}i\u{0}"), "Hi");
}

#[test]
fn broken_big_endian_bom_is_repaired() {
    assert_eq!(fix_unicode_string("\u{FE}\u{FF}\u{0}H\u{0}i"), "Hi");
}

#[test]
fn plain_strings_pass_through_unchanged() {
    assert_eq!(fix_unicode_string("plain text"), "plain text");
    assert_eq!(fix_unicode_string(""), "");
    assert_eq!(fix_unicode_string("\u{FF}x"), "\u{FF}x");
}

#[test]
fn unparsable_payload_becomes_a_replacement_character() {
    // An odd number of payload bytes cannot be UTF-16.
    assert_eq!(fix_unicode_string("\u{FF}\u{FE}H"), "\u{FFFD}");
}

#[test]
fn surrogate_pairs_decode_to_supplementary_characters() {
    // U+1F600 as UTF-16 LE: 0x3D 0xD8 0x00 0xDE.
    let bytes = vec![0xC3, 0xBF, 0xC3, 0xBE, 0x3D, 0xD8, 0x00, 0xDE];
    // The first four bytes are the broken byte-order mark.
    let repaired = remove_broken_bom_and_parse_utf16(&bytes, Endian::Little);
    assert_eq!(repaired, "\u{1F600}");
}

#[test]
fn lone_surrogates_fail_to_parse() {
    let bytes = vec![0x3D, 0xD8];
    assert!(parse_utf16(&bytes, Endian::Little).is_err());
    let ok = parse_utf16(&[0x48, 0x00, 0x69, 0x00], Endian::Little);
    assert_eq!(ok, Ok("Hi".to_owned()));
}
