use wndsize::wide::encode_wide;
use wndsize::wide::utf16_to_utf8;
use wndsize::wide::utf8_to_utf16;

#[test]
fn round_trip_ascii() {
    let units = encode_wide("hello, windows");
    let back = utf16_to_utf8(&units).unwrap();
    assert_eq!(back, "hello, windows");
}

#[test]
fn round_trip_empty() {
    let units = encode_wide("");
    assert!(units.is_empty());
    assert_eq!(utf16_to_utf8(&units).unwrap(), "");
}

#[test]
fn round_trip_multibyte() {
    let original = "ウィンドウのタイトル";
    let units = encode_wide(original);
    assert_eq!(utf16_to_utf8(&units).unwrap(), original);
}

#[test]
fn round_trip_supplementary_plane() {
    let original = "clef: \u{1D11E} and note: \u{1F3B5}";
    let units = encode_wide(original);
    assert_eq!(utf16_to_utf8(&units).unwrap(), original);
}

#[test]
fn encode_surrogate_pair_exact_units() {
    // U+1D11E is encoded as the surrogate pair D834 DD1E.
    let units = encode_wide("\u{1D11E}");
    assert_eq!(units, vec![0xD834u16, 0xDD1E]);
}

#[test]
fn encode_bmp_exact_units() {
    let units = encode_wide("Az\u{3042}");
    assert_eq!(units, vec![0x41u16, 0x7A, 0x3042]);
}

#[test]
fn utf8_to_utf16_appends_terminator() {
    let units = utf8_to_utf16("ab");
    assert_eq!(units, vec![0x61u16, 0x62, 0]);
}

#[test]
fn decode_rejects_lone_high_surrogate() {
    assert!(utf16_to_utf8(&vec![0xD800u16]).is_err());
}

#[test]
fn decode_rejects_lone_low_surrogate() {
    assert!(utf16_to_utf8(&vec![0xDC00u16]).is_err());
}

#[test]
fn decode_rejects_high_surrogate_before_ordinary_unit() {
    assert!(utf16_to_utf8(&vec![0xD834u16, 0x0041]).is_err());
}

#[test]
fn decode_rejects_reversed_pair() {
    assert!(utf16_to_utf8(&vec![0xDD1Eu16, 0xD834]).is_err());
}

#[test]
fn decode_accepts_proper_pair() {
    assert_eq!(utf16_to_utf8(&vec![0xD834u16, 0xDD1E]).unwrap(), "\u{1D11E}");
}
