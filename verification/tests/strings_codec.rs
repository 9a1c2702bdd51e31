use kronosnet::errors::ErrorKind;
use kronosnet::strings::{
    check_text_field, string_from_bytes, string_from_bytes_safe, string_to_bytes,
};

#[test]
fn encode_decode_round_trip() {
    let mut buf: Vec<u8> = vec![0xAA; 16];
    string_to_bytes("hello", &mut buf).unwrap();
    assert_eq!(&buf[..5], b"hello");
    assert_eq!(&buf[5..], &[0u8; 11]);
    let back = string_from_bytes(&buf, 16).unwrap();
    assert_eq!(back, "hello");
}

#[test]
fn encode_decode_round_trip_full_capacity() {
    // A string whose bytes exactly fill the buffer still round-trips:
    // decoding a buffer without a zero byte takes the whole buffer.
    let mut buf: Vec<u8> = vec![0; 4];
    string_to_bytes("abcd", &mut buf).unwrap();
    assert_eq!(&buf, b"abcd");
    let back = string_from_bytes(&buf, 4).unwrap();
    assert_eq!(back, "abcd");
}

#[test]
fn encode_decode_round_trip_multibyte() {
    let s = "καλημέρα";
    let mut buf: Vec<u8> = vec![0; 32];
    string_to_bytes(s, &mut buf).unwrap();
    let back = string_from_bytes(&buf, 32).unwrap();
    assert_eq!(back, s);
}

#[test]
fn encode_empty_string() {
    let mut buf: Vec<u8> = vec![7; 8];
    string_to_bytes("", &mut buf).unwrap();
    assert_eq!(buf, vec![0u8; 8]);
    assert_eq!(string_from_bytes(&buf, 8).unwrap(), "");
}

#[test]
fn encode_too_long_leaves_buffer_untouched() {
    let mut buf: Vec<u8> = vec![9; 4];
    let r = string_to_bytes("hello", &mut buf);
    assert_eq!(r, Err(ErrorKind::TooLong));
    assert_eq!(buf, vec![9u8; 4]);
}

#[test]
fn encode_embedded_terminator_rejected() {
    let mut buf: Vec<u8> = vec![9; 8];
    let r = string_to_bytes("ab\0cd", &mut buf);
    assert_eq!(r, Err(ErrorKind::InvalidInput));
    assert_eq!(buf, vec![9u8; 8]);
}

#[test]
fn decode_stops_at_first_zero() {
    let buf = [b'a', b'b', 0, b'c', b'd'];
    assert_eq!(string_from_bytes(&buf, 5).unwrap(), "ab");
}

#[test]
fn decode_leading_zero_is_empty() {
    let buf = [0u8, b'x', b'y'];
    assert_eq!(string_from_bytes(&buf, 3).unwrap(), "");
}

#[test]
fn decode_invalid_utf8_is_encoding_error() {
    // 0xFF can never occur in UTF-8, so decoding must fail rather than
    // hand the raw bytes through.
    let buf = [0xFFu8, 0xFE, 0xFD, 0];
    assert_eq!(string_from_bytes(&buf, 4), Err(ErrorKind::EncodingError));
}

#[test]
fn decode_multibyte_utf8() {
    // "héllo" encoded: the decoder must really decode UTF-8, not copy
    // bytes to characters one for one.
    let buf = [0x68u8, 0xC3, 0xA9, 0x6C, 0x6C, 0x6F, 0, 0];
    let s = string_from_bytes(&buf, 8).unwrap();
    assert_eq!(s, "héllo");
    assert_eq!(s.chars().count(), 5);
}

#[test]
fn decode_respects_max_length() {
    let buf = [b'a', b'b', b'c', b'd'];
    assert_eq!(string_from_bytes(&buf, 2).unwrap(), "ab");
}

#[test]
fn safe_decode_clamps_and_never_fails() {
    let buf = [b'o', b'k', 0];
    // The requested length is larger than the buffer: clamped.
    assert_eq!(string_from_bytes_safe(&buf, 100), "ok");
    // Invalid text decodes to the empty string instead of an error.
    let bad = [0xFFu8, 0xFE];
    assert_eq!(string_from_bytes_safe(&bad, 2), "");
}

#[test]
fn text_field_check_matches_encoder() {
    assert_eq!(check_text_field("short", 16), None);
    assert_eq!(check_text_field("exactly16bytes!!", 16), None);
    assert_eq!(check_text_field("seventeen bytes!!", 16), Some(ErrorKind::TooLong));
    assert_eq!(check_text_field("nul\0here", 16), Some(ErrorKind::InvalidInput));
}
