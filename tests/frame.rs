use duplex_chat::frame::{decode_frame, encode_frame, MAX_MSG_LENGTH};

#[test]
fn hello_frame_is_padded_with_zeros() {
    let f = encode_frame("hello");
    let mut expected = b"hello".to_vec();
    expected.extend(std::iter::repeat(0u8).take(27));
    assert_eq!(f, expected);
    assert_eq!(f.len(), MAX_MSG_LENGTH);
}

#[test]
fn empty_message_is_all_zero_frame() {
    let f = encode_frame("");
    assert_eq!(f, vec![0u8; 32]);
    assert_eq!(decode_frame(&f), Some(String::new()));
}

#[test]
fn ping_frame_decodes_without_padding() {
    let mut f = b"ping".to_vec();
    f.resize(32, 0);
    assert_eq!(decode_frame(&f), Some("ping".to_string()));
}

#[test]
fn round_trip_of_multibyte_text() {
    let m = "héllo wörld ✓";
    assert_eq!(decode_frame(&encode_frame(m)), Some(m.to_string()));
}

#[test]
fn round_trip_of_exactly_full_frame() {
    let m = "abcdefghijklmnopqrstuvwxyz012345";
    assert_eq!(m.len(), 32);
    let f = encode_frame(m);
    assert_eq!(f, m.as_bytes().to_vec());
    assert_eq!(decode_frame(&f), Some(m.to_string()));
}

#[test]
fn long_message_is_truncated_to_frame() {
    let m = "abcdefghijklmnopqrstuvwxyz0123456789";
    let f = encode_frame(m);
    assert_eq!(f, m.as_bytes()[..32].to_vec());
    assert_eq!(decode_frame(&f), Some(m[..32].to_string()));
}

#[test]
fn truncation_never_cuts_a_character() {
    // 31 ASCII bytes, then a two-byte character that would cross byte 32
    let m = format!("{}é", "a".repeat(31));
    let f = encode_frame(&m);
    assert_eq!(f.len(), 32);
    assert_eq!(f[31], 0);
    assert_eq!(f[..31].to_vec(), "a".repeat(31).into_bytes());
    assert_eq!(decode_frame(&f), Some("a".repeat(31)));
    assert_eq!(encode_frame(&m), f);
}

#[test]
fn truncation_keeps_longest_fitting_prefix() {
    // 30 ASCII bytes, then a three-byte character: only 30 bytes fit
    let m = format!("{}€b", "x".repeat(30));
    let f = encode_frame(&m);
    let mut expected = "x".repeat(30).into_bytes();
    expected.extend([0u8, 0u8]);
    assert_eq!(f, expected);
    assert_eq!(decode_frame(&f), Some("x".repeat(30)));
    // 29 ASCII bytes, then a three-byte character: all 32 bytes fit
    let m = format!("{}€b", "y".repeat(29));
    let f = encode_frame(&m);
    assert_eq!(f, format!("{}€", "y".repeat(29)).into_bytes());
    assert_eq!(decode_frame(&f), Some(format!("{}€", "y".repeat(29))));
}

#[test]
fn embedded_zero_byte_cuts_the_message() {
    let f = encode_frame("ab\0cd");
    assert_eq!(decode_frame(&f), Some("ab".to_string()));
}

#[test]
fn invalid_utf8_frame_is_refused() {
    let mut f = vec![0xFFu8, 0x41];
    f.resize(32, 0);
    assert_eq!(decode_frame(&f), None);
}
