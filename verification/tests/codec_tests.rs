use blogsync::codec::{decode_message, encode_message, DecodeError, EncodeError};

#[test]
fn encode_then_decode_returns_input() {
    let content = b"hello world".to_vec();
    let payload = encode_message("note.md", &content).unwrap();
    let (name, decoded) = decode_message(&payload).unwrap();
    assert_eq!(name, "note.md");
    assert_eq!(decoded, content);
}

#[test]
fn round_trip_preserves_zero_bytes() {
    let content = vec![0u8, 1, 0, 2, 0, 0, 3];
    let payload = encode_message("bin.dat", &content).unwrap();
    let (name, decoded) = decode_message(&payload).unwrap();
    assert_eq!(name, "bin.dat");
    assert_eq!(decoded, content);
}

#[test]
fn round_trip_empty_content_and_unicode_name() {
    let payload = encode_message("na\u{00ef}ve.md", &[]).unwrap();
    let (name, decoded) = decode_message(&payload).unwrap();
    assert_eq!(name, "na\u{00ef}ve.md");
    assert!(decoded.is_empty());
}

#[test]
fn encode_layout_is_length_prefixed() {
    let payload = encode_message("ab", b"xy").unwrap();
    assert_eq!(payload, vec![2u8, b'a', b'b', b'x', b'y']);
}

#[test]
fn oversize_name_is_rejected() {
    let name = "n".repeat(256);
    assert_eq!(
        encode_message(&name, b"data"),
        Err(EncodeError::NameTooLong)
    );
    let just_fits = "n".repeat(255);
    assert!(encode_message(&just_fits, b"data").is_ok());
}

#[test]
fn truncated_payload_is_rejected() {
    assert_eq!(decode_message(&[]), Err(DecodeError::Truncated));
    // Promises a 5-byte name but holds only 2 bytes after the prefix.
    assert_eq!(decode_message(&[5u8, b'a', b'b']), Err(DecodeError::Truncated));
}

#[test]
fn invalid_utf8_name_is_rejected() {
    // 0xFF is never valid UTF-8.
    assert_eq!(decode_message(&[1u8, 0xFF, b'x']), Err(DecodeError::InvalidName));
}
