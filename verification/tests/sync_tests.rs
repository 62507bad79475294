use blogsync::codec::DecodeError;
use blogsync::crypto::{gen_private_key, generate_nonce, SyncKey};
use blogsync::replay::ReplayGuard;
use blogsync::sync::{
    bad_action_reply, build_sync_frame, internal_server_error, process_upload, SendError,
    SyncAction, UploadError, MAX_WIRE_BYTES, SERVER_PORT, UPLOAD_ACTION,
};

fn test_key() -> SyncKey {
    SyncKey::from_hex(&"5a".repeat(32)).unwrap()
}

/// The message body the receiver sees: the frame without its action byte.
fn body_of(frame: &[u8]) -> Vec<u8> {
    frame[1..].to_vec()
}

#[test]
fn upload_action_byte_is_zero() {
    assert_eq!(SyncAction::from_byte(0), Some(SyncAction::Upload));
    assert_eq!(UPLOAD_ACTION, 0);
    assert_eq!(SERVER_PORT, 2121);
}

#[test]
fn nonzero_action_bytes_are_refused() {
    assert_eq!(SyncAction::from_byte(1), None);
    assert_eq!(SyncAction::from_byte(7), None);
    assert_eq!(SyncAction::from_byte(255), None);
}

#[test]
fn bad_action_reply_names_the_byte() {
    assert_eq!(bad_action_reply(1), "Bad sync action 1");
    assert_eq!(bad_action_reply(0), "Bad sync action 0");
    assert_eq!(bad_action_reply(42), "Bad sync action 42");
    assert_eq!(bad_action_reply(255), "Bad sync action 255");
    assert_eq!(bad_action_reply(100), "Bad sync action 100");
}

#[test]
fn internal_server_error_marks_the_text() {
    assert_eq!(
        internal_server_error("disk full".to_string()),
        "Internal Server Error: disk full"
    );
}

#[test]
fn frame_layout_and_size() {
    let key = test_key();
    let nonce = vec![3u8; 12];
    let frame = build_sync_frame(&key, "note.md", b"hello", &nonce).unwrap();
    assert_eq!(frame[0], UPLOAD_ACTION);
    assert_eq!(&frame[1..13], nonce.as_slice());
    // action + nonce + (1 + 7 + 5 payload) + 16-byte tag
    assert_eq!(frame.len(), 1 + 12 + 1 + 7 + 5 + 16);
    assert!(frame.len() <= MAX_WIRE_BYTES);
}

#[test]
fn oversize_plaintext_is_rejected_before_sending() {
    let key = test_key();
    let nonce = generate_nonce();
    // Payload is 1 + 4 + content bytes; the whole wire message must
    // fit 8192, so content over 8158 bytes must be refused.
    let too_big = vec![b'x'; 8159];
    assert_eq!(
        build_sync_frame(&key, "a.md", &too_big, &nonce),
        Err(SendError::TooLarge)
    );
    let just_fits = vec![b'x'; 8158];
    let frame = build_sync_frame(&key, "a.md", &just_fits, &nonce).unwrap();
    assert_eq!(frame.len(), MAX_WIRE_BYTES);
}

#[test]
fn oversize_name_is_rejected_by_sender() {
    let key = test_key();
    let nonce = generate_nonce();
    let name = "n".repeat(256);
    assert_eq!(
        build_sync_frame(&key, &name, b"x", &nonce),
        Err(SendError::NameTooLong)
    );
}

#[test]
fn upload_round_trip_delivers_the_file() {
    let key = test_key();
    let mut guard = ReplayGuard::new();
    let nonce = generate_nonce();
    let frame = build_sync_frame(&key, "note.md", b"hello", &nonce).unwrap();
    let file = process_upload(&key, &mut guard, &body_of(&frame), 50).unwrap();
    assert_eq!(file.name, "note.md");
    assert_eq!(file.content, b"hello".to_vec());
}

#[test]
fn replayed_frame_is_rejected_and_nothing_is_written() {
    let key = test_key();
    let mut guard = ReplayGuard::new();
    let nonce = generate_nonce();
    let frame = build_sync_frame(&key, "note.md", b"hello", &nonce).unwrap();
    let body = body_of(&frame);
    assert!(process_upload(&key, &mut guard, &body, 50).is_ok());
    // The identical bytes again: rejected, with the first arrival time.
    assert_eq!(
        process_upload(&key, &mut guard, &body, 99),
        Err(UploadError::Replay(50))
    );
    // And again: the record still names the first acceptance.
    assert_eq!(
        process_upload(&key, &mut guard, &body, 123),
        Err(UploadError::Replay(50))
    );
}

#[test]
fn same_file_under_fresh_nonce_is_accepted() {
    let key = test_key();
    let mut guard = ReplayGuard::new();
    let first = build_sync_frame(&key, "note.md", b"hello", &generate_nonce()).unwrap();
    let second = build_sync_frame(&key, "note.md", b"hello", &generate_nonce()).unwrap();
    assert!(process_upload(&key, &mut guard, &body_of(&first), 1).is_ok());
    assert!(process_upload(&key, &mut guard, &body_of(&second), 2).is_ok());
}

#[test]
fn concurrent_distinct_uploads_both_land_in_either_order() {
    let key = test_key();
    let a = build_sync_frame(&key, "a.md", b"first", &generate_nonce()).unwrap();
    let b = build_sync_frame(&key, "b.md", b"second", &generate_nonce()).unwrap();

    let mut guard = ReplayGuard::new();
    let fa = process_upload(&key, &mut guard, &body_of(&a), 1).unwrap();
    let fb = process_upload(&key, &mut guard, &body_of(&b), 2).unwrap();
    assert_eq!((fa.name.as_str(), fa.content.as_slice()), ("a.md", b"first".as_slice()));
    assert_eq!((fb.name.as_str(), fb.content.as_slice()), ("b.md", b"second".as_slice()));

    let mut guard = ReplayGuard::new();
    let fb = process_upload(&key, &mut guard, &body_of(&b), 1).unwrap();
    let fa = process_upload(&key, &mut guard, &body_of(&a), 2).unwrap();
    assert_eq!((fa.name.as_str(), fa.content.as_slice()), ("a.md", b"first".as_slice()));
    assert_eq!((fb.name.as_str(), fb.content.as_slice()), ("b.md", b"second".as_slice()));
}

#[test]
fn tampered_frame_fails_authentication() {
    let key = test_key();
    let mut guard = ReplayGuard::new();
    let frame = build_sync_frame(&key, "note.md", b"hello", &generate_nonce()).unwrap();
    let mut body = body_of(&frame);
    let last = body.len() - 1;
    body[last] ^= 0x80;
    assert_eq!(
        process_upload(&key, &mut guard, &body, 5),
        Err(UploadError::Authentication)
    );
}

#[test]
fn wrong_key_fails_authentication() {
    let sender_key = test_key();
    let receiver_key = SyncKey::from_hex(&gen_private_key()).unwrap();
    let mut guard = ReplayGuard::new();
    let frame = build_sync_frame(&sender_key, "note.md", b"hello", &generate_nonce()).unwrap();
    assert_eq!(
        process_upload(&receiver_key, &mut guard, &body_of(&frame), 5),
        Err(UploadError::Authentication)
    );
}

#[test]
fn short_body_is_a_transport_error() {
    let key = test_key();
    let mut guard = ReplayGuard::new();
    assert_eq!(
        process_upload(&key, &mut guard, &[1, 2, 3], 5),
        Err(UploadError::FrameTooShort)
    );
    assert_eq!(
        process_upload(&key, &mut guard, &[], 5),
        Err(UploadError::FrameTooShort)
    );
}

#[test]
fn traversal_names_are_refused() {
    let key = test_key();
    let mut guard = ReplayGuard::new();
    for name in ["../evil.md", "a/b.md", "..", ".", "back\\slash"] {
        let frame = build_sync_frame(&key, name, b"x", &generate_nonce()).unwrap();
        assert_eq!(
            process_upload(&key, &mut guard, &body_of(&frame), 5),
            Err(UploadError::UnsafeName),
            "name {name:?} should be refused"
        );
    }
}

#[test]
fn empty_name_is_refused() {
    let key = test_key();
    let mut guard = ReplayGuard::new();
    let frame = build_sync_frame(&key, "", b"x", &generate_nonce()).unwrap();
    assert_eq!(
        process_upload(&key, &mut guard, &body_of(&frame), 5),
        Err(UploadError::UnsafeName)
    );
}

#[test]
fn truncated_plaintext_is_a_decode_error() {
    // Encrypt a raw payload that promises a longer name than it holds.
    let key = test_key();
    let mut guard = ReplayGuard::new();
    let nonce = generate_nonce();
    let bogus = vec![200u8, b'a', b'b'];
    let ciphertext = key.encrypt(&nonce, &bogus).unwrap();
    let mut body = nonce.clone();
    body.extend_from_slice(&ciphertext);
    assert_eq!(
        process_upload(&key, &mut guard, &body, 5),
        Err(UploadError::BadPayload(DecodeError::Truncated))
    );
}

#[test]
fn end_to_end_generated_key_send_once_then_replay() {
    // Key generated as the key-generation mode does, shared by both
    // ends out of band.
    let hex = gen_private_key();
    let sender_key = SyncKey::from_hex(&hex).unwrap();
    let receiver_key = SyncKey::from_hex(&hex).unwrap();

    let n1 = generate_nonce();
    let frame = build_sync_frame(&sender_key, "note.md", b"hello", &n1).unwrap();

    let mut guard = ReplayGuard::new();
    let file = process_upload(&receiver_key, &mut guard, &body_of(&frame), 10).unwrap();
    assert_eq!(file.name, "note.md");
    assert_eq!(file.content, b"hello".to_vec());

    // The identical ciphertext and nonce resent: rejected as a replay,
    // so the receiver writes nothing the second time.
    assert_eq!(
        process_upload(&receiver_key, &mut guard, &body_of(&frame), 20),
        Err(UploadError::Replay(10))
    );
}
