//! The sync protocol's two endpoints, as pure per-message steps.
//!
//! A message on the wire is one action byte, a 12-byte nonce, and an
//! AEAD ciphertext with its tag, at most 8192 bytes in all. The
//! receiver's step takes the bytes read after the action byte,
//! decrypts them, consults the replay guard, parses the payload and
//! hands back the file to persist — or says exactly why not. The
//! sender's step frames, encrypts and size-checks one file. The
//! surrounding process owns the sockets, the clock and the files.
use vstd::prelude::*;

verus! {

use vstd::slice::slice_subrange;
use vstd::utf8::encode_utf8;
use crate::codec::{
    DecodeError,
    EncodeError,
    MAX_NAME_BYTES,
    decode_err,
    decode_message,
    decode_ok,
    decoded_content,
    decoded_name,
    encode_message,
    encoded,
};
use crate::crypto::{
    MAX_SEAL_BYTES,
    NONCE_BYTES,
    SyncKey,
    TAG_BYTES,
    blake3_fingerprint,
    fingerprint_of,
    seal_of,
};
use crate::replay::{ReplayGuard, ReplayRecord, Verdict, spec_record, spec_verdict};

/// TCP port the receiver listens on.
pub const SERVER_PORT: u16 = 2121;

/// Upper bound on one whole on-wire message: action byte, nonce,
/// ciphertext and tag together.
pub const MAX_WIRE_BYTES: usize = 8192;

/// The action byte naming an upload, the only defined action.
pub const UPLOAD_ACTION: u8 = 0;

/// What a request's first byte asks for.
#[derive(Clone, Copy, Debug, PartialEq, Eq, Structural)]
pub enum SyncAction {
    /// Push one file into the shared content directory.
    Upload,
}

impl SyncAction {
    /// The action a request byte names: zero is upload; every other
    /// value is refused.
    pub fn from_byte(value: u8) -> (r: Option<SyncAction>)
        ensures
            r == if value == 0 {
                Some(SyncAction::Upload)
            } else {
                None::<SyncAction>
            },
    {
        if value == 0 {
            Some(SyncAction::Upload)
        } else {
            None
        }
    }
}

/// The decimal digits of a byte value, as characters.
pub open spec fn decimal_chars(n: u8) -> Seq<char> {
    let ones = (('0' as u8 + n % 10) as u8) as char;
    let tens = (('0' as u8 + (n / 10) % 10) as u8) as char;
    let hundreds = (('0' as u8 + n / 100) as u8) as char;
    if n >= 100 {
        seq![hundreds, tens, ones]
    } else if n >= 10 {
        seq![tens, ones]
    } else {
        seq![ones]
    }
}

/// The diagnostic the receiver writes back for an unknown action byte.
pub open spec fn bad_action_reply_spec(action: u8) -> Seq<char> {
    "Bad sync action "@ + decimal_chars(action)
}

/// Append one decimal digit to a string.
fn append_digit(s: &mut String, d: u8)
    requires
        d < 10,
    ensures
        final(s)@ == old(s)@ + seq![(('0' as u8 + d) as u8) as char],
{
    let digit: &str = match d {
        0 => "0",
        1 => "1",
        2 => "2",
        3 => "3",
        4 => "4",
        5 => "5",
        6 => "6",
        7 => "7",
        8 => "8",
        _ => "9",
    };
    proof {
        reveal_strlit("0");
        reveal_strlit("1");
        reveal_strlit("2");
        reveal_strlit("3");
        reveal_strlit("4");
        reveal_strlit("5");
        reveal_strlit("6");
        reveal_strlit("7");
        reveal_strlit("8");
        reveal_strlit("9");
    }
    s.append(digit);
}

/// The diagnostic written back to a peer whose request named an
/// unknown action: the offending byte in decimal, after a fixed text.
pub fn bad_action_reply(action: u8) -> (r: String)
    ensures
        r@ == bad_action_reply_spec(action),
{
    let mut s = String::new();
    s.append("Bad sync action ");
    if action >= 100 {
        append_digit(&mut s, action / 100);
    }
    if action >= 10 {
        append_digit(&mut s, (action / 10) % 10);
    }
    append_digit(&mut s, action % 10);
    proof {
        assert(s@ =~= bad_action_reply_spec(action));
    }
    s
}

/// Mark a failure as a receiver-host problem rather than peer
/// misbehavior, so the caller logs it at higher severity.
pub fn internal_server_error(err: String) -> (r: String)
    ensures
        r@ == "Internal Server Error: "@ + err@,
{
    let mut s = String::new();
    s.append("Internal Server Error: ");
    s.append(err.as_str());
    proof {
        assert(s@ =~= "Internal Server Error: "@ + err@);
    }
    s
}

/// Whether a decoded filename, seen as its UTF-8 bytes, is safe to
/// join onto the content directory: non-empty, free of path
/// separators and zero bytes, and not a dot or dot-dot segment.
pub open spec fn safe_name_bytes(nb: Seq<u8>) -> bool {
    &&& nb.len() > 0
    &&& !nb.contains(47u8)
    &&& !nb.contains(92u8)
    &&& !nb.contains(0u8)
    &&& nb != seq![46u8]
    &&& nb != seq![46u8, 46u8]
}

/// Whether a filename is safe to join onto the content directory.
///
/// A peer names the destination file; without this check a name
/// holding a path separator or a parent-directory segment could
/// escape the directory.
pub open spec fn safe_name(name: Seq<char>) -> bool {
    safe_name_bytes(encode_utf8(name))
}

/// Decide `safe_name` for a filename.
pub fn name_is_safe(name: &str) -> (r: bool)
    ensures
        r == safe_name(name@),
{
    let bytes = name.as_bytes();
    if bytes.len() == 0 {
        return false;
    }
    if bytes.len() == 1 && bytes[0] == 46 {
        proof {
            assert(bytes@ =~= seq![46u8]);
        }
        return false;
    }
    if bytes.len() == 2 && bytes[0] == 46 && bytes[1] == 46 {
        proof {
            assert(bytes@ =~= seq![46u8, 46u8]);
        }
        return false;
    }
    let mut i: usize = 0;
    while i < bytes.len()
        invariant
            bytes@ == encode_utf8(name@),
            bytes@.len() > 0,
            bytes@ != seq![46u8],
            bytes@ != seq![46u8, 46u8],
            i <= bytes@.len(),
            forall|j: int|
                0 <= j < i ==> bytes@[j] != 47u8 && bytes@[j] != 92u8 && bytes@[j] != 0u8,
        decreases bytes@.len() - i,
    {
        let b = bytes[i];
        if b == 47 || b == 92 || b == 0 {
            proof {
                assert(bytes@.contains(b)) by {
                    assert(bytes@[i as int] == b);
                }
            }
            return false;
        }
        i += 1;
    }
    proof {
        if bytes@ == seq![46u8] {
            assert(bytes@.len() == 1);
        }
        if bytes@ == seq![46u8, 46u8] {
            assert(bytes@.len() == 2);
        }
    }
    true
}

/// A decrypted, accepted upload: the file to persist.
#[derive(Debug, PartialEq, Eq)]
pub struct UploadFile {
    /// Destination filename, joined verbatim onto the content
    /// directory by the caller.
    pub name: String,
    /// The file's bytes, written as they arrived.
    pub content: Vec<u8>,
}

/// Why one received message was not turned into a file.
#[derive(Clone, Copy, Debug, PartialEq, Eq, Structural)]
pub enum UploadError {
    /// Transport: the peer closed before a whole nonce arrived.
    FrameTooShort,
    /// Cryptographic: the authentication tag did not verify — wrong
    /// key, corrupted bytes, or tampering.
    Authentication,
    /// The identical message was accepted before, at this time.
    Replay(u64),
    /// The decrypted payload did not parse.
    BadPayload(DecodeError),
    /// The decoded filename could escape the content directory.
    UnsafeName,
}

/// The nonce region of a received message body.
pub open spec fn wire_nonce(payload: Seq<u8>) -> Seq<u8> {
    payload.subrange(0, NONCE_BYTES as int)
}

/// The ciphertext region of a received message body.
pub open spec fn wire_ciphertext(payload: Seq<u8>) -> Seq<u8> {
    payload.subrange(NONCE_BYTES as int, payload.len() as int)
}

/// Whether a received message body opens, under this key, to the
/// plaintext `p`.
pub open spec fn opens_to(key: Seq<u8>, payload: Seq<u8>, p: Seq<u8>) -> bool {
    &&& p.len() as int <= MAX_SEAL_BYTES as int
    &&& wire_ciphertext(payload) == seal_of(key, wire_nonce(payload), p)
}

/// What the receiver's step returns for a message body, given the
/// guard state it meets: the decoded file, or the one error that
/// body earns.
pub open spec fn upload_result(
    key: Seq<u8>,
    m: Map<Seq<u8>, ReplayRecord>,
    payload: Seq<u8>,
) -> Result<(Seq<char>, Seq<u8>), UploadError> {
    if payload.len() < NONCE_BYTES {
        Err(UploadError::FrameTooShort)
    } else if !(exists|p: Seq<u8>| opens_to(key, payload, p)) {
        Err(UploadError::Authentication)
    } else {
        let p = choose|p: Seq<u8>| opens_to(key, payload, p);
        match spec_verdict(m, fingerprint_of(p), wire_nonce(payload)) {
            Verdict::Replayed(t) => Err(UploadError::Replay(t)),
            Verdict::Fresh => if !decode_ok(p) {
                Err(UploadError::BadPayload(decode_err(p)))
            } else if !safe_name(decoded_name(p)) {
                Err(UploadError::UnsafeName)
            } else {
                Ok((decoded_name(p), decoded_content(p)))
            },
        }
    }
}

/// The guard state after the receiver's step: a message that opened
/// is recorded by its plaintext fingerprint and nonce; anything else
/// leaves the guard unchanged.
pub open spec fn upload_guard_after(
    key: Seq<u8>,
    m: Map<Seq<u8>, ReplayRecord>,
    payload: Seq<u8>,
    now: u64,
) -> Map<Seq<u8>, ReplayRecord> {
    if payload.len() < NONCE_BYTES || !(exists|p: Seq<u8>| opens_to(key, payload, p)) {
        m
    } else {
        let p = choose|p: Seq<u8>| opens_to(key, payload, p);
        spec_record(m, fingerprint_of(p), wire_nonce(payload), now)
    }
}

/// Whether a message body is what the sender emits for this file
/// against this key, and the guard has not seen it.
pub open spec fn sender_frame_fresh(
    key: Seq<u8>,
    m: Map<Seq<u8>, ReplayRecord>,
    payload: Seq<u8>,
    name: Seq<char>,
    content: Seq<u8>,
) -> bool {
    &&& payload.len() >= NONCE_BYTES
    &&& encode_utf8(name).len() <= MAX_NAME_BYTES
    &&& safe_name(name)
    &&& opens_to(key, payload, encoded(name, content))
    &&& spec_verdict(m, fingerprint_of(encoded(name, content)), wire_nonce(payload))
        == Verdict::Fresh
}

/// The receiver's step for one connection's message body (everything
/// read after the action byte): decrypt, check freshness, record,
/// parse, and hand back the file to persist.
///
/// The result and the guard's new state are exactly the ones
/// `upload_result` and `upload_guard_after` assign to the input. In
/// particular a message the sender built from a fresh (name, content)
/// pair is accepted and decodes back to that very pair, while a
/// replayed message is rejected without touching the guard.
pub fn process_upload(
    key: &SyncKey,
    guard: &mut ReplayGuard,
    payload: &[u8],
    now: u64,
) -> (r: Result<UploadFile, UploadError>)
    requires
        old(guard).wf(),
        payload@.len() + 1 <= MAX_WIRE_BYTES,
    ensures
        final(guard).wf(),
        final(guard)@ == upload_guard_after(key@, old(guard)@, payload@, now),
        match r {
            Ok(f) => upload_result(key@, old(guard)@, payload@) == Ok::<_, UploadError>(
                (f.name@, f.content@),
            ),
            Err(e) => upload_result(key@, old(guard)@, payload@) == Err::<
                (Seq<char>, Seq<u8>),
                _,
            >(e),
        },
        forall|name: Seq<char>, content: Seq<u8>|
            #[trigger] sender_frame_fresh(key@, old(guard)@, payload@, name, content) ==> (r
                matches Ok(f) && f.name@ == name && f.content@ == content),
{
    if payload.len() < NONCE_BYTES {
        proof {
            lemma_no_sender_frame(key@, old(guard)@, payload@);
        }
        return Err(UploadError::FrameTooShort);
    }
    let nonce = slice_subrange(payload, 0, NONCE_BYTES);
    let ciphertext = slice_subrange(payload, NONCE_BYTES, payload.len());
    let plaintext = match key.decrypt(nonce, ciphertext) {
        Ok(p) => p,
        Err(_) => {
            proof {
                assert(forall|p: Seq<u8>| !opens_to(key@, payload@, p));
                lemma_no_sender_frame(key@, old(guard)@, payload@);
            }
            return Err(UploadError::Authentication);
        },
    };
    proof {
        assert(opens_to(key@, payload@, plaintext@));
        assert((choose|p: Seq<u8>| opens_to(key@, payload@, p)) == plaintext@) by {
            let p = choose|p: Seq<u8>| opens_to(key@, payload@, p);
            assert(opens_to(key@, payload@, p));
        }
    }
    let fingerprint = blake3_fingerprint(plaintext.as_slice());
    let verdict = guard.check_and_record(fingerprint.as_slice(), nonce, now);
    match verdict {
        Verdict::Replayed(t) => {
            proof {
                lemma_sender_frame_unique(key@, old(guard)@, payload@, plaintext@);
            }
            return Err(UploadError::Replay(t));
        },
        Verdict::Fresh => {},
    }
    proof {
        lemma_sender_frame_unique(key@, old(guard)@, payload@, plaintext@);
    }
    let (name, content) = match decode_message(plaintext.as_slice()) {
        Ok(pair) => pair,
        Err(e) => {
            return Err(UploadError::BadPayload(e));
        },
    };
    if !name_is_safe(name.as_str()) {
        return Err(UploadError::UnsafeName);
    }
    Ok(UploadFile { name, content })
}

/// A body too short, or one that opens to no plaintext, is nobody's
/// sender frame.
proof fn lemma_no_sender_frame(key: Seq<u8>, m: Map<Seq<u8>, ReplayRecord>, payload: Seq<u8>)
    requires
        payload.len() < NONCE_BYTES || forall|p: Seq<u8>| !opens_to(key, payload, p),
    ensures
        forall|name: Seq<char>, content: Seq<u8>|
            !sender_frame_fresh(key, m, payload, name, content),
{
}

/// When a body opens to `p`, any (name, content) pair whose sender
/// frame this body is encodes to `p` itself, and its fields are the
/// ones `p` decodes to.
proof fn lemma_sender_frame_unique(
    key: Seq<u8>,
    m: Map<Seq<u8>, ReplayRecord>,
    payload: Seq<u8>,
    p: Seq<u8>,
)
    requires
        payload.len() >= NONCE_BYTES,
        opens_to(key, payload, p),
        forall|q: Seq<u8>|
            q.len() as int <= MAX_SEAL_BYTES as int && wire_ciphertext(payload) == seal_of(
                key,
                wire_nonce(payload),
                q,
            ) ==> q == p,
    ensures
        forall|name: Seq<char>, content: Seq<u8>|
            #[trigger] sender_frame_fresh(key, m, payload, name, content) ==> {
                &&& encoded(name, content) == p
                &&& decode_ok(p)
                &&& decoded_name(p) == name
                &&& decoded_content(p) == content
                &&& spec_verdict(m, fingerprint_of(p), wire_nonce(payload)) == Verdict::Fresh
                &&& safe_name(decoded_name(p))
            },
{
    assert forall|name: Seq<char>, content: Seq<u8>|
        #[trigger] sender_frame_fresh(key, m, payload, name, content) implies {
        &&& encoded(name, content) == p
        &&& decode_ok(p)
        &&& decoded_name(p) == name
        &&& decoded_content(p) == content
        &&& spec_verdict(m, fingerprint_of(p), wire_nonce(payload)) == Verdict::Fresh
        &&& safe_name(decoded_name(p))
    } by {
        assert(encoded(name, content) == p);
        crate::codec::lemma_codec_round_trip(name, content);
    }
}

/// Why one file could not be framed for sending.
#[derive(Clone, Copy, Debug, PartialEq, Eq, Structural)]
pub enum SendError {
    /// The filename's UTF-8 form is longer than 255 bytes.
    NameTooLong,
    /// The framed, encrypted form would exceed the 8192-byte wire
    /// bound; nothing is sent for this file.
    TooLarge,
}

/// The sender's step for one file: frame the name and content, seal
/// the payload under a fresh nonce, and bound-check the whole wire
/// message before any connection is attempted.
///
/// Succeeds exactly when the name fits the codec and the sealed frame
/// fits the wire bound; the frame is then the action byte, the nonce,
/// and the sealed payload, and every accepted frame fits 8192 bytes.
pub fn build_sync_frame(key: &SyncKey, name: &str, content: &[u8], nonce: &[u8]) -> (r: Result<
    Vec<u8>,
    SendError,
>)
    requires
        nonce@.len() == NONCE_BYTES,
    ensures
        match r {
            Ok(frame) => {
                &&& encode_utf8(name@).len() <= MAX_NAME_BYTES
                &&& encoded(name@, content@).len() + 1 + NONCE_BYTES + TAG_BYTES
                    <= MAX_WIRE_BYTES
                &&& frame@ == seq![UPLOAD_ACTION] + nonce@ + seal_of(
                    key@,
                    nonce@,
                    encoded(name@, content@),
                )
                &&& frame@.len() == 1 + NONCE_BYTES + encoded(name@, content@).len() + TAG_BYTES
                &&& frame@.len() <= MAX_WIRE_BYTES
            },
            Err(SendError::NameTooLong) => encode_utf8(name@).len() > MAX_NAME_BYTES,
            Err(SendError::TooLarge) => {
                &&& encode_utf8(name@).len() <= MAX_NAME_BYTES
                &&& encoded(name@, content@).len() + 1 + NONCE_BYTES + TAG_BYTES
                    > MAX_WIRE_BYTES
            },
        },
{
    let payload = match encode_message(name, content) {
        Ok(p) => p,
        Err(EncodeError::NameTooLong) => {
            return Err(SendError::NameTooLong);
        },
    };
    if payload.len() > MAX_WIRE_BYTES - 1 - NONCE_BYTES - TAG_BYTES {
        return Err(SendError::TooLarge);
    }
    let ciphertext = match key.encrypt(nonce, payload.as_slice()) {
        Ok(c) => c,
        Err(_) => {
            return vstd::pervasive::unreached();
        },
    };
    let mut frame: Vec<u8> = Vec::new();
    frame.push(UPLOAD_ACTION);
    frame.extend_from_slice(nonce);
    frame.extend_from_slice(ciphertext.as_slice());
    proof {
        assert(frame@ =~= seq![UPLOAD_ACTION] + nonce@ + seal_of(
            key@,
            nonce@,
            encoded(name@, content@),
        ));
    }
    Ok(frame)
}

} // verus!

