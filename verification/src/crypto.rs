//! Cryptographic layer: authenticated encryption under a process-wide
//! shared key, content fingerprints, and hex-coded key material.
//!
//! The cipher is AES-256-GCM. Sealing and opening are reached through
//! trusted wrappers whose contracts speak of `seal_of`, a name for the
//! cipher's output as a function of key, nonce and plaintext; every
//! verified claim about encrypted traffic rests on those contracts.
use aes_gcm::KeyInit;
use aes_gcm::aead::Aead;
use aes_gcm::aead::Generate;
use rand::Rng;
use vstd::prelude::*;

verus! {

/// Byte length of the shared symmetric key.
pub const KEY_BYTES: usize = 32;

/// Byte length of an AEAD nonce.
pub const NONCE_BYTES: usize = 12;

/// Byte length of the AEAD authentication tag appended to a ciphertext.
pub const TAG_BYTES: usize = 16;

/// Longest plaintext the cipher accepts, per NIST SP 800-38D.
pub const MAX_SEAL_BYTES: u64 = 0xF_FFFF_FFE0;

/// What AES-256-GCM sealing returns: a function of key, nonce and
/// plaintext alone, for plaintexts the cipher accepts.
pub uninterp spec fn seal_of(key: Seq<u8>, nonce: Seq<u8>, plaintext: Seq<u8>) -> Seq<u8>;

/// What the BLAKE3 digest of a byte sequence is: a 32-byte value that
/// is a function of the input bytes alone.
pub uninterp spec fn fingerprint_of(data: Seq<u8>) -> Seq<u8>;

/// Failure of a cryptographic operation.
#[derive(Clone, Copy, Debug, PartialEq, Eq, Structural)]
pub enum CryptoError {
    /// The cipher refused to seal; only a plaintext over the cipher's
    /// size bound causes this.
    SealFailure,
    /// The authentication tag did not verify: wrong key, corrupted
    /// data, or tampering.
    AuthenticationFailure,
}

/// Relies on aes_gcm::Aes256Gcm (constructed by KeyInit::new) and
/// aead::Aead::encrypt: the ciphertext is a function of key, nonce
/// and plaintext alone, 16 bytes longer than the plaintext, and the
/// call fails exactly when the plaintext is over the cipher's bound.
#[verifier::external_body]
fn aead_seal(key: &[u8], nonce: &[u8], plaintext: &[u8]) -> (r: Option<Vec<u8>>)
    requires
        key@.len() == KEY_BYTES,
        nonce@.len() == NONCE_BYTES,
    ensures
        match r {
            Some(c) => {
                &&& c@ == seal_of(key@, nonce@, plaintext@)
                &&& c@.len() == plaintext@.len() + TAG_BYTES
                &&& plaintext@.len() as int <= MAX_SEAL_BYTES as int
            },
            None => plaintext@.len() as int > MAX_SEAL_BYTES as int,
        },
{
    let cipher = aes_gcm::Aes256Gcm::new_from_slice(key).unwrap();
    let nonce_arr: [u8; 12] = nonce.try_into().unwrap();
    cipher.encrypt(&nonce_arr.into(), plaintext).ok()
}

/// Relies on aes_gcm::Aes256Gcm (constructed by KeyInit::new) and
/// aead::Aead::decrypt: opening succeeds exactly on bytes sealed
/// under the same key and nonce, returns the one plaintext they were
/// sealed from, and fails on any other bytes.
#[verifier::external_body]
fn aead_open(key: &[u8], nonce: &[u8], ciphertext: &[u8]) -> (r: Option<Vec<u8>>)
    requires
        key@.len() == KEY_BYTES,
        nonce@.len() == NONCE_BYTES,
    ensures
        match r {
            Some(p) => {
                &&& ciphertext@ == seal_of(key@, nonce@, p@)
                &&& ciphertext@.len() == p@.len() + TAG_BYTES
                &&& forall|q: Seq<u8>|
                    q.len() as int <= MAX_SEAL_BYTES as int && ciphertext@ == seal_of(
                        key@,
                        nonce@,
                        q,
                    ) ==> q == p@
            },
            None => forall|q: Seq<u8>|
                q.len() as int <= MAX_SEAL_BYTES as int ==> ciphertext@ != seal_of(
                    key@,
                    nonce@,
                    q,
                ),
        },
{
    let cipher = aes_gcm::Aes256Gcm::new_from_slice(key).unwrap();
    let nonce_arr: [u8; 12] = nonce.try_into().unwrap();
    cipher.decrypt(&nonce_arr.into(), ciphertext).ok()
}

/// Relies on blake3::hash: a 32-byte digest that is a function of the
/// input bytes alone.
#[verifier::external_body]
pub(crate) fn blake3_fingerprint(data: &[u8]) -> (r: Vec<u8>)
    ensures
        r@ == fingerprint_of(data@),
        r@.len() == 32,
{
    blake3::hash(data).as_bytes().to_vec()
}

/// Relies on rand::rng, a cryptographically secure generator, to draw
/// the bytes; nothing is promised of the value drawn.
#[verifier::external_body]
fn random_bytes_12() -> (r: Vec<u8>)
    ensures
        r@.len() == NONCE_BYTES,
{
    let mut bytes = vec![0u8; 12];
    rand::rng().fill_bytes(&mut bytes);
    bytes
}

/// Relies on aead::Generate for Key::<Aes256Gcm>::generate: 32 bytes
/// from the operating system's secure random source; nothing is
/// promised of the value drawn.
#[verifier::external_body]
fn random_key_bytes() -> (r: Vec<u8>)
    ensures
        r@.len() == KEY_BYTES,
{
    let key = aes_gcm::Key::<aes_gcm::Aes256Gcm>::generate();
    key.0.to_vec()
}

/// Whether a character is a hex digit, either case.
pub open spec fn is_hex_digit(c: char) -> bool {
    ('0' <= c && c <= '9') || ('a' <= c && c <= 'f') || ('A' <= c && c <= 'F')
}

/// The value of a hex digit.
pub open spec fn hex_digit_val(c: char) -> u8 {
    if '0' <= c && c <= '9' {
        (c as u8 - '0' as u8) as u8
    } else if 'a' <= c && c <= 'f' {
        (c as u8 - 'a' as u8 + 10) as u8
    } else {
        (c as u8 - 'A' as u8 + 10) as u8
    }
}

/// The lowercase hex digit for a value under 16.
pub open spec fn hex_digit_char(v: u8) -> char {
    if v < 10 {
        (('0' as u8 + v) as u8) as char
    } else {
        (('a' as u8 + (v - 10) as u8) as u8) as char
    }
}

/// Lowercase hex encoding: two digits per byte, high nibble first.
pub open spec fn hex_of(bytes: Seq<u8>) -> Seq<char> {
    Seq::new(
        2 * bytes.len(),
        |i: int|
            if i % 2 == 0 {
                hex_digit_char(bytes[i / 2] / 16)
            } else {
                hex_digit_char(bytes[i / 2] % 16)
            },
    )
}

/// Whether a string is a well-formed hex coding: even length, all
/// digits, either case.
pub open spec fn hex_valid(s: Seq<char>) -> bool {
    s.len() % 2 == 0 && forall|i: int| 0 <= i < s.len() ==> is_hex_digit(#[trigger] s[i])
}

/// The bytes a well-formed hex string codes, high nibble first.
pub open spec fn hex_bytes_of(s: Seq<char>) -> Seq<u8> {
    Seq::new(
        s.len() / 2,
        |i: int| (hex_digit_val(s[2 * i]) * 16 + hex_digit_val(s[2 * i + 1])) as u8,
    )
}

/// Relies on hex::encode: lowercase output, two digits per byte, high
/// nibble first.
#[verifier::external_body]
fn hex_encode_bytes(bytes: &[u8]) -> (r: String)
    ensures
        r@ == hex_of(bytes@),
{
    hex::encode(bytes)
}

/// Relies on hex::decode: accepts exactly the even-length strings of
/// hex digits, either case, and returns their bytes, high nibble
/// first.
#[verifier::external_body]
fn hex_decode_str(s: &str) -> (r: Option<Vec<u8>>)
    ensures
        match r {
            Some(v) => hex_valid(s@) && v@ == hex_bytes_of(s@),
            None => !hex_valid(s@),
        },
{
    hex::decode(s).ok()
}

/// The process-wide shared symmetric key, loaded once at startup and
/// passed by reference into the sender and receiver entry points.
pub struct SyncKey {
    bytes: Vec<u8>,
}

impl View for SyncKey {
    type V = Seq<u8>;

    closed spec fn view(&self) -> Seq<u8> {
        self.bytes@
    }
}

impl SyncKey {
    /// Every key holds exactly 32 bytes.
    #[verifier::type_invariant]
    pub closed spec fn wf(self) -> bool {
        self.bytes@.len() == KEY_BYTES
    }

    /// Load the key from its hex-coded out-of-band form: exactly 64
    /// hex digits, either case.
    pub fn from_hex(s: &str) -> (r: Option<SyncKey>)
        ensures
            match r {
                Some(k) => {
                    &&& hex_valid(s@)
                    &&& s@.len() == 64
                    &&& k@ == hex_bytes_of(s@)
                },
                None => !(hex_valid(s@) && s@.len() == 64),
            },
    {
        match hex_decode_str(s) {
            Some(bytes) => {
                if bytes.len() == KEY_BYTES {
                    Some(SyncKey { bytes })
                } else {
                    None
                }
            },
            None => None,
        }
    }

    /// Build a key directly from 32 raw bytes.
    pub fn from_bytes(bytes: Vec<u8>) -> (r: SyncKey)
        requires
            bytes@.len() == KEY_BYTES,
        ensures
            r@ == bytes@,
    {
        SyncKey { bytes }
    }

    /// The key's bytes.
    pub fn as_bytes(&self) -> (r: &[u8])
        ensures
            r@ == self@,
            r@.len() == KEY_BYTES,
    {
        proof {
            use_type_invariant(self);
        }
        self.bytes.as_slice()
    }

    /// Seal a plaintext under this key with the given nonce.
    ///
    /// Succeeds on every plaintext up to the cipher's size bound; the
    /// ciphertext, tag included, is `seal_of` this key, nonce and
    /// plaintext, and is 16 bytes longer than the plaintext.
    pub fn encrypt(&self, nonce: &[u8], plaintext: &[u8]) -> (r: Result<Vec<u8>, CryptoError>)
        requires
            nonce@.len() == NONCE_BYTES,
        ensures
            match r {
                Ok(c) => {
                    &&& c@ == seal_of(self@, nonce@, plaintext@)
                    &&& c@.len() == plaintext@.len() + TAG_BYTES
                    &&& plaintext@.len() as int <= MAX_SEAL_BYTES as int
                },
                Err(e) => e == CryptoError::SealFailure && plaintext@.len() as int
                    > MAX_SEAL_BYTES as int,
            },
    {
        proof {
            use_type_invariant(self);
        }
        match aead_seal(self.bytes.as_slice(), nonce, plaintext) {
            Some(c) => Ok(c),
            None => Err(CryptoError::SealFailure),
        }
    }

    /// Open a ciphertext under this key with the given nonce.
    ///
    /// Returns the one plaintext the bytes were sealed from, and
    /// fails with an authentication error on any bytes not sealed
    /// under this key and nonce: an opened ciphertext is never an
    /// altered plaintext.
    pub fn decrypt(&self, nonce: &[u8], ciphertext: &[u8]) -> (r: Result<Vec<u8>, CryptoError>)
        requires
            nonce@.len() == NONCE_BYTES,
        ensures
            match r {
                Ok(p) => {
                    &&& ciphertext@ == seal_of(self@, nonce@, p@)
                    &&& ciphertext@.len() == p@.len() + TAG_BYTES
                    &&& forall|q: Seq<u8>|
                        q.len() as int <= MAX_SEAL_BYTES as int && ciphertext@ == seal_of(
                            self@,
                            nonce@,
                            q,
                        ) ==> q == p@
                },
                Err(e) => e == CryptoError::AuthenticationFailure && forall|q: Seq<u8>|
                    q.len() as int <= MAX_SEAL_BYTES as int ==> ciphertext@ != seal_of(
                        self@,
                        nonce@,
                        q,
                    ),
            },
    {
        proof {
            use_type_invariant(self);
        }
        match aead_open(self.bytes.as_slice(), nonce, ciphertext) {
            Some(p) => Ok(p),
            None => Err(CryptoError::AuthenticationFailure),
        }
    }
}

/// Draw a fresh random nonce for one sealing operation.
pub fn generate_nonce() -> (r: Vec<u8>)
    ensures
        r@.len() == NONCE_BYTES,
{
    random_bytes_12()
}

/// Produce a fresh random 256-bit key, hex-coded for out-of-band
/// distribution: 64 lowercase hex digits.
pub fn gen_private_key() -> (r: String)
    ensures
        r@.len() == 64,
        exists|k: Seq<u8>| k.len() == KEY_BYTES as int && r@ == hex_of(k),
{
    let bytes = random_key_bytes();
    let ghost k = bytes@;
    let encoded = hex_encode_bytes(bytes.as_slice());
    proof {
        assert(encoded@ == hex_of(k));
    }
    encoded
}

} // verus!
