//! Message codec: deterministic framing between a (filename, content)
//! pair and a flat byte payload, and the inverse.
//!
//! The payload layout is length-prefixed and unambiguous:
//! one byte holding the filename's UTF-8 byte length, the filename's
//! bytes, then the content bytes running to the end of the payload.
//! Because an authenticated cipher preserves exact lengths, the
//! content needs no padding and no trailing delimiter, so content
//! holding zero bytes survives the trip unchanged.
use vstd::prelude::*;

verus! {

use vstd::slice::{slice_subrange, slice_to_vec};
use vstd::utf8::{valid_utf8, decode_utf8, encode_utf8};

/// Longest filename, in UTF-8 bytes, that a payload can carry.
pub const MAX_NAME_BYTES: usize = 255;

/// Why a (filename, content) pair could not be framed.
#[derive(Clone, Copy, Debug, PartialEq, Eq, Structural)]
pub enum EncodeError {
    /// The filename's UTF-8 form is longer than 255 bytes.
    NameTooLong,
}

/// Why a payload could not be parsed back into a (filename, content) pair.
#[derive(Clone, Copy, Debug, PartialEq, Eq, Structural)]
pub enum DecodeError {
    /// The payload ends before the filename it promises.
    Truncated,
    /// The filename bytes are not valid UTF-8.
    InvalidName,
}

/// The framed form of a filename and content: a length byte, the
/// name's UTF-8 bytes, then the content.
pub open spec fn encoded(name: Seq<char>, content: Seq<u8>) -> Seq<u8> {
    seq![encode_utf8(name).len() as u8] + encode_utf8(name) + content
}

/// Whether a payload parses: it holds its promised name bytes, and
/// they are valid UTF-8.
pub open spec fn decode_ok(data: Seq<u8>) -> bool {
    &&& data.len() >= 1
    &&& 1 + data[0] as int <= data.len()
    &&& valid_utf8(data.subrange(1, 1 + data[0] as int))
}

/// The filename a parsable payload carries.
pub open spec fn decoded_name(data: Seq<u8>) -> Seq<char> {
    decode_utf8(data.subrange(1, 1 + data[0] as int))
}

/// The content a parsable payload carries.
pub open spec fn decoded_content(data: Seq<u8>) -> Seq<u8> {
    data.subrange(1 + data[0] as int, data.len() as int)
}

/// The error a non-parsable payload is rejected with.
pub open spec fn decode_err(data: Seq<u8>) -> DecodeError {
    if data.len() < 1 || 1 + data[0] as int > data.len() {
        DecodeError::Truncated
    } else {
        DecodeError::InvalidName
    }
}

/// Relies on String::from_utf8: returns a string exactly when the
/// bytes are valid UTF-8, and the string's characters decode them.
#[verifier::external_body]
pub(crate) fn string_from_utf8(v: Vec<u8>) -> (r: Option<String>)
    ensures
        match r {
            Some(s) => valid_utf8(v@) && s@ == decode_utf8(v@),
            None => !valid_utf8(v@),
        },
{
    String::from_utf8(v).ok()
}

/// Frame a filename and content into a flat payload.
///
/// Fails exactly when the filename's UTF-8 form is over 255 bytes;
/// any content, zero bytes included, is accepted.
pub fn encode_message(name: &str, content: &[u8]) -> (r: Result<Vec<u8>, EncodeError>)
    ensures
        encode_utf8(name@).len() <= MAX_NAME_BYTES ==> (match r {
            Ok(v) => v@ == encoded(name@, content@),
            Err(_) => false,
        }),
        encode_utf8(name@).len() > MAX_NAME_BYTES ==> r == Err::<Vec<u8>, EncodeError>(
            EncodeError::NameTooLong,
        ),
{
    let name_bytes = name.as_bytes();
    if name_bytes.len() > MAX_NAME_BYTES {
        return Err(EncodeError::NameTooLong);
    }
    let mut out: Vec<u8> = Vec::new();
    out.push(name_bytes.len() as u8);
    out.extend_from_slice(name_bytes);
    out.extend_from_slice(content);
    proof {
        assert(out@ =~= encoded(name@, content@));
    }
    Ok(out)
}

/// Parse a flat payload back into its filename and content.
///
/// Succeeds exactly when the payload holds its promised name bytes
/// and they are valid UTF-8; says which of the two failed otherwise.
pub fn decode_message(data: &[u8]) -> (r: Result<(String, Vec<u8>), DecodeError>)
    ensures
        decode_ok(data@) ==> (match r {
            Ok((n, c)) => n@ == decoded_name(data@) && c@ == decoded_content(data@),
            Err(_) => false,
        }),
        !decode_ok(data@) ==> r == Err::<(String, Vec<u8>), DecodeError>(decode_err(data@)),
{
    if data.len() == 0 {
        return Err(DecodeError::Truncated);
    }
    let name_len = data[0] as usize;
    if data.len() < 1 + name_len {
        return Err(DecodeError::Truncated);
    }
    let name_bytes = slice_to_vec(slice_subrange(data, 1, 1 + name_len));
    match string_from_utf8(name_bytes) {
        Some(name) => {
            let content = slice_to_vec(slice_subrange(data, 1 + name_len, data.len()));
            Ok((name, content))
        },
        None => Err(DecodeError::InvalidName),
    }
}

/// Round trip: a payload framed from any filename of at most 255
/// UTF-8 bytes and any content, zero bytes included, parses back to
/// exactly that filename and content.
pub proof fn lemma_codec_round_trip(name: Seq<char>, content: Seq<u8>)
    requires
        encode_utf8(name).len() <= MAX_NAME_BYTES,
    ensures
        decode_ok(encoded(name, content)),
        decoded_name(encoded(name, content)) == name,
        decoded_content(encoded(name, content)) == content,
{
    broadcast use vstd::utf8::encode_utf8_valid_utf8;
    broadcast use vstd::utf8::encode_utf8_decode_utf8;

    let data = encoded(name, content);
    let nb = encode_utf8(name);
    assert(data[0] == nb.len() as u8);
    assert(data.subrange(1, 1 + nb.len() as int) =~= nb);
    assert(decoded_content(data) =~= content);
}

} // verus!
