//! Captured samples: the payload travels as base64 text, with an optional
//! textual decoding when the bytes happen to be valid UTF-8.

use vstd::prelude::*;
use base64::Engine;
use vstd::utf8::{decode_utf8, valid_utf8};

verus! {

/// The text that the standard base64 alphabet with padding assigns to a byte
/// sequence.
pub uninterp spec fn b64_of(b: Seq<u8>) -> Seq<char>;

/// Relies on base64's `Engine::encode` with the `STANDARD` engine: the text
/// is a function of the bytes alone, and with padding it is four characters
/// for every started group of three bytes.
#[verifier::external_body]
fn encode_base64(b: &[u8]) -> (r: String)
    requires
        b@.len() <= usize::MAX / 4,
    ensures
        r@ == b64_of(b@),
        r@.len() == 4 * ((b@.len() + 2) / 3),
{
    base64::engine::general_purpose::STANDARD.encode(b)
}

/// Relies on String::from_utf8: it succeeds exactly on valid UTF-8 and
/// returns the decoded characters.
#[verifier::external_body]
fn decode_text(bytes: Vec<u8>) -> (r: Option<String>)
    ensures
        r is Some <==> valid_utf8(bytes@),
        r matches Some(s) ==> s@ == decode_utf8(bytes@),
{
    match String::from_utf8(bytes) {
        Ok(s) => Some(s),
        Err(_) => None,
    }
}

/// One message captured for a subscription; immutable once built. The
/// capture timestamp is in milliseconds on the caller's clock.
pub struct BufferedSample {
    pub key_expr: String,
    pub payload_b64: String,
    pub payload_str: Option<String>,
    pub encoding: String,
    pub timestamp: u64,
}

impl BufferedSample {
    /// Builds the buffered form of one captured sample. The payload is kept
    /// as base64 text; a textual form is present exactly when the bytes are
    /// valid UTF-8 — its absence is not an error.
    pub fn from_payload(key_expr: String, payload: Vec<u8>, encoding: String, now_ms: u64) -> (r:
        BufferedSample)
        requires
            payload@.len() <= usize::MAX / 4,
        ensures
            r.key_expr == key_expr,
            r.payload_b64@ == b64_of(payload@),
            r.payload_b64@.len() == 4 * ((payload@.len() + 2) / 3),
            r.payload_str is Some <==> valid_utf8(payload@),
            r.payload_str matches Some(s) ==> s@ == decode_utf8(payload@),
            r.encoding == encoding,
            r.timestamp == now_ms,
    {
        let payload_b64 = encode_base64(payload.as_slice());
        let payload_str = decode_text(payload);
        BufferedSample { key_expr, payload_b64, payload_str, encoding, timestamp: now_ms }
    }
}

} // verus!
