//! UTF-8 decoding of stream chunks.

use vstd::prelude::*;
use vstd::utf8::{decode_utf8, valid_utf8};

use crate::error::Error;

verus! {

/// The rendering of the `FromUtf8Error` that `String::from_utf8` gives for
/// `bytes` (it names the position of the invalid sequence).
pub uninterp spec fn utf8_error(bytes: Seq<u8>) -> Seq<char>;

/// Decodes bytes as UTF-8 through `String::from_utf8`.
///
/// Trusted: `String::from_utf8` accepts exactly the valid UTF-8 byte sequences and
/// returns their decoding; the rendering of its error is the one named by
/// `utf8_error`, a function of the bytes alone.
#[verifier::external_body]
pub(crate) fn utf8_string(bytes: Vec<u8>) -> (r: core::result::Result<String, String>)
    ensures
        r is Ok <==> valid_utf8(bytes@),
        r matches Ok(s) ==> s@ == decode_utf8(bytes@),
        r matches Err(e) ==> e@ == utf8_error(bytes@),
{
    match String::from_utf8(bytes) {
        Ok(s) => Ok(s),
        Err(e) => Err(e.to_string()),
    }
}

/// Decodes one stream chunk as UTF-8 text.
///
/// A chunk that is not valid UTF-8 gives a `Decode` error with the message
/// `invalid utf-8 chunk`. Chunks follow network boundaries, so a multi-byte
/// character split across two chunks is reported as invalid; decode lines instead
/// when the endpoint emits newline-delimited records.
pub fn decode_chunk(bytes: Vec<u8>) -> (r: core::result::Result<String, Error>)
    ensures
        r is Ok <==> valid_utf8(bytes@),
        r matches Ok(s) ==> s@ == decode_utf8(bytes@),
        r matches Err(e) ==> e matches Error::Decode { message: m, source: Some(src) } && m@
            == "invalid utf-8 chunk"@ && src@ == utf8_error(bytes@),
{
    match utf8_string(bytes) {
        Ok(s) => Ok(s),
        Err(e) => Err(Error::decode("invalid utf-8 chunk".to_string(), e)),
    }
}

} // verus!
