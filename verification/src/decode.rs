//! Decoding of legacy-encoded dump bytes, and the byte-level entry point
//! of the file-conversion pipeline.

use crate::errors::ConvertError;
use crate::pipeline::{convert_text, pipeline_spec};
use vstd::prelude::*;

verus! {

/// The text that the legacy Shift-JIS decoder yields for a byte buffer: a
/// pure function of the bytes alone.
pub uninterp spec fn legacy_decoded(bytes: Seq<u8>) -> Seq<char>;

/// Relies on `encoding_rs::SHIFT_JIS.decode`: decoding a complete byte
/// buffer (with BOM sniffing, malformed sequences replaced by the
/// replacement character) is a pure function of the bytes, and always
/// yields text rather than failing. The length bound keeps the decoder's
/// output-buffer size calculation from overflowing `usize`.
#[verifier::external_body]
fn decode_legacy(bytes: &Vec<u8>) -> (r: String)
    requires
        4 * bytes@.len() + 16 <= usize::MAX,
    ensures
        r@ == legacy_decoded(bytes@),
{
    let (text, _, _) = encoding_rs::SHIFT_JIS.decode(bytes);
    text.into_owned()
}

/// Runs the full pipeline on raw dump bytes: decodes them with the
/// legacy Shift-JIS decoder, then converts the decoded text. The decoder
/// substitutes replacement characters for malformed sequences instead of
/// failing, so no decode error arises here.
pub fn convert_bytes(bytes: &Vec<u8>, strip_address: bool) -> (r: Result<String, ConvertError>)
    requires
        4 * bytes@.len() + 16 <= usize::MAX,
    ensures
        r is Ok <==> pipeline_spec(legacy_decoded(bytes@), strip_address) is Ok,
        r matches Ok(s) ==> pipeline_spec(legacy_decoded(bytes@), strip_address) == Ok::<
            Seq<char>,
            ConvertError,
        >(s@),
        r matches Err(e) ==> pipeline_spec(legacy_decoded(bytes@), strip_address) == Err::<
            Seq<char>,
            ConvertError,
        >(e),
{
    let text = decode_legacy(bytes);
    convert_text(text.as_str(), strip_address)
}

} // verus!
