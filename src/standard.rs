//! The standard codec, built on the `STANDARD` engine of the base64 crate.
use crate::rfc4648::{base64_of, bytes_of_base64, is_base64, lemma_base64_len, lemma_bytes_of_base64_of};
use crate::text::{decodes_to_text, text_of_base64, validate_utf8, CodecError};
use vstd::prelude::*;
use vstd::string::StringSliceAdditionalSpecFns;
use vstd::utf8::encode_utf8;

verus! {

#[verifier::external_type_specification]
#[verifier::external_body]
pub struct ExBase64DecodeError(base64::DecodeError);

/// Relies on `Engine::encode` of base64's `STANDARD` engine: padded Base64
/// over the RFC 4648 alphabet.
#[verifier::external_body]
fn standard_encode(bytes: &[u8]) -> (r: String)
    ensures
        r@ == base64_of(bytes@),
{
    base64::Engine::encode(&base64::engine::general_purpose::STANDARD, bytes)
}

/// Relies on `Engine::decode` of base64's `STANDARD` engine, which requires
/// canonical padding and zero trailing bits: it accepts exactly the padded
/// encodings, and gives back the bytes that were encoded.
#[verifier::external_body]
fn standard_decode(s: &str) -> (r: Result<Vec<u8>, base64::DecodeError>)
    ensures
        match r {
            Ok(v) => base64_of(v@) == s@,
            Err(_) => !is_base64(s@),
        },
{
    base64::Engine::decode(&base64::engine::general_purpose::STANDARD, s)
}

/// Relies on the `Display` of base64's `DecodeError`, which names the
/// offending byte or the length.
#[verifier::external_body]
fn standard_error_text(e: &base64::DecodeError) -> String {
    format!("{}", e)
}

/// Encodes the UTF-8 bytes of `input` as padded Base64.
pub fn encode3(input: &str) -> (r: String)
    ensures
        r@ == base64_of(encode_utf8(input@)),
        r@.len() % 4 == 0,
{
    let bytes = input.as_bytes();
    assert(bytes@ == input.spec_bytes());
    proof {
        lemma_base64_len(bytes@);
    }
    standard_encode(bytes)
}

/// Decodes padded Base64 into text.
pub fn decode3(input: &str) -> (r: Result<String, CodecError>)
    ensures
        r is Ok <==> decodes_to_text(input@),
        r matches Ok(t) ==> t@ == text_of_base64(input@),
        r matches Err(e) ==> (e is MalformedEncoding <==> !is_base64(input@)),
{
    match standard_decode(input) {
        Ok(bytes) => {
            proof {
                lemma_bytes_of_base64_of(bytes@);
                assert(is_base64(input@));
            }
            validate_utf8(bytes)
        },
        Err(e) => Err(CodecError::MalformedEncoding(standard_error_text(&e))),
    }
}

} // verus!
