//! UTF-8 validation of decoded bytes, and the error type of both codecs.
use crate::rfc4648::{base64_of, bytes_of_base64, is_base64, lemma_bytes_of_base64_of};
use vstd::prelude::*;
use vstd::utf8::{
    decode_utf8, decode_utf8_encode_utf8, encode_utf8, encode_utf8_decode_utf8, encode_utf8_valid_utf8,
    valid_utf8,
};

verus! {

/// Why a decode failed, with a human-readable description.
#[derive(Debug, Clone, PartialEq, Eq)]
pub enum CodecError {
    /// The input is not a padded Base64 string: its length, one of its
    /// symbols, or the place of its padding is wrong.
    MalformedEncoding(String),
    /// The decoded bytes are not valid UTF-8.
    InvalidUtf8(String),
}

impl CodecError {
    /// The description carried by the error.
    pub fn description(&self) -> (r: &str)
        ensures
            r@ == match self {
                CodecError::MalformedEncoding(d) => d@,
                CodecError::InvalidUtf8(d) => d@,
            },
    {
        match self {
            CodecError::MalformedEncoding(d) => d.as_str(),
            CodecError::InvalidUtf8(d) => d.as_str(),
        }
    }
}

/// `s` is a padded Base64 string whose bytes are valid UTF-8.
pub open spec fn decodes_to_text(s: Seq<char>) -> bool {
    is_base64(s) && valid_utf8(bytes_of_base64(s))
}

/// The text that a padded Base64 string stands for (meaningful where
/// `decodes_to_text` holds).
pub open spec fn text_of_base64(s: Seq<char>) -> Seq<char> {
    decode_utf8(bytes_of_base64(s))
}

#[verifier::external_type_specification]
#[verifier::external_body]
pub struct ExFromUtf8Error(std::string::FromUtf8Error);

/// Relies on `String::from_utf8`: it succeeds exactly on valid UTF-8, and the
/// string it returns holds those very bytes.
#[verifier::external_body]
fn string_from_utf8(bytes: Vec<u8>) -> (r: Result<String, std::string::FromUtf8Error>)
    ensures
        r is Ok <==> valid_utf8(bytes@),
        r matches Ok(t) ==> encode_utf8(t@) == bytes@,
{
    String::from_utf8(bytes)
}

/// Relies on the `Display` of `FromUtf8Error`, which names the offset of the
/// first invalid sequence.
#[verifier::external_body]
fn utf8_error_text(e: &std::string::FromUtf8Error) -> String {
    format!("{}", e)
}

/// Turns decoded bytes into text, or reports that they are not valid UTF-8.
pub fn validate_utf8(bytes: Vec<u8>) -> (r: Result<String, CodecError>)
    ensures
        r is Ok <==> valid_utf8(bytes@),
        r matches Ok(t) ==> t@ == decode_utf8(bytes@) && encode_utf8(t@) == bytes@,
        r matches Err(e) ==> e is InvalidUtf8,
{
    match string_from_utf8(bytes) {
        Ok(t) => {
            proof {
                encode_utf8_decode_utf8(t@);
            }
            Ok(t)
        },
        Err(e) => Err(CodecError::InvalidUtf8(utf8_error_text(&e))),
    }
}

/// Validating again the text that a validation produced succeeds, and gives
/// the same text.
pub proof fn lemma_revalidate(bytes: Seq<u8>)
    requires
        valid_utf8(bytes),
    ensures
        valid_utf8(encode_utf8(decode_utf8(bytes))),
        decode_utf8(encode_utf8(decode_utf8(bytes))) == decode_utf8(bytes),
{
    decode_utf8_encode_utf8(bytes);
}

/// Any text, encoded as padded Base64 from its UTF-8 bytes, decodes back to
/// that text.
pub proof fn lemma_round_trip(t: Seq<char>)
    ensures
        decodes_to_text(base64_of(encode_utf8(t))),
        text_of_base64(base64_of(encode_utf8(t))) == t,
{
    let b = encode_utf8(t);
    lemma_bytes_of_base64_of(b);
    encode_utf8_valid_utf8(t);
    encode_utf8_decode_utf8(t);
    assert(is_base64(base64_of(b)));
}

} // verus!
