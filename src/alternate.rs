//! The alternate codec, built on the padded `RFC4648` alphabet of the fast32
//! crate. It shares no table or routine with the standard codec.
use crate::rfc4648::{base64_of, bytes_of_base64, is_base64, lemma_base64_len, lemma_bytes_of_base64_of};
use crate::text::{decodes_to_text, text_of_base64, validate_utf8, CodecError};
use vstd::prelude::*;
use vstd::string::StringSliceAdditionalSpecFns;
use vstd::utf8::{encode_utf8, encode_utf8_decode_utf8};

verus! {

#[verifier::external_type_specification]
#[verifier::external_body]
pub struct ExFast32DecodeError(fast32::DecodeError);

/// Relies on `Alphabet64Padded::encode` of fast32's `RFC4648`: padded Base64
/// over the RFC 4648 alphabet.
#[verifier::external_body]
fn rfc4648_encode(bytes: &[u8]) -> (r: String)
    ensures
        r@ == base64_of(bytes@),
{
    fast32::base64::RFC4648.encode(bytes)
}

/// Relies on `Alphabet64Padded::decode` of fast32's `RFC4648`: every padded
/// encoding decodes to the bytes that were encoded. It also accepts some
/// strings that no encoding produces (`QQ=C`: a symbol after an `=` that
/// stands next to last), so nothing is stated of its other results.
#[verifier::external_body]
fn rfc4648_decode(s: &str) -> (r: Result<Vec<u8>, fast32::DecodeError>)
    ensures
        forall|b: Seq<u8>| #[trigger] base64_of(b) == s@ ==> (r is Ok && r->Ok_0@ == b),
{
    fast32::base64::RFC4648.decode(s.as_bytes())
}

/// Relies on the `Display` of fast32's `DecodeError`, which names the
/// offending character and its position, or the length.
#[verifier::external_body]
fn rfc4648_error_text(e: &fast32::DecodeError) -> String {
    format!("{}", e)
}

/// Whether two strings hold the same characters, compared byte by byte.
fn same_text(a: &str, b: &str) -> (r: bool)
    ensures
        r == (a@ == b@),
{
    let x = a.as_bytes();
    let y = b.as_bytes();
    proof {
        encode_utf8_decode_utf8(a@);
        encode_utf8_decode_utf8(b@);
    }
    if x.len() != y.len() {
        return false;
    }
    let mut i: usize = 0;
    while i < x.len()
        invariant
            x@ == a.spec_bytes(),
            y@ == b.spec_bytes(),
            x@.len() == y@.len(),
            0 <= i <= x@.len(),
            forall|j: int| 0 <= j < i ==> x@[j] == y@[j],
        decreases x@.len() - i,
    {
        if x[i] != y[i] {
            return false;
        }
        i = i + 1;
    }
    assert(x@ =~= y@);
    true
}

/// Encodes the UTF-8 bytes of `input` as padded Base64.
pub fn encode4(input: &str) -> (r: String)
    ensures
        r@ == base64_of(encode_utf8(input@)),
        r@.len() % 4 == 0,
{
    let bytes = input.as_bytes();
    assert(bytes@ == input.spec_bytes());
    proof {
        lemma_base64_len(bytes@);
    }
    rfc4648_encode(bytes)
}

/// Decodes padded Base64 into text. Only canonical encodings are accepted:
/// what the decoder gives back must encode to the input again.
pub fn decode4(input: &str) -> (r: Result<String, CodecError>)
    ensures
        r is Ok <==> decodes_to_text(input@),
        r matches Ok(t) ==> t@ == text_of_base64(input@),
        r matches Err(e) ==> (e is MalformedEncoding <==> !is_base64(input@)),
{
    match rfc4648_decode(input) {
        Ok(bytes) => {
            let again = rfc4648_encode(bytes.as_slice());
            if same_text(again.as_str(), input) {
                proof {
                    lemma_bytes_of_base64_of(bytes@);
                    assert(is_base64(input@));
                }
                validate_utf8(bytes)
            } else {
                proof {
                    assert forall|b: Seq<u8>| base64_of(b) != input@ by {
                        if base64_of(b) == input@ {
                            assert(b == bytes@);
                        }
                    }
                }
                Err(CodecError::MalformedEncoding("padding or trailing bits are not canonical".to_owned()))
            }
        },
        Err(e) => Err(CodecError::MalformedEncoding(rfc4648_error_text(&e))),
    }
}

} // verus!
