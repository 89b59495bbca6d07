use vstd::prelude::*;
use crate::error::{ErrorKind, FsError, fails_with};

verus! {

#[verifier::external_type_specification]
#[verifier::external_body]
pub struct ExDecodeError(base64::DecodeError);

/// The standard base64 text (RFC 4648 alphabet, padded) of `b`.
pub uninterp spec fn b64_encode(b: Seq<u8>) -> Seq<char>;

/// The bytes that the standard padded base64 text `s` stands for, or `None`
/// when `s` is not such a text.
pub uninterp spec fn b64_decode(s: Seq<char>) -> Option<Seq<u8>>;

/// Relies on `base64::Engine::encode` with the `STANDARD` engine: four
/// characters for every started group of three bytes, and a text that the same
/// engine decodes back to `b`. The length must not overflow the output size
/// computation, where `encode` panics.
#[verifier::external_body]
fn encode_base64(b: &Vec<u8>) -> (r: String)
    requires
        b@.len() <= usize::MAX / 2,
    ensures
        r@ == b64_encode(b@),
        r@.len() == 4 * ((b@.len() + 2) / 3),
        b64_decode(r@) == Some(b@),
{
    base64::Engine::encode(&base64::engine::general_purpose::STANDARD, b)
}

/// Relies on `base64::Engine::decode` with the `STANDARD` engine.
#[verifier::external_body]
fn decode_base64(s: &str) -> (r: Result<Vec<u8>, base64::DecodeError>)
    ensures
        r is Ok <==> b64_decode(s@) is Some,
        r is Ok ==> r->Ok_0@ == b64_decode(s@)->Some_0,
{
    base64::Engine::decode(&base64::engine::general_purpose::STANDARD, s)
}

/// The text `read_file_binary` hands back for a file holding `bytes`: its
/// standard base64 form, which decodes to exactly `bytes`.
pub fn encode_binary(bytes: &Vec<u8>) -> (r: String)
    requires
        bytes@.len() <= usize::MAX / 2,
    ensures
        r@ == b64_encode(bytes@),
        b64_decode(r@) == Some(bytes@),
{
    encode_base64(bytes)
}

/// The bytes `write_file_binary` stores at `path` for the base64 text `data`;
/// text that does not decode is refused.
pub fn decode_binary(path: &str, data: &str) -> (r: Result<Vec<u8>, FsError>)
    ensures
        b64_decode(data@) is Some ==> r is Ok && r->Ok_0@ == b64_decode(data@)->Some_0,
        b64_decode(data@) is None ==> fails_with(r, ErrorKind::InvalidData, path@),
{
    match decode_base64(data) {
        Ok(bytes) => Ok(bytes),
        Err(_) => Err(FsError::new(ErrorKind::InvalidData, path)),
    }
}

} // verus!
