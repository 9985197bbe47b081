use vstd::prelude::*;

use base64::Engine;
use hmac::KeyInit;
use hmac::Mac;
use sha2::Digest;

verus! {

/// The SHA-256 digest of a byte string.
pub uninterp spec fn sha256_of(data: Seq<u8>) -> Seq<u8>;

/// The HMAC-SHA-512 authentication code of a message under a key.
pub uninterp spec fn hmac_sha512_of(key: Seq<u8>, data: Seq<u8>) -> Seq<u8>;

/// What standard-alphabet base64 decoding yields for a string: the decoded
/// bytes, or nothing when the string is not valid base64.
pub uninterp spec fn base64_decoding(s: Seq<char>) -> Option<Seq<u8>>;

/// The standard-alphabet, padded base64 rendering of a byte string.
pub uninterp spec fn base64_encoding(data: Seq<u8>) -> Seq<char>;

/// Relies on sha2's `Sha256`: the digest is 32 bytes and depends on the
/// input bytes alone.
#[verifier::external_body]
pub(crate) fn sha256(data: &[u8]) -> (r: Vec<u8>)
    ensures
        r@ == sha256_of(data@),
        r@.len() == 32,
{
    sha2::Sha256::digest(data).to_vec()
}

/// Relies on hmac's `Hmac<Sha512>`: keying has no failure path — a key of
/// any length is padded or hashed down — and the 64-byte result depends on
/// the key and message bytes alone.
#[verifier::external_body]
pub(crate) fn hmac_sha512(key: &[u8], data: &[u8]) -> (r: Vec<u8>)
    ensures
        r@ == hmac_sha512_of(key@, data@),
        r@.len() == 64,
{
    let mut mac = hmac::Hmac::<sha2::Sha512>::new_from_slice(key)
        .expect("HMAC accepts keys of any length");
    mac.update(data);
    mac.finalize().into_bytes().to_vec()
}

/// Relies on base64's `STANDARD` engine: decoding succeeds exactly on valid
/// base64 and its result depends on the input string alone.
#[verifier::external_body]
pub(crate) fn base64_decode(s: &str) -> (r: Option<Vec<u8>>)
    ensures
        r matches Some(v) ==> base64_decoding(s@) == Some(v@),
        r is None ==> base64_decoding(s@) is None,
{
    base64::engine::general_purpose::STANDARD.decode(s).ok()
}

/// Relies on base64's `STANDARD` engine: the encoding depends on the input
/// bytes alone.
#[verifier::external_body]
pub(crate) fn base64_encode(data: &[u8]) -> (r: String)
    ensures
        r@ == base64_encoding(data@),
{
    base64::engine::general_purpose::STANDARD.encode(data)
}

} // verus!
