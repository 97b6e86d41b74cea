//! Random keys and their URL-safe base64 text, as session cookies and share
//! links carry them.
use vstd::prelude::*;

verus! {

/// The URL-safe base64 text of `bytes`, with `=` padding when `padded`.
pub uninterp spec fn base64_url_encoding(padded: bool, bytes: Seq<u8>) -> Seq<char>;

/// The bytes that URL-safe base64 text with canonical `=` padding decodes to;
/// `None` for text that is not such an encoding.
pub uninterp spec fn base64_url_decoding(text: Seq<char>) -> Option<Seq<u8>>;

/// `RngCore::fill_bytes` on the thread-local generator of `rand`: 32 bytes
/// from a cryptographically secure generator. Nothing is stated of their values.
#[verifier::external_body]
pub(crate) fn random_key() -> (r: Vec<u8>)
    ensures
        r@.len() == 32,
{
    let mut raw = [0u8; 32];
    rand::RngCore::fill_bytes(&mut rand::rng(), &mut raw);
    raw.to_vec()
}

/// `Engine::encode` of the `URL_SAFE` engine of `base64`: 32 bytes become 44
/// characters (with padding), which that engine decodes back to the same bytes.
#[verifier::external_body]
pub(crate) fn encode_url_safe(bytes: &[u8]) -> (r: String)
    requires
        bytes@.len() == 32,
    ensures
        r@ == base64_url_encoding(true, bytes@),
        r@.len() == 44,
        base64_url_decoding(r@) == Some(bytes@),
{
    base64::Engine::encode(&base64::engine::general_purpose::URL_SAFE, bytes)
}

/// `Engine::encode` of the `URL_SAFE_NO_PAD` engine of `base64`: 32 bytes
/// become 43 characters.
#[verifier::external_body]
pub(crate) fn encode_url_safe_no_pad(bytes: &[u8]) -> (r: String)
    requires
        bytes@.len() == 32,
    ensures
        r@ == base64_url_encoding(false, bytes@),
        r@.len() == 43,
{
    base64::Engine::encode(&base64::engine::general_purpose::URL_SAFE_NO_PAD, bytes)
}

/// `Engine::decode` of the `URL_SAFE` engine of `base64`, on the UTF-8 bytes
/// of `text`.
#[verifier::external_body]
pub(crate) fn decode_url_safe(text: &str) -> (r: Option<Vec<u8>>)
    ensures
        match r {
            Some(v) => base64_url_decoding(text@) == Some(v@),
            None => base64_url_decoding(text@) is None,
        },
{
    base64::Engine::decode(&base64::engine::general_purpose::URL_SAFE, text).ok()
}

/// `ConstantTimeEq::ct_eq` of `subtle` on the UTF-8 bytes of two strings:
/// true exactly when they are equal, in time that does not depend on where
/// they differ.
#[verifier::external_body]
pub(crate) fn constant_time_eq(a: &str, b: &str) -> (r: bool)
    ensures
        r == (a@ == b@),
{
    bool::from(subtle::ConstantTimeEq::ct_eq(a.as_bytes(), b.as_bytes()))
}

/// A fresh share token: 32 random bytes as unpadded URL-safe base64, 43
/// characters long.
pub fn new_share_token() -> (r: String)
    ensures
        r@.len() == 43,
        exists|key: Seq<u8>| key.len() == 32 && r@ == base64_url_encoding(false, key),
{
    let key = random_key();
    encode_url_safe_no_pad(key.as_slice())
}

} // verus!
