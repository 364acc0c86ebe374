//! Request signatures: HMAC-SHA256 over the request, base64 encoded.
use vstd::prelude::*;
use vstd::utf8::encode_utf8;
use vstd::string::*;
use base64::Engine;
use hmac::Mac;

verus! {

/// What HMAC-SHA256 yields for a key and a message.
pub uninterp spec fn hmac_sha256(key: Seq<u8>, msg: Seq<u8>) -> Seq<u8>;

/// What the standard, padded base64 alphabet makes of a byte string.
pub uninterp spec fn base64_standard(bytes: Seq<u8>) -> Seq<char>;

/// Relies on `hmac::Hmac<sha2::Sha256>`: `new_from_slice` takes a key of
/// any length, and `finalize` yields the 32-byte tag of the bytes given to
/// `update`.
#[verifier::external_body]
fn hmac_sha256_tag(key: &[u8], msg: &[u8]) -> (r: Vec<u8>)
    ensures
        r@ == hmac_sha256(key@, msg@),
        r@.len() == 32,
{
    let mut mac = <hmac::Hmac<sha2::Sha256> as Mac>::new_from_slice(key)
        .expect("HMAC takes a key of any length");
    mac.update(msg);
    mac.finalize().into_bytes().to_vec()
}

/// Relies on `base64::engine::general_purpose::STANDARD.encode`, which
/// panics only when the encoded length overflows `usize`.
#[verifier::external_body]
fn base64_encode(bytes: &[u8]) -> (r: String)
    requires
        bytes@.len() <= usize::MAX / 2,
    ensures
        r@ == base64_standard(bytes@),
{
    base64::engine::general_purpose::STANDARD.encode(bytes)
}

/// The text a request signature covers.
pub open spec fn prehash(
    timestamp: Seq<char>,
    method: Seq<char>,
    path: Seq<char>,
    body: Seq<char>,
) -> Seq<char> {
    timestamp + method + path + body
}

/// Base64 of the HMAC-SHA256 tag of `msg` under `secret`, both taken as
/// UTF-8 bytes.
pub open spec fn signature_of(secret: Seq<char>, msg: Seq<char>) -> Seq<char> {
    base64_standard(hmac_sha256(encode_utf8(secret), encode_utf8(msg)))
}

/// Signs `msg` with `secret`.
pub fn sign_message(secret: &str, msg: &str) -> (r: String)
    ensures
        r@ == signature_of(secret@, msg@),
{
    let tag = hmac_sha256_tag(secret.as_bytes(), msg.as_bytes());
    base64_encode(tag.as_slice())
}

/// Signature of an exchange request: over timestamp, method, path and body
/// (the body is empty for a read).
pub fn sign_request(secret: &str, method: &str, path: &str, body: &str, timestamp: &str) -> (r:
    String)
    ensures
        r@ == signature_of(secret@, prehash(timestamp@, method@, path@, body@)),
{
    let mut msg = String::from_str(timestamp);
    msg.append(method);
    msg.append(path);
    msg.append(body);
    sign_message(secret, msg.as_str())
}

/// The body that is signed and sent: empty for a `GET`, the JSON text
/// otherwise.
pub fn signed_body(method: &str, body_json: &str) -> (r: String)
    ensures
        r@ == if method@ == "GET"@ {
            Seq::<char>::empty()
        } else {
            body_json@
        },
{
    if String::from_str(method) == String::from_str("GET") {
        String::new()
    } else {
        String::from_str(body_json)
    }
}

} // verus!
