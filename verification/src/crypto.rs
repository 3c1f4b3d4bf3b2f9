//! The keyed tag that makes the progress store tamper-evident.

use hmac::{Hmac, Mac};
use sha2::Sha256;
use vstd::prelude::*;
use vstd::string::StringSliceAdditionalSpecFns;

verus! {

/// The HMAC-SHA256 tag of a message under a key.
pub uninterp spec fn hmac_sha256(key: Seq<u8>, message: Seq<u8>) -> Seq<u8>;

/// Computes the tag of `message` under `key`.
///
/// Feeds the message to `Hmac<Sha256>` made with `Mac::new_from_slice` and
/// takes the bytes of `Mac::finalize`. The constructor takes a key of any
/// length. The contract gives the result its name, and its length: the
/// output of SHA-256, and with it the tag, has 32 bytes.
#[verifier::external_body]
fn tag_of(key: &[u8], message: &[u8]) -> (tag: Vec<u8>)
    ensures
        tag@ == hmac_sha256(key@, message@),
        tag@.len() == 32,
{
    let mut mac = Hmac::<Sha256>::new_from_slice(key).expect("a key of any length is taken");
    mac.update(message);
    mac.finalize().into_bytes().to_vec()
}

/// Checks `tag` against the tag of `message` under `key`.
///
/// Calls `Mac::verify_slice`, which refuses a slice of another length than
/// the tag's and else compares every byte with the computed tag, in constant
/// time: it accepts exactly the tag itself.
#[verifier::external_body]
fn tag_matches(key: &[u8], message: &[u8], tag: &[u8]) -> (ok: bool)
    ensures
        ok == (tag@ == hmac_sha256(key@, message@)),
{
    let mut mac = Hmac::<Sha256>::new_from_slice(key).expect("a key of any length is taken");
    mac.update(message);
    mac.verify_slice(tag).is_ok()
}

/// The tag that authenticates `message` under `key`, over the UTF-8 bytes of
/// both.
pub open spec fn signature_of(key: Seq<char>, message: Seq<char>) -> Seq<u8> {
    hmac_sha256(vstd::utf8::encode_utf8(key), vstd::utf8::encode_utf8(message))
}

/// Computes the tag that authenticates `message` under `key`.
pub fn generate_hmac(key: &str, message: &str) -> (r: Vec<u8>)
    ensures
        r@ == signature_of(key@, message@),
        r@.len() == 32,
{
    tag_of(key.as_bytes(), message.as_bytes())
}

/// Whether `signature` is the tag that authenticates `message` under `key`.
pub fn verify_hmac(key: &str, message: &str, signature: &[u8]) -> (r: bool)
    ensures
        r == (signature@ == signature_of(key@, message@)),
{
    tag_matches(key.as_bytes(), message.as_bytes(), signature)
}

} // verus!
