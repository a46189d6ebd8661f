//! HMAC-SHA256 tags and constant-time comparison.
use hmac::{KeyInit, Mac};
use subtle::ConstantTimeEq;
use vstd::prelude::*;

verus! {

/// The HMAC-SHA256 tag of `message` under `key`, as the `hmac` crate
/// computes it with `sha2::Sha256`.
pub uninterp spec fn hmac_sha256(key: Seq<u8>, message: Seq<u8>) -> Seq<u8>;

/// Computes an HMAC-SHA256 tag with `hmac::Hmac<sha2::Sha256>`
/// (`new_from_slice`, `update`, `finalize`). HMAC accepts keys of any
/// length. The contract claims the result is the tag named by
/// `hmac_sha256`, 32 bytes long.
#[verifier::external_body]
pub(crate) fn mac_tag(key: &[u8], message: &[u8]) -> (r: Vec<u8>)
    ensures
        r@ == hmac_sha256(key@, message@),
        r@.len() == 32,
{
    let mut mac = match <hmac::Hmac<sha2::Sha256> as KeyInit>::new_from_slice(key) {
        Ok(mac) => mac,
        Err(_) => return Vec::new(),
    };
    mac.update(message);
    mac.finalize().into_bytes().to_vec()
}

/// Checks a tag with `Mac::verify_slice`, which compares in constant time
/// and fails on a tag of another length. The contract claims the answer is
/// whether `tag` is the HMAC-SHA256 tag of `message` under `key`.
#[verifier::external_body]
pub(crate) fn mac_matches(key: &[u8], message: &[u8], tag: &[u8]) -> (r: bool)
    ensures
        r == (tag@ == hmac_sha256(key@, message@)),
{
    let mut mac = match <hmac::Hmac<sha2::Sha256> as KeyInit>::new_from_slice(key) {
        Ok(mac) => mac,
        Err(_) => return false,
    };
    mac.update(message);
    mac.verify_slice(tag).is_ok()
}

/// Compares two byte strings with `subtle::ConstantTimeEq::ct_eq`, which
/// answers 1 exactly when they have the same length and the same bytes.
#[verifier::external_body]
pub(crate) fn constant_time_equal(a: &[u8], b: &[u8]) -> (r: bool)
    ensures
        r == (a@ == b@),
{
    bool::from(a.ct_eq(b))
}

} // verus!

verus! {

/// The SHA-256 hasher of the `sha2` crate, carried opaquely.
#[verifier::external_type_specification]
#[verifier::external_body]
pub struct ExSha256(sha2::Sha256);

/// The SHA-256 digest of `bytes`, as `sha2::Sha256` computes it.
pub uninterp spec fn sha256_digest(bytes: Seq<u8>) -> Seq<u8>;

/// The bytes fed so far to a `sha2::Sha256` hasher, in order.
pub uninterp spec fn sha256_fed(hasher: sha2::Sha256) -> Seq<u8>;

/// A fresh hasher with `sha2::Digest::new`; the contract claims it has been
/// fed nothing.
#[verifier::external_body]
fn sha256_new() -> (r: sha2::Sha256)
    ensures
        sha256_fed(r) == Seq::<u8>::empty(),
{
    <sha2::Sha256 as sha2::Digest>::new()
}

/// Feeds bytes with `sha2::Digest::update`; the contract claims they are
/// appended to what the hasher was fed.
#[verifier::external_body]
fn sha256_update(hasher: &mut sha2::Sha256, bytes: &[u8])
    ensures
        sha256_fed(*final(hasher)) == sha256_fed(*old(hasher)) + bytes@,
{
    sha2::Digest::update(hasher, bytes);
}

/// Ends a hasher with `sha2::Digest::finalize`; the contract claims the
/// result is the digest, named by `sha256_digest`, of the bytes it was fed.
#[verifier::external_body]
fn sha256_finalize(hasher: sha2::Sha256) -> (r: Vec<u8>)
    ensures
        r@ == sha256_digest(sha256_fed(hasher)),
{
    sha2::Digest::finalize(hasher).to_vec()
}

/// The SHA-256 digest of a file being received, fed chunk by chunk.
#[derive(Debug)]
pub struct UploadDigest {
    hasher: sha2::Sha256,
}

impl UploadDigest {
    /// The bytes fed so far.
    pub closed spec fn bytes(&self) -> Seq<u8> {
        sha256_fed(self.hasher)
    }

    /// A digest of nothing yet.
    pub fn new() -> (r: UploadDigest)
        ensures
            r.bytes() == Seq::<u8>::empty(),
    {
        UploadDigest { hasher: sha256_new() }
    }

    /// Feeds the next chunk.
    pub fn update(&mut self, chunk: &[u8])
        ensures
            final(self).bytes() == old(self).bytes() + chunk@,
    {
        sha256_update(&mut self.hasher, chunk);
    }

    /// The lowercase hexadecimal SHA-256 digest of every byte fed.
    pub fn finish_hex(self) -> (r: String)
        ensures
            r@ == crate::encoding::hex_text(sha256_digest(self.bytes())),
    {
        let digest = sha256_finalize(self.hasher);
        crate::encoding::hex_encode(digest.as_slice())
    }
}

} // verus!
