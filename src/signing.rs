//! HMAC-SHA-256 tags over byte strings, used to let an untrusted client carry
//! a message (a login error, a flash note) that the server can later trust.

use hmac::{Hmac, Mac};
use sha2::Sha256;
use vstd::prelude::*;

verus! {

/// The smallest accepted secret, in bytes.
pub const MIN_SECRET_LEN: usize = 32;

/// The HMAC-SHA-256 tag of `msg` under `key`.
pub uninterp spec fn hmac_sha256(key: Seq<u8>, msg: Seq<u8>) -> Seq<u8>;

/// Relies on hmac's `Hmac::<Sha256>::new_from_slice` (which accepts a key of
/// any length), `update` and `finalize`: the 32-byte HMAC-SHA-256 tag.
#[verifier::external_body]
fn hmac_tag(key: &[u8], payload: &[u8]) -> (r: Vec<u8>)
    ensures
        r@ == hmac_sha256(key@, payload@),
        r@.len() == 32,
{
    let mut mac = <Hmac<Sha256> as Mac>::new_from_slice(key).expect("any key length");
    mac.update(payload);
    mac.finalize().into_bytes().to_vec()
}

/// Relies on hmac's `Mac::verify_slice`: recomputes the tag and compares it in
/// constant time, accepting exactly the tag that `finalize` would give.
#[verifier::external_body]
fn hmac_check(key: &[u8], payload: &[u8], tag: &[u8]) -> (r: bool)
    ensures
        r == (tag@ == hmac_sha256(key@, payload@)),
{
    let mut mac = <Hmac<Sha256> as Mac>::new_from_slice(key).expect("any key length");
    mac.update(payload);
    mac.verify_slice(tag).is_ok()
}

/// Whether `tag` is the tag of `payload` under `key`.
pub open spec fn tag_matches(key: Seq<u8>, payload: Seq<u8>, tag: Seq<u8>) -> bool {
    tag == hmac_sha256(key, payload)
}

/// Signs and verifies payloads with one process-wide secret.
pub struct SignedTokenCodec {
    secret: Vec<u8>,
}

impl SignedTokenCodec {
    pub closed spec fn key(&self) -> Seq<u8> {
        self.secret@
    }

    /// A codec over `secret`; `None` when the secret is shorter than
    /// `MIN_SECRET_LEN` bytes.
    pub fn new(secret: Vec<u8>) -> (r: Option<SignedTokenCodec>)
        ensures
            secret@.len() < MIN_SECRET_LEN ==> r.is_none(),
            secret@.len() >= MIN_SECRET_LEN ==> (r matches Some(c) && c.key() == secret@),
    {
        if secret.len() < MIN_SECRET_LEN {
            None
        } else {
            Some(SignedTokenCodec { secret })
        }
    }

    /// The tag of `payload`.
    pub fn sign(&self, payload: &[u8]) -> (tag: Vec<u8>)
        ensures
            tag@ == hmac_sha256(self.key(), payload@),
            tag@.len() == 32,
    {
        hmac_tag(self.secret.as_slice(), payload)
    }

    /// Whether `tag` is the tag of `payload`, compared in constant time.
    pub fn verify(&self, payload: &[u8], tag: &[u8]) -> (r: bool)
        ensures
            r == tag_matches(self.key(), payload@, tag@),
    {
        hmac_check(self.secret.as_slice(), payload, tag)
    }
}

/// A tag with one bit flipped no longer verifies: for every payload and the
/// tag that signing gave it, changing bit `bit` of byte `i` is detected.
pub proof fn lemma_flipped_bit_rejected(key: Seq<u8>, payload: Seq<u8>, i: int, bit: u8)
    requires
        0 <= i < hmac_sha256(key, payload).len(),
        bit < 8,
    ensures
        ({
            let tag = hmac_sha256(key, payload);
            !tag_matches(key, payload, tag.update(i, tag[i] ^ (1u8 << bit)))
        }),
{
    let tag = hmac_sha256(key, payload);
    let b = tag[i];
    assert(b ^ (1u8 << bit) != b) by (bit_vector)
        requires
            bit < 8,
    ;
    assert(tag.update(i, b ^ (1u8 << bit))[i] != tag[i]);
}

} // verus!
