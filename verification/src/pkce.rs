//! Proof Key for Code Exchange (RFC 7636).

use rand::Rng;
use sha2::Digest;
use vstd::prelude::*;
use vstd::utf8::encode_utf8;

use crate::encoding::{base64_url, base64_url_text};

verus! {

/// What `sha2::Sha256::digest` returns for the bytes.
pub uninterp spec fn sha256(bytes: Seq<u8>) -> Seq<u8>;

/// `sha2::Sha256::digest`: the 32 bytes of the hash.
#[verifier::external_body]
pub(crate) fn sha256_digest(bytes: &[u8]) -> (r: Vec<u8>)
    ensures
        r@ == sha256(bytes@),
        r@.len() == 32,
{
    sha2::Sha256::digest(bytes).to_vec()
}

/// Whether a character is an ASCII letter or digit.
pub open spec fn is_alphanumeric(c: char) -> bool {
    ('a' <= c && c <= 'z') || ('A' <= c && c <= 'Z') || ('0' <= c && c <= '9')
}

/// `rand::distributions::Alphanumeric` sampled on the thread's generator: an ASCII
/// letter or digit.
#[verifier::external_body]
fn random_alphanumeric() -> (r: char)
    ensures
        is_alphanumeric(r),
{
    char::from(rand::thread_rng().sample(rand::distributions::Alphanumeric))
}

/// A verifier and its challenge.
#[derive(Debug)]
pub struct PkceChallenge {
    /// The verifier, kept secret and sent at token exchange.
    pub verifier: String,
    /// The challenge, sent in the authorisation URL.
    pub challenge: String,
}

/// Length of a verifier.
pub const VERIFIER_LENGTH: usize = 64;

impl PkceChallenge {
    /// A random verifier and its challenge. The verifier is as long as RFC 7636
    /// wants it, at least 43 characters, and of characters it admits.
    pub fn generate() -> (r: PkceChallenge)
        ensures
            r.verifier@.len() == VERIFIER_LENGTH,
            forall|i: int| 0 <= i < r.verifier@.len() ==> is_alphanumeric(#[trigger] r.verifier@[i]),
            r.challenge@ == challenge_of(r.verifier@),
            r.challenge@.len() == 43,
    {
        let verifier = random_verifier(VERIFIER_LENGTH);
        let challenge = s256_challenge(verifier.as_str());
        PkceChallenge { verifier, challenge }
    }
}

/// A text of so many random letters and digits.
pub fn random_verifier(len: usize) -> (r: String)
    ensures
        r@.len() == len,
        forall|i: int| 0 <= i < r@.len() ==> is_alphanumeric(#[trigger] r@[i]),
{
    let mut r = String::new();
    let mut i: usize = 0;
    while i < len
        invariant
            i <= len,
            r@.len() == i,
            forall|k: int| 0 <= k < r@.len() ==> is_alphanumeric(#[trigger] r@[k]),
        decreases len - i,
    {
        r.push(random_alphanumeric());
        i += 1;
    }
    r
}

/// The challenge of a verifier: the URL-safe Base64 form of its SHA-256 hash.
pub open spec fn challenge_of(verifier: Seq<char>) -> Seq<char> {
    base64_url(sha256(encode_utf8(verifier)))
}

/// The challenge of a verifier, by method S256.
pub fn s256_challenge(verifier: &str) -> (r: String)
    ensures
        r@ == challenge_of(verifier@),
        r@.len() == 43,
{
    let hash = sha256_digest(verifier.as_bytes());
    base64_url_text(hash.as_slice())
}

} // verus!
