//! Trusted bridge to sha2: the content hash used to name cached voice
//! files.

use vstd::prelude::*;

use sha2::{Digest, Sha256};

verus! {

/// The lowercase hex SHA-256 digest of a text: a function of the
/// characters alone.
pub uninterp spec fn sha256_hex(s: Seq<char>) -> Seq<char>;

/// Relies on sha2::Sha256 and its lowercase hex formatting: the digest
/// depends on the input characters alone.
#[verifier::external_body]
pub(crate) fn hash_string(s: &str) -> (r: String)
    ensures
        r@ == sha256_hex(s@),
{
    let mut hasher = Sha256::new();
    hasher.update(s.as_bytes());
    format!("{:x}", hasher.finalize())
}

} // verus!
