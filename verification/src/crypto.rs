//! Privacy-preserving hashing of actor identifiers: a salted SHA-256
//! digest, rendered as lowercase hex. The digest itself is computed by
//! the `sha2` crate behind a trusted wrapper; everything around it is
//! verified against the named digest function.

use sha2::Digest;
use vstd::prelude::*;

verus! {

/// Lowercase hex rendering of the SHA-256 digest of the UTF-8 encoding
/// of the given characters. The digest is a function of its input alone.
pub uninterp spec fn sha256_hex_of(s: Seq<char>) -> Seq<char>;

/// The salted hash stored for a relationship target: the digest of
/// `target ‖ user ‖ server secret`. User-salted, so the same target
/// hashes differently for different users.
pub open spec fn spec_hash_did(target: Seq<char>, user: Seq<char>, secret: Seq<char>) -> Seq<char> {
    sha256_hex_of(target + user + secret)
}

/// Relies on sha2's SHA-256 (`Digest::new` / `update` / `finalize`):
/// repeated `update` calls hash the concatenation of their inputs, and
/// the `LowerHex` formatting of the 32-byte digest writes two lowercase
/// hex digits per byte, hence 64 characters.
#[verifier::external_body]
fn sha256_hex_concat3(a: &str, b: &str, c: &str) -> (r: String)
    ensures
        r@ == sha256_hex_of(a@ + b@ + c@),
        r@.len() == 64,
{
    let mut hasher = sha2::Sha256::new();
    hasher.update(a.as_bytes());
    hasher.update(b.as_bytes());
    hasher.update(c.as_bytes());
    format!("{:x}", hasher.finalize())
}

/// Utilities for hashing actor identifiers with a server-held secret.
pub struct CryptoUtils {
    pub server_secret: String,
}

impl CryptoUtils {
    /// The server secret is read from the environment by the caller and
    /// handed in once at startup.
    pub fn new(server_secret: String) -> (r: Self)
        ensures
            r.server_secret == server_secret,
    {
        CryptoUtils { server_secret }
    }

    /// Hash an identifier with the user-specific salt.
    pub fn hash_did(&self, did_to_hash: &str, user_did: &str) -> (r: String)
        ensures
            r@ == spec_hash_did(did_to_hash@, user_did@, self.server_secret@),
            r@.len() == 64,
    {
        sha256_hex_concat3(did_to_hash, user_did, self.server_secret.as_str())
    }

    /// Whether an identifier matches a stored hash.
    pub fn did_matches_hash(&self, did_to_check: &str, user_did: &str, stored_hash: &str) -> (r:
        bool)
        ensures
            r == (spec_hash_did(did_to_check@, user_did@, self.server_secret@) == stored_hash@),
    {
        let computed_hash = self.hash_did(did_to_check, user_did);
        crate::strutil::str_eq(computed_hash.as_str(), stored_hash)
    }

    /// Hash several identifiers at once, all with the same user salt.
    pub fn hash_dids_batch(&self, dids_to_hash: &Vec<String>, user_did: &str) -> (r: Vec<String>)
        ensures
            r@.len() == dids_to_hash@.len(),
            forall|i: int|
                0 <= i < r@.len() ==> r@[i]@ == spec_hash_did(
                    dids_to_hash@[i]@,
                    user_did@,
                    self.server_secret@,
                ),
    {
        let mut result: Vec<String> = Vec::new();
        let mut i: usize = 0;
        while i < dids_to_hash.len()
            invariant
                0 <= i <= dids_to_hash@.len(),
                result@.len() == i,
                forall|j: int|
                    0 <= j < i ==> result@[j]@ == spec_hash_did(
                        dids_to_hash@[j]@,
                        user_did@,
                        self.server_secret@,
                    ),
            decreases dids_to_hash@.len() - i,
        {
            let h = self.hash_did(dids_to_hash[i].as_str(), user_did);
            result.push(h);
            i += 1;
        }
        result
    }
}

} // verus!
