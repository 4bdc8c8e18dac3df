//! The content digest behind every structure hash.

use sha2::Digest;
use sha2::Sha256;
use vstd::prelude::*;

verus! {

/// The lowercase-hex SHA-256 digest of the UTF-8 bytes of a character
/// sequence. The digest itself is left unstated: it is a fixed function of
/// the input alone, and every contract above speaks of it through this name.
pub uninterp spec fn sha256_hex_of(s: Seq<char>) -> Seq<char>;

/// Relies on sha2::Sha256 through the Digest interface: the digest is a
/// function of the input bytes alone, and the LowerHex rendering of the
/// 32-byte output is the same on every run.
#[verifier::external_body]
pub(crate) fn sha256_hex(text: &str) -> (r: String)
    ensures
        r@ == sha256_hex_of(text@),
{
    let mut hasher = Sha256::new();
    hasher.update(text.as_bytes());
    format!("{:x}", hasher.finalize())
}

} // verus!
