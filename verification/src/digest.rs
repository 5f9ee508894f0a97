//! The one-way function behind every block digest.

use vstd::prelude::*;

verus! {

/// Number of characters in a digest: 32 bytes, two hexadecimal digits each.
pub const DIGEST_LEN: usize = 64;

/// The SHA-256 digest of a text, as the `sha256` crate renders it: the hash of
/// the text's UTF-8 bytes, written in lowercase hexadecimal.
///
/// The function is left uninterpreted. Nothing in this library is proved about
/// its values beyond what [`sha256_digest`] states.
pub uninterp spec fn sha256_hex(data: Seq<char>) -> Seq<char>;

/// Whether a text has the length of a digest.
pub open spec fn is_digest(text: Seq<char>) -> bool {
    text.len() == DIGEST_LEN
}

/// Two texts collide when they differ and still have the same digest. SHA-256
/// has collisions, since it maps unboundedly many texts to finitely many
/// digests; none is known.
pub open spec fn collide(a: Seq<char>, b: Seq<char>) -> bool {
    a != b && sha256_hex(a) == sha256_hex(b)
}

/// Calls `sha256::digest` on an owned string.
///
/// Trusted, not proved: the result is the value that [`sha256_hex`] names for
/// this text, and it is [`DIGEST_LEN`] characters long (`sha2` yields 32 bytes,
/// `hex::encode` writes two characters for each).
#[verifier::external_body]
pub(crate) fn sha256_digest(data: String) -> (hex: String)
    ensures
        hex@ == sha256_hex(data@),
        is_digest(hex@),
{
    sha256::digest(data)
}

} // verus!
