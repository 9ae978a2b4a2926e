//! Content digests.

use vstd::prelude::*;
use vstd::utf8::encode_utf8;

use crate::text::number::{hex, hex_text, lemma_hex_text_len};
use crate::text::utf8_len;

verus! {

/// The SHA-256 digest of bytes.
pub uninterp spec fn sha256(bytes: Seq<u8>) -> Seq<u8>;

/// Whether a SHA-256 digest is defined for so many bytes: their number of bits is a 64-bit number.
pub open spec fn digestible(len: nat) -> bool {
    len < 0x2000_0000_0000_0000
}

/// `ring::digest::digest` with `ring::digest::SHA256`: the digest of the bytes, which is always 32
/// bytes long. It panics on longer inputs than the `requires` admits.
#[verifier::external_body]
fn sha256_digest(bytes: &[u8]) -> (r: Vec<u8>)
    requires
        digestible(bytes@.len()),
    ensures
        r@ == sha256(bytes@),
        r@.len() == 32,
{
    ring::digest::digest(&ring::digest::SHA256, bytes).as_ref().to_vec()
}

/// The SHA-256 digest of bytes, in lower case hexadecimal.
pub fn hex_digest(bytes: &[u8]) -> (r: String)
    requires
        digestible(bytes@.len()),
    ensures
        r@ == hex_text(sha256(bytes@)),
        r@.len() == 64,
{
    let digest = sha256_digest(bytes);
    proof {
        lemma_hex_text_len(digest@);
    }
    hex(digest.as_slice())
}

/// The digest of a text, in lower case hexadecimal, where it is not too long for one.
pub open spec fn digest_of(text: Seq<char>) -> Option<Seq<char>> {
    if digestible(utf8_len(text)) {
        Some(hex_text(sha256(encode_utf8(text))))
    } else {
        None
    }
}

/// The digest of a text, in lower case hexadecimal, where it is not too long for one.
pub fn text_digest(text: &str) -> (r: Option<String>)
    ensures
        match digest_of(text@) {
            Some(digest) => r matches Some(found) && found@ == digest && found@.len() == 64,
            None => r is None,
        },
{
    let bytes = text.as_bytes();
    if (bytes.len() as u64) < 0x2000_0000_0000_0000 {
        Some(hex_digest(bytes))
    } else {
        None
    }
}

} // verus!
