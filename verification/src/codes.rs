//! Digests, base64 and random bytes.

use base64::{engine::general_purpose::URL_SAFE_NO_PAD, Engine};
use rand::RngCore;
use sha2::{Digest, Sha256};
use vstd::prelude::*;

verus! {

/// The SHA-256 digest of the bytes.
pub uninterp spec fn sha256(bytes: Seq<u8>) -> Seq<u8>;

/// Calls `sha2::Sha256::digest`. The claims are that the bytes alone decide, and that the
/// digest has thirty-two bytes.
#[verifier::external_body]
pub(crate) fn sha256_of(bytes: &[u8]) -> (digest: Vec<u8>)
    ensures
        digest@ == sha256(bytes@),
        digest@.len() == 32,
{
    Sha256::digest(bytes).to_vec()
}

/// The byte at the position, or zero behind the end.
pub open spec fn byte_at(bytes: Seq<u8>, position: int) -> int {
    if 0 <= position < bytes.len() {
        bytes[position] as int
    } else {
        0
    }
}

/// The six bits of the bytes that the character at the position stands for: three bytes
/// make four characters, from the most significant bits down.
pub open spec fn six_bits(bytes: Seq<u8>, position: int) -> int {
    let first = position / 4 * 3;
    if position % 4 == 0 {
        byte_at(bytes, first) / 4
    } else if position % 4 == 1 {
        byte_at(bytes, first) % 4 * 16 + byte_at(bytes, first + 1) / 16
    } else if position % 4 == 2 {
        byte_at(bytes, first + 1) % 16 * 4 + byte_at(bytes, first + 2) / 64
    } else {
        byte_at(bytes, first + 2) % 64
    }
}

/// The character of the URL-safe base64 alphabet for six bits.
pub open spec fn base64_char(bits: int) -> char {
    if bits < 26 {
        (65 + bits) as char
    } else if bits < 52 {
        (97 + (bits - 26)) as char
    } else if bits < 62 {
        (48 + (bits - 52)) as char
    } else if bits == 62 {
        '-'
    } else {
        '_'
    }
}

/// The bytes in URL-safe base64, without padding.
pub open spec fn base64_url(bytes: Seq<u8>) -> Seq<char> {
    Seq::new((bytes.len() * 4 + 2) / 3, |i: int| base64_char(six_bits(bytes, i)))
}

/// Calls `encode` of `base64`'s engine `URL_SAFE_NO_PAD`: the alphabet for URLs, and no
/// padding behind the last group. Three bytes become four characters, so the text has to
/// fit in memory.
#[verifier::external_body]
pub(crate) fn base64_url_of(bytes: &[u8]) -> (text: String)
    requires
        bytes@.len() * 4 <= usize::MAX,
    ensures
        text@ == base64_url(bytes@),
{
    URL_SAFE_NO_PAD.encode(bytes)
}

/// Calls `rand::RngCore::fill_bytes` on `rand::rng`. The bytes are left to chance; the
/// claim is that there are as many as were asked for.
#[verifier::external_body]
pub(crate) fn random_bytes(count: usize) -> (bytes: Vec<u8>)
    ensures
        bytes@.len() == count,
{
    let mut bytes = vec![0; count];
    rand::rng().fill_bytes(&mut bytes);
    bytes
}

} // verus!
