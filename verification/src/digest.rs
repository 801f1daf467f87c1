//! SHA-256 digests and the packing of a digest into 64-bit words.

use crate::canonical::{canonical_text, CanonicalUrl};
use crate::hash::UrlHash;
use vstd::prelude::*;
use vstd::std_specs::convert::FromSpecImpl;
use vstd::utf8::encode_utf8;

verus! {

/// The SHA-256 digest of `message`, as FIPS 180-4 defines it.
///
/// The function is named, not defined: the library computes it with
/// `ring::digest::digest` and proves nothing about the algorithm itself.
pub uninterp spec fn sha256(message: Seq<u8>) -> Seq<u8>;

/// The length in bytes of the longest message that has a SHA-256 digest:
/// the length in bits of a message has to fit in 64 bits.
pub const MAX_MESSAGE_LEN: u64 = 0x1FFF_FFFF_FFFF_FFFF;

/// Whether `text` is short enough to have a SHA-256 digest.
pub open spec fn digestible(text: Seq<char>) -> bool {
    encode_utf8(text).len() <= MAX_MESSAGE_LEN
}

/// Tests whether `text` is short enough to have a SHA-256 digest.
pub fn fits_digest(text: &str) -> (r: bool)
    ensures
        r == digestible(text@),
{
    text.as_bytes().len() as u64 <= MAX_MESSAGE_LEN
}

/// Calls `ring::digest::digest` with `ring::digest::SHA256` and copies out
/// the bytes that `Digest::as_ref` gives.
///
/// Trusted: that the 32 bytes are the SHA-256 digest of `message`. `ring`
/// panics on a message whose length in bits does not fit in 64 bits, so such
/// a message is not admitted.
#[verifier::external_body]
fn sha256_digest(message: &[u8]) -> (digest: [u8; 32])
    requires
        message@.len() <= MAX_MESSAGE_LEN,
    ensures
        digest@ == sha256(message@),
{
    let computed = ring::digest::digest(&ring::digest::SHA256, message);
    let mut digest: [u8; 32] = [0u8; 32];
    digest.copy_from_slice(computed.as_ref());
    digest
}

/// The number that the eight bytes `bytes[at]`, ..., `bytes[at + 7]` spell
/// in little-endian order: `bytes[at]` is the least significant byte.
pub open spec fn le_word(bytes: Seq<u8>, at: int) -> int {
    bytes[at] + bytes[at + 1] * 0x100 + bytes[at + 2] * 0x1_0000 + bytes[at + 3] * 0x100_0000
        + bytes[at + 4] * 0x1_0000_0000 + bytes[at + 5] * 0x100_0000_0000 + bytes[at + 6]
        * 0x1_0000_0000_0000 + bytes[at + 7] * 0x100_0000_0000_0000
}

/// The four words of a 32-byte digest: word `k` is spelt by the bytes
/// `8 * k`, ..., `8 * k + 7`.
pub open spec fn digest_words(digest: Seq<u8>) -> Seq<u64> {
    Seq::new(4, |k: int| le_word(digest, 8 * k) as u64)
}

/// Eight bytes spell a number that fits in 64 bits.
pub proof fn lemma_le_word_fits(bytes: Seq<u8>, at: int)
    ensures
        0 <= le_word(bytes, at) <= u64::MAX,
{
}

/// A number in base 256 has one least significant digit and one rest.
proof fn lemma_least_byte(low_a: int, rest_a: int, low_b: int, rest_b: int)
    requires
        0 <= low_a < 0x100,
        0 <= low_b < 0x100,
        low_a + rest_a * 0x100 == low_b + rest_b * 0x100,
    ensures
        low_a == low_b,
        rest_a == rest_b,
{
}

/// Eight bytes are determined by the number they spell.
pub proof fn lemma_le_word_determines_bytes(a: Seq<u8>, b: Seq<u8>, at: int)
    requires
        0 <= at,
        at + 8 <= a.len(),
        at + 8 <= b.len(),
        le_word(a, at) == le_word(b, at),
    ensures
        forall|i: int| at <= i < at + 8 ==> a[i] == b[i],
{
    let a1: int = a[at + 1] + a[at + 2] * 0x100 + a[at + 3] * 0x1_0000 + a[at + 4] * 0x100_0000 + a[at
        + 5] * 0x1_0000_0000 + a[at + 6] * 0x100_0000_0000 + a[at + 7] * 0x1_0000_0000_0000;
    let b1: int = b[at + 1] + b[at + 2] * 0x100 + b[at + 3] * 0x1_0000 + b[at + 4] * 0x100_0000 + b[at
        + 5] * 0x1_0000_0000 + b[at + 6] * 0x100_0000_0000 + b[at + 7] * 0x1_0000_0000_0000;
    lemma_least_byte(a[at] as int, a1, b[at] as int, b1);
    let a2: int = a[at + 2] + a[at + 3] * 0x100 + a[at + 4] * 0x1_0000 + a[at + 5] * 0x100_0000 + a[at
        + 6] * 0x1_0000_0000 + a[at + 7] * 0x100_0000_0000;
    let b2: int = b[at + 2] + b[at + 3] * 0x100 + b[at + 4] * 0x1_0000 + b[at + 5] * 0x100_0000 + b[at
        + 6] * 0x1_0000_0000 + b[at + 7] * 0x100_0000_0000;
    lemma_least_byte(a[at + 1] as int, a2, b[at + 1] as int, b2);
    let a3: int = a[at + 3] + a[at + 4] * 0x100 + a[at + 5] * 0x1_0000 + a[at + 6] * 0x100_0000 + a[at
        + 7] * 0x1_0000_0000;
    let b3: int = b[at + 3] + b[at + 4] * 0x100 + b[at + 5] * 0x1_0000 + b[at + 6] * 0x100_0000 + b[at
        + 7] * 0x1_0000_0000;
    lemma_least_byte(a[at + 2] as int, a3, b[at + 2] as int, b3);
    let a4: int = a[at + 4] + a[at + 5] * 0x100 + a[at + 6] * 0x1_0000 + a[at + 7] * 0x100_0000;
    let b4: int = b[at + 4] + b[at + 5] * 0x100 + b[at + 6] * 0x1_0000 + b[at + 7] * 0x100_0000;
    lemma_least_byte(a[at + 3] as int, a4, b[at + 3] as int, b4);
    let a5: int = a[at + 5] + a[at + 6] * 0x100 + a[at + 7] * 0x1_0000;
    let b5: int = b[at + 5] + b[at + 6] * 0x100 + b[at + 7] * 0x1_0000;
    lemma_least_byte(a[at + 4] as int, a5, b[at + 4] as int, b5);
    let a6: int = a[at + 6] + a[at + 7] * 0x100;
    let b6: int = b[at + 6] + b[at + 7] * 0x100;
    lemma_least_byte(a[at + 5] as int, a6, b[at + 5] as int, b6);
    lemma_least_byte(a[at + 6] as int, a[at + 7] as int, b[at + 6] as int, b[at + 7] as int);
    assert forall|i: int| at <= i < at + 8 implies a[i] == b[i] by {
        assert(i == at || i == at + 1 || i == at + 2 || i == at + 3 || i == at + 4 || i == at + 5
            || i == at + 6 || i == at + 7);
    }
}

/// A digest is determined by its four words: the packing loses nothing, so
/// two hashes made of digests are equal only where the digests are.
pub proof fn lemma_words_determine_digest(a: Seq<u8>, b: Seq<u8>)
    requires
        a.len() == 32,
        b.len() == 32,
        digest_words(a) == digest_words(b),
    ensures
        a == b,
{
    assert forall|i: int| 0 <= i < 32 implies a[i] == b[i] by {
        let k: int = i / 8;
        lemma_le_word_fits(a, 8 * k);
        lemma_le_word_fits(b, 8 * k);
        assert(0 <= k < 4 && 8 * k <= i < 8 * k + 8);
        assert(digest_words(a)[k] == le_word(a, 8 * k) as u64);
        assert(digest_words(b)[k] == le_word(b, 8 * k) as u64);
        lemma_le_word_determines_bytes(a, b, 8 * k);
    }
    assert(a =~= b);
}

/// Reads the little-endian word that starts at byte `8 * k` of `digest`.
pub(crate) fn word_of_digest(digest: &[u8; 32], k: usize) -> (w: u64)
    requires
        k < 4,
    ensures
        w == le_word(digest@, 8 * k),
        w == digest_words(digest@)[k as int],
{
    let at: usize = 8 * k;
    let b0: u64 = digest[at] as u64;
    let b1: u64 = digest[at + 1] as u64;
    let b2: u64 = digest[at + 2] as u64;
    let b3: u64 = digest[at + 3] as u64;
    let b4: u64 = digest[at + 4] as u64;
    let b5: u64 = digest[at + 5] as u64;
    let b6: u64 = digest[at + 6] as u64;
    let b7: u64 = digest[at + 7] as u64;
    b0 + b1 * 0x100 + b2 * 0x1_0000 + b3 * 0x100_0000 + b4 * 0x1_0000_0000 + b5
        * 0x100_0000_0000 + b6 * 0x1_0000_0000_0000 + b7 * 0x100_0000_0000_0000
}

/// The four words of the hash of a canonical URL text: the words of the
/// SHA-256 digest of the text's UTF-8 encoding.
pub open spec fn url_words(text: Seq<char>) -> Seq<u64> {
    digest_words(sha256(encode_utf8(text)))
}

impl UrlHash {
    /// Hashes `text`, which is meant to be a canonical URL text: digests its
    /// UTF-8 encoding with SHA-256 and packs the digest.
    pub fn digest(text: &str) -> (h: UrlHash)
        requires
            digestible(text@),
        ensures
            h@ == url_words(text@),
    {
        let digest = sha256_digest(text.as_bytes());
        UrlHash::from_digest(&digest)
    }
}

impl From<CanonicalUrl> for UrlHash {
    /// Hashes a canonical URL.
    fn from(url: CanonicalUrl) -> (h: UrlHash)
        ensures
            h@ == url_words(url@),
    {
        let h = UrlHash::digest(url.as_str());
        proof {
            UrlHash::lemma_with_words(url_words(url@));
            UrlHash::lemma_words_determine_hash(h, UrlHash::with_words(url_words(url@)));
        }
        h
    }
}

impl FromSpecImpl<CanonicalUrl> for UrlHash {
    open spec fn obeys_from_spec() -> bool {
        true
    }

    open spec fn from_spec(url: CanonicalUrl) -> UrlHash {
        UrlHash::with_words(url_words(url@))
    }
}

/// Canonical URLs with one text have one hash.
pub proof fn lemma_equal_texts_have_equal_hashes(
    first_url: CanonicalUrl,
    first: UrlHash,
    second_url: CanonicalUrl,
    second: UrlHash,
)
    requires
        first_url@ == second_url@,
        first@ == url_words(first_url@),
        second@ == url_words(second_url@),
    ensures
        first == second,
{
    UrlHash::lemma_words_determine_hash(first, second);
}

/// Hashing is a function of the URL text: whenever and wherever one text
/// is canonicalized and hashed, the same hash comes out.
pub proof fn lemma_hash_is_deterministic(
    input: Seq<char>,
    first_url: CanonicalUrl,
    first: UrlHash,
    second_url: CanonicalUrl,
    second: UrlHash,
)
    requires
        canonical_text(input) == Some(first_url@),
        first@ == url_words(first_url@),
        canonical_text(input) == Some(second_url@),
        second@ == url_words(second_url@),
    ensures
        first == second,
{
    lemma_equal_texts_have_equal_hashes(first_url, first, second_url, second);
}

} // verus!
