//! The three hash values and the prefix relation between them.

use crate::digest::{digest_words, word_of_digest};
use crate::text::{dashed, dashed_string, decimal_string, lemma_dashed_determines_words};
use vstd::prelude::*;
use vstd::std_specs::cmp::PartialEqSpecImpl;

verus! {

/// The full 256-bit hash of a URL, held as four 64-bit words.
///
/// Two hashes can be compared for equality and a hash can be tested for
/// starting with a shorter one; no order is defined on hashes.
#[derive(Copy, Clone, Debug, Eq, Hash)]
pub struct UrlHash([u64; 4]);

/// The first half of a [`UrlHash`]: its first two words.
#[derive(Copy, Clone, Debug, Eq, Hash)]
pub struct UrlShortHash([u64; 2]);

/// The first quarter of a [`UrlHash`]: its first word.
#[derive(Copy, Clone, Debug, Eq, Hash)]
pub struct UrlVeryShortHash(u64);

impl View for UrlHash {
    type V = Seq<u64>;

    /// The four words, in order.
    open spec fn view(&self) -> Seq<u64> {
        Seq::new(4, |i: int| self.word(i))
    }
}

impl View for UrlShortHash {
    type V = Seq<u64>;

    /// The two words, in order.
    open spec fn view(&self) -> Seq<u64> {
        Seq::new(2, |i: int| self.word(i))
    }
}

impl View for UrlVeryShortHash {
    type V = Seq<u64>;

    /// The one word.
    open spec fn view(&self) -> Seq<u64> {
        Seq::new(1, |i: int| self.word())
    }
}

impl UrlHash {
    /// The word at position `i`, for `0 <= i < 4`.
    pub closed spec fn word(&self, i: int) -> u64 {
        self.0[i]
    }

    /// The hash that is made of the four words `words`.
    pub closed spec fn with_words(words: Seq<u64>) -> UrlHash {
        UrlHash([words[0], words[1], words[2], words[3]])
    }

    /// [`UrlHash::with_words`] holds the words it was given.
    pub proof fn lemma_with_words(words: Seq<u64>)
        requires
            words.len() == 4,
        ensures
            UrlHash::with_words(words)@ == words,
    {
        assert(UrlHash::with_words(words)@ =~= words);
    }

    /// A hash is its four words and nothing else.
    pub proof fn lemma_words_determine_hash(a: UrlHash, b: UrlHash)
        requires
            a@ == b@,
        ensures
            a == b,
    {
        assert forall|i: int| 0 <= i < 4 implies a.0[i] == b.0[i] by {
            assert(a.word(i) == a@[i]);
            assert(b.word(i) == b@[i]);
        }
        assert(a.0@ =~= b.0@);
        assert(a.0 =~= b.0);
    }

    /// Packs a SHA-256 digest into a hash: each word is read from eight
    /// bytes in a row, in little-endian order.
    pub fn from_digest(digest: &[u8; 32]) -> (h: UrlHash)
        ensures
            h@ == digest_words(digest@),
    {
        let h = UrlHash(
            [
                word_of_digest(digest, 0),
                word_of_digest(digest, 1),
                word_of_digest(digest, 2),
                word_of_digest(digest, 3),
            ],
        );
        assert(h@ =~= digest_words(digest@));
        h
    }

    /// What [`UrlHash::short`] returns.
    pub closed spec fn spec_short(&self) -> UrlShortHash {
        UrlShortHash([self.0[0], self.0[1]])
    }

    /// What [`UrlHash::very_short`] returns.
    pub closed spec fn spec_very_short(&self) -> UrlVeryShortHash {
        UrlVeryShortHash(self.0[0])
    }

    /// Whether the first two words of this hash are those of `short_hash`.
    pub open spec fn spec_starts_with(&self, short_hash: &UrlShortHash) -> bool {
        self@[0] == short_hash@[0] && self@[1] == short_hash@[1]
    }

    /// Whether the first word of this hash is that of `very_short_hash`.
    pub open spec fn spec_starts_with_just(&self, very_short_hash: &UrlVeryShortHash) -> bool {
        self@[0] == very_short_hash@[0]
    }

    /// The short hash holds the first two words of the hash.
    pub proof fn lemma_short_view(self)
        ensures
            self.spec_short()@ == self@.take(2),
    {
        assert(self.spec_short()@ =~= self@.take(2));
    }

    /// The very short hash holds the first word of the hash.
    pub proof fn lemma_very_short_view(self)
        ensures
            self.spec_very_short()@ == self@.take(1),
    {
        assert(self.spec_very_short()@ =~= self@.take(1));
    }

    /// Return a [`UrlShortHash`] that holds the first two words of this hash.
    #[inline]
    #[verifier::when_used_as_spec(spec_short)]
    pub fn short(&self) -> (r: UrlShortHash)
        ensures
            r == self.spec_short(),
            r@ == self@.take(2),
    {
        proof {
            self.lemma_short_view();
        }
        UrlShortHash([self.0[0], self.0[1]])
    }

    /// Return a [`UrlVeryShortHash`] that holds the first word of this hash.
    #[inline]
    #[verifier::when_used_as_spec(spec_very_short)]
    pub fn very_short(&self) -> (r: UrlVeryShortHash)
        ensures
            r == self.spec_very_short(),
            r@ == self@.take(1),
    {
        proof {
            self.lemma_very_short_view();
        }
        UrlVeryShortHash(self.0[0])
    }

    /// Does this hash start with the two words of the short hash?
    #[inline]
    #[verifier::when_used_as_spec(spec_starts_with)]
    pub fn starts_with(&self, short_hash: &UrlShortHash) -> (r: bool)
        ensures
            r == self.spec_starts_with(short_hash),
    {
        self.0[0] == short_hash.0[0] && self.0[1] == short_hash.0[1]
    }

    /// Does this hash start with the word of the very short hash?
    #[inline]
    #[verifier::when_used_as_spec(spec_starts_with_just)]
    pub fn starts_with_just(&self, very_short_hash: &UrlVeryShortHash) -> (r: bool)
        ensures
            r == self.spec_starts_with_just(very_short_hash),
    {
        self.0[0] == very_short_hash.0
    }

    /// The text form of this hash: its four words as decimal numerals,
    /// joined by `-`.
    pub fn to_string(&self) -> (s: String)
        ensures
            s@ == dashed(self@),
    {
        assert(self.0@ =~= self@);
        dashed_string(&self.0)
    }
}

impl UrlShortHash {
    /// The word at position `i`, for `0 <= i < 2`.
    pub closed spec fn word(&self, i: int) -> u64 {
        self.0[i]
    }

    /// What [`UrlShortHash::very_short`] returns.
    pub closed spec fn spec_very_short(&self) -> UrlVeryShortHash {
        UrlVeryShortHash(self.0[0])
    }

    /// Whether the first word of this hash is that of `very_short_hash`.
    pub open spec fn spec_starts_with(&self, very_short_hash: &UrlVeryShortHash) -> bool {
        self@[0] == very_short_hash@[0]
    }

    /// The very short hash holds the first word of the short hash.
    pub proof fn lemma_very_short_view(self)
        ensures
            self.spec_very_short()@ == self@.take(1),
    {
        assert(self.spec_very_short()@ =~= self@.take(1));
    }

    /// A short hash is its two words and nothing else.
    pub proof fn lemma_words_determine_hash(a: UrlShortHash, b: UrlShortHash)
        requires
            a@ == b@,
        ensures
            a == b,
    {
        assert forall|i: int| 0 <= i < 2 implies a.0[i] == b.0[i] by {
            assert(a.word(i) == a@[i]);
            assert(b.word(i) == b@[i]);
        }
        assert(a.0@ =~= b.0@);
        assert(a.0 =~= b.0);
    }

    /// Return a [`UrlVeryShortHash`] that holds the first word of this
    /// short hash.
    #[inline]
    #[verifier::when_used_as_spec(spec_very_short)]
    pub fn very_short(&self) -> (r: UrlVeryShortHash)
        ensures
            r == self.spec_very_short(),
            r@ == self@.take(1),
    {
        proof {
            self.lemma_very_short_view();
        }
        UrlVeryShortHash(self.0[0])
    }

    /// Does this hash start with the word of the very short hash?
    #[inline]
    #[verifier::when_used_as_spec(spec_starts_with)]
    pub fn starts_with(&self, very_short_hash: &UrlVeryShortHash) -> (r: bool)
        ensures
            r == self.spec_starts_with(very_short_hash),
    {
        self.0[0] == very_short_hash.0
    }

    /// The text form of this hash: its two words as decimal numerals,
    /// joined by `-`.
    pub fn to_string(&self) -> (s: String)
        ensures
            s@ == dashed(self@),
    {
        assert(self.0@ =~= self@);
        dashed_string(&self.0)
    }
}

impl UrlVeryShortHash {
    /// The one word of this hash.
    pub closed spec fn word(&self) -> u64 {
        self.0
    }

    /// A very short hash is its word and nothing else.
    pub proof fn lemma_words_determine_hash(a: UrlVeryShortHash, b: UrlVeryShortHash)
        requires
            a@ == b@,
        ensures
            a == b,
    {
        assert(a.word() == a@[0]);
        assert(b.word() == b@[0]);
    }

    /// The text form of this hash: its word as a decimal numeral.
    pub fn to_string(&self) -> (s: String)
        ensures
            s@ == dashed(self@),
    {
        decimal_string(self.0)
    }
}

impl PartialEq for UrlHash {
    /// Two hashes are equal when all four words are.
    fn eq(&self, other: &Self) -> (r: bool) {
        let r = self.0[0] == other.0[0] && self.0[1] == other.0[1] && self.0[2] == other.0[2]
            && self.0[3] == other.0[3];
        proof {
            if r {
                assert(self@ =~= other@);
            } else {
                assert(self@[0] != other@[0] || self@[1] != other@[1] || self@[2] != other@[2]
                    || self@[3] != other@[3]);
            }
        }
        r
    }
}

impl PartialEqSpecImpl for UrlHash {
    open spec fn obeys_eq_spec() -> bool {
        true
    }

    open spec fn eq_spec(&self, other: &UrlHash) -> bool {
        self@ == other@
    }
}

impl PartialEq for UrlShortHash {
    /// Two short hashes are equal when both words are.
    fn eq(&self, other: &Self) -> (r: bool) {
        let r = self.0[0] == other.0[0] && self.0[1] == other.0[1];
        proof {
            if r {
                assert(self@ =~= other@);
            } else {
                assert(self@[0] != other@[0] || self@[1] != other@[1]);
            }
        }
        r
    }
}

impl PartialEqSpecImpl for UrlShortHash {
    open spec fn obeys_eq_spec() -> bool {
        true
    }

    open spec fn eq_spec(&self, other: &UrlShortHash) -> bool {
        self@ == other@
    }
}

impl PartialEq for UrlVeryShortHash {
    /// Two very short hashes are equal when their words are.
    fn eq(&self, other: &Self) -> (r: bool) {
        let r = self.0 == other.0;
        proof {
            if r {
                assert(self@ =~= other@);
            } else {
                assert(self@[0] != other@[0]);
            }
        }
        r
    }
}

impl PartialEqSpecImpl for UrlVeryShortHash {
    open spec fn obeys_eq_spec() -> bool {
        true
    }

    open spec fn eq_spec(&self, other: &UrlVeryShortHash) -> bool {
        self@ == other@
    }
}

/// A hash is determined by its text form: two hashes with one text form
/// are equal.
pub proof fn lemma_text_determines_hash(a: UrlHash, b: UrlHash)
    requires
        dashed(a@) == dashed(b@),
    ensures
        a == b,
{
    lemma_dashed_determines_words(a@, b@);
    UrlHash::lemma_words_determine_hash(a, b);
}

/// A short hash is determined by its text form.
pub proof fn lemma_text_determines_short_hash(a: UrlShortHash, b: UrlShortHash)
    requires
        dashed(a@) == dashed(b@),
    ensures
        a == b,
{
    lemma_dashed_determines_words(a@, b@);
    UrlShortHash::lemma_words_determine_hash(a, b);
}

/// A very short hash is determined by its text form.
pub proof fn lemma_text_determines_very_short_hash(a: UrlVeryShortHash, b: UrlVeryShortHash)
    requires
        dashed(a@) == dashed(b@),
    ensures
        a == b,
{
    lemma_dashed_determines_words(a@, b@);
    UrlVeryShortHash::lemma_words_determine_hash(a, b);
}

/// Every hash starts with its own short and very short hash, and its short
/// hash starts with its very short hash.
pub proof fn lemma_prefix_hierarchy(h: UrlHash)
    ensures
        h.starts_with(&h.short()),
        h.short().starts_with(&h.very_short()),
        h.starts_with_just(&h.very_short()),
{
    h.lemma_short_view();
    h.lemma_very_short_view();
}

/// The very short hash of a hash is the very short hash of its short hash.
pub proof fn lemma_very_short_of_short(h: UrlHash)
    ensures
        h.short().very_short() == h.very_short(),
{
    h.lemma_short_view();
    h.lemma_very_short_view();
    h.short().lemma_very_short_view();
    assert(h.short().very_short()@ =~= h.very_short()@);
    UrlVeryShortHash::lemma_words_determine_hash(h.short().very_short(), h.very_short());
}

/// A hash starts with exactly one short hash, its own.
pub proof fn lemma_starts_with_own_short_only(h: UrlHash, s: UrlShortHash)
    ensures
        h.starts_with(&s) <==> s == h.short(),
{
    h.lemma_short_view();
    if h.starts_with(&s) {
        assert(s@ =~= h.short()@);
        UrlShortHash::lemma_words_determine_hash(s, h.short());
    }
}

/// A hash starts with exactly one very short hash, its own.
pub proof fn lemma_starts_with_own_very_short_only(h: UrlHash, v: UrlVeryShortHash)
    ensures
        h.starts_with_just(&v) <==> v == h.very_short(),
{
    h.lemma_very_short_view();
    if h.starts_with_just(&v) {
        assert(v@ =~= h.very_short()@);
        UrlVeryShortHash::lemma_words_determine_hash(v, h.very_short());
    }
}

/// A short hash starts with exactly one very short hash, its own.
pub proof fn lemma_short_starts_with_own_very_short_only(s: UrlShortHash, v: UrlVeryShortHash)
    ensures
        s.starts_with(&v) <==> v == s.very_short(),
{
    s.lemma_very_short_view();
    if s.starts_with(&v) {
        assert(v@ =~= s.very_short()@);
        UrlVeryShortHash::lemma_words_determine_hash(v, s.very_short());
    }
}

/// Starting with is transitive down the hierarchy: a hash that starts with
/// a short hash starts with whatever that short hash starts with.
pub proof fn lemma_starts_with_transitive(h: UrlHash, s: UrlShortHash, v: UrlVeryShortHash)
    requires
        h.starts_with(&s),
        s.starts_with(&v),
    ensures
        h.starts_with_just(&v),
{
}

} // verus!
