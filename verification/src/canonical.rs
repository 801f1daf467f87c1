//! Canonical URL texts.

use crate::digest::{digestible, fits_digest};
use vstd::prelude::*;
use vstd::std_specs::cmp::PartialEqSpecImpl;

verus! {

/// The canonical text of the URL that `input` spells, or `None` where
/// `input` is not an absolute URL.
///
/// The function is named, not defined: it is the serialization of the URL
/// that `url::Url::parse` reads from `input`. On the way the scheme and the
/// host are lower-cased, a host with non-ASCII labels is put into its `xn--`
/// form, a port that is the default of the scheme is left out, `.` and `..`
/// segments are taken out of the path, an empty path becomes `/`, and path,
/// query and fragment are percent-encoded.
pub uninterp spec fn canonical_form(input: Seq<char>) -> Option<Seq<char>>;

/// Whether `text` is the canonical text of some URL.
pub open spec fn is_canonical_form(text: Seq<char>) -> bool {
    exists|input: Seq<char>| canonical_form(input) == Some(text)
}

/// What [`CanonicalUrl::parse`] makes of `input`: its canonical form, where
/// it has one that can be digested.
pub open spec fn canonical_text(input: Seq<char>) -> Option<Seq<char>> {
    match canonical_form(input) {
        Some(text) => if digestible(text) {
            Some(text)
        } else {
            None
        },
        None => None,
    }
}

/// Calls `url::Url::parse` and, where it succeeds, turns the parsed URL
/// into its serialization (`From<Url> for String`).
///
/// Trusted: that the outcome depends on `input` alone, so that it can be
/// given a name. Nothing else is claimed of it.
#[verifier::external_body]
fn parse_and_serialize(input: &str) -> (r: Option<String>)
    ensures
        match r {
            Some(text) => canonical_form(input@) == Some(text@),
            None => canonical_form(input@) is None,
        },
{
    match url::Url::parse(input) {
        Ok(url) => Some(String::from(url)),
        Err(_) => None,
    }
}

/// A URL in its canonical text form, the input of hashing.
///
/// A value is made by [`CanonicalUrl::parse`] only, so it always holds the
/// canonical text of some URL, and one that can be digested.
#[derive(Debug, Eq, Hash)]
pub struct CanonicalUrl {
    text: String,
}

impl View for CanonicalUrl {
    type V = Seq<char>;

    /// The canonical text.
    closed spec fn view(&self) -> Seq<char> {
        self.text@
    }
}

impl CanonicalUrl {
    /// What holds of every value: its text is the canonical text of some
    /// URL and short enough to be digested.
    pub open spec fn wf(&self) -> bool {
        is_canonical_form(self@) && digestible(self@)
    }

    #[verifier::type_invariant]
    spec fn inv(&self) -> bool {
        self.wf()
    }

    /// Canonicalizes `input`.
    ///
    /// Gives `None` where `input` is not an absolute URL, and where its
    /// canonical text is too long to be digested.
    pub fn parse(input: &str) -> (r: Option<CanonicalUrl>)
        ensures
            match r {
                Some(url) => canonical_text(input@) == Some(url@) && url.wf(),
                None => canonical_text(input@) is None,
            },
    {
        match parse_and_serialize(input) {
            Some(text) => {
                if fits_digest(text.as_str()) {
                    Some(CanonicalUrl { text })
                } else {
                    None
                }
            },
            None => None,
        }
    }

    /// The canonical text.
    pub fn as_str(&self) -> (text: &str)
        ensures
            text@ == self@,
            self.wf(),
    {
        proof {
            use_type_invariant(self);
        }
        self.text.as_str()
    }
}

impl PartialEq for CanonicalUrl {
    /// Two canonical URLs are equal when their texts are.
    fn eq(&self, other: &Self) -> (r: bool) {
        self.text == other.text
    }
}

impl PartialEqSpecImpl for CanonicalUrl {
    open spec fn obeys_eq_spec() -> bool {
        true
    }

    open spec fn eq_spec(&self, other: &CanonicalUrl) -> bool {
        self@ == other@
    }
}

impl Clone for CanonicalUrl {
    fn clone(&self) -> (r: Self)
        ensures
            r@ == self@,
    {
        proof {
            use_type_invariant(self);
        }
        CanonicalUrl { text: self.text.clone() }
    }
}

/// Canonicalizing a text that is its own canonical form gives the text
/// back.
pub proof fn lemma_canonical_text_of_own_canonical_form(text: Seq<char>)
    requires
        canonical_form(text) == Some(text),
        digestible(text),
    ensures
        canonical_text(text) == Some(text),
{
}

} // verus!
