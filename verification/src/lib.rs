//! Stable, portable hash values for URLs.
//!
//! A URL text is first brought into its canonical form
//! ([`CanonicalUrl::parse`]), the canonical text is digested with SHA-256,
//! and the digest is packed into four 64-bit words: a [`UrlHash`]. The same
//! URL gives the same hash on every platform and in every run.
//!
//! Where space matters more than collision resistance the hash can be cut
//! down to its first two words ([`UrlShortHash`]) or to its first word
//! ([`UrlVeryShortHash`]); the longer values can be tested for starting with
//! a shorter one.
//!
//! - [`canonical`]: canonical URL texts;
//! - [`digest`]: SHA-256 digests and their packing into words;
//! - [`hash`]: the three hash values and the relations between them;
//! - [`text`]: the text form of hash values.

pub mod canonical;
pub mod digest;
pub mod hash;
pub mod text;

pub use canonical::CanonicalUrl;
pub use hash::{UrlHash, UrlShortHash, UrlVeryShortHash};
