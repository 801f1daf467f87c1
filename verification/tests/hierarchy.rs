use url_hash::{CanonicalUrl, UrlHash, UrlShortHash, UrlVeryShortHash};

fn counting_digest() -> [u8; 32] {
    let mut digest = [0u8; 32];
    for (i, byte) in digest.iter_mut().enumerate() {
        *byte = i as u8;
    }
    digest
}

fn digest_with(at: usize, byte: u8) -> [u8; 32] {
    let mut digest = counting_digest();
    digest[at] = byte;
    digest
}

fn hash_of(input: &str) -> UrlHash {
    UrlHash::from(CanonicalUrl::parse(input).unwrap())
}

#[test]
fn words_are_read_in_little_endian_order() {
    let hash = UrlHash::from_digest(&counting_digest());
    assert_eq!(
        hash.to_string(),
        "506097522914230528-1084818905618843912-1663540288323457296-2242261671028070680"
    );
}

#[test]
fn each_byte_has_its_own_weight() {
    let mut digest = [0u8; 32];
    digest[0] = 1;
    assert_eq!(UrlHash::from_digest(&digest).to_string(), "1-0-0-0");
    digest = [0u8; 32];
    digest[1] = 1;
    assert_eq!(UrlHash::from_digest(&digest).to_string(), "256-0-0-0");
    digest = [0u8; 32];
    digest[7] = 0x80;
    assert_eq!(UrlHash::from_digest(&digest).to_string(), "9223372036854775808-0-0-0");
    digest = [0u8; 32];
    digest[8] = 2;
    assert_eq!(UrlHash::from_digest(&digest).to_string(), "0-2-0-0");
    digest = [0u8; 32];
    digest[23] = 1;
    assert_eq!(UrlHash::from_digest(&digest).to_string(), "0-0-72057594037927936-0");
    digest = [0u8; 32];
    digest[31] = 0xff;
    assert_eq!(UrlHash::from_digest(&digest).to_string(), "0-0-0-18374686479671623680");
}

#[test]
fn text_form_of_the_smallest_and_the_largest_hash() {
    let zero = UrlHash::from_digest(&[0u8; 32]);
    assert_eq!(zero.to_string(), "0-0-0-0");
    assert_eq!(zero.short().to_string(), "0-0");
    assert_eq!(zero.very_short().to_string(), "0");

    let full = UrlHash::from_digest(&[0xffu8; 32]);
    assert_eq!(
        full.to_string(),
        "18446744073709551615-18446744073709551615-18446744073709551615-18446744073709551615"
    );
    assert_eq!(full.short().to_string(), "18446744073709551615-18446744073709551615");
    assert_eq!(full.very_short().to_string(), "18446744073709551615");
}

#[test]
fn text_form_has_no_leading_zeros() {
    let mut digest = [0u8; 32];
    digest[0] = 10;
    digest[8] = 100;
    digest[16] = 9;
    digest[24] = 0xe8;
    digest[25] = 0x03;
    assert_eq!(UrlHash::from_digest(&digest).to_string(), "10-100-9-1000");
}

#[test]
fn short_forms_hold_the_leading_words() {
    let hash = UrlHash::from_digest(&counting_digest());
    assert_eq!(hash.short().to_string(), "506097522914230528-1084818905618843912");
    assert_eq!(hash.very_short().to_string(), "506097522914230528");
    assert_eq!(hash.short().very_short().to_string(), "506097522914230528");
}

#[test]
fn very_short_of_short_is_very_short() {
    let hash = hash_of("https://doc.rust-lang.org/");
    assert_eq!(hash.short().very_short(), hash.very_short());
    let hash = UrlHash::from_digest(&counting_digest());
    assert_eq!(hash.short().very_short(), hash.very_short());
}

#[test]
fn every_hash_starts_with_its_own_short_forms() {
    for input in [
        "https://doc.rust-lang.org/",
        "https://example.com/",
        "http://example.com:8080/a/b?c=d#e",
        "ftp://ftp.example.org/pub/file.txt",
    ] {
        let hash = hash_of(input);
        assert!(hash.starts_with(&hash.short()));
        assert!(hash.short().starts_with(&hash.very_short()));
        assert!(hash.starts_with_just(&hash.very_short()));
    }
}

#[test]
fn starts_with_looks_at_both_words() {
    let hash = UrlHash::from_digest(&counting_digest());
    let same: UrlShortHash = UrlHash::from_digest(&digest_with(16, 0xaa)).short();
    let first_differs = UrlHash::from_digest(&digest_with(3, 0xaa)).short();
    let second_differs = UrlHash::from_digest(&digest_with(12, 0xaa)).short();
    assert!(hash.starts_with(&same));
    assert!(!hash.starts_with(&first_differs));
    assert!(!hash.starts_with(&second_differs));
}

#[test]
fn starts_with_just_looks_at_the_first_word_only() {
    let hash = UrlHash::from_digest(&counting_digest());
    let same: UrlVeryShortHash = UrlHash::from_digest(&digest_with(8, 0xaa)).very_short();
    let differs = UrlHash::from_digest(&digest_with(7, 0xaa)).very_short();
    assert!(hash.starts_with_just(&same));
    assert!(!hash.starts_with_just(&differs));
    assert!(hash.short().starts_with(&same));
    assert!(!hash.short().starts_with(&differs));
}

#[test]
fn starts_with_is_transitive_down_the_hierarchy() {
    let hash = hash_of("https://example.com/");
    let short = hash.short();
    let very_short = short.very_short();
    assert!(hash.starts_with(&short));
    assert!(short.starts_with(&very_short));
    assert!(hash.starts_with_just(&very_short));
}

#[test]
fn equality_is_equality_of_all_words() {
    let hash = UrlHash::from_digest(&counting_digest());
    assert_eq!(hash, UrlHash::from_digest(&counting_digest()));
    for at in [0usize, 7, 8, 15, 16, 23, 24, 31] {
        assert_ne!(hash, UrlHash::from_digest(&digest_with(at, 0xaa)));
    }
    assert_eq!(hash.short(), UrlHash::from_digest(&digest_with(16, 0xaa)).short());
    assert_ne!(hash.short(), UrlHash::from_digest(&digest_with(15, 0xaa)).short());
    assert_ne!(hash.short(), UrlHash::from_digest(&digest_with(0, 0xaa)).short());
    assert_eq!(hash.very_short(), UrlHash::from_digest(&digest_with(8, 0xaa)).very_short());
    assert_ne!(hash.very_short(), UrlHash::from_digest(&digest_with(0, 0xaa)).very_short());
}

#[test]
fn hashes_are_plain_values() {
    let hash = hash_of("https://example.com/");
    let copy = hash;
    assert_eq!(copy, hash);
    assert_eq!(copy.clone().short(), hash.short());
    let mut seen = std::collections::HashSet::new();
    assert!(seen.insert(hash));
    assert!(!seen.insert(copy));
}
