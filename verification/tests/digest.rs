use chasam_core::digest::md5_hex;
use chasam_core::digest::sha1_hex;

#[test]
fn md5_hex_matches_known_digests() {
    assert_eq!(md5_hex(b""), "d41d8cd98f00b204e9800998ecf8427e");
    assert_eq!(md5_hex(b"abc"), "900150983cd24fb0d6963f7d28e17f72");
    assert_eq!(
        md5_hex(b"The quick brown fox jumps over the lazy dog"),
        "9e107d9d372bb6826bd81d3542a419d6"
    );
}

#[test]
fn sha1_hex_matches_known_digests() {
    assert_eq!(sha1_hex(b""), "da39a3ee5e6b4b0d3255bfef95601890afd80709");
    assert_eq!(sha1_hex(b"abc"), "a9993e364706816aba3e25717850c26c9cd0d89d");
}

#[test]
fn digests_are_lowercase_and_fixed_width() {
    let m = md5_hex(b"anything at all");
    assert_eq!(m.len(), 32);
    assert!(m.chars().all(|c| c.is_ascii_hexdigit() && !c.is_ascii_uppercase()));
    let s = sha1_hex(b"anything at all");
    assert_eq!(s.len(), 40);
    assert!(s.chars().all(|c| c.is_ascii_hexdigit() && !c.is_ascii_uppercase()));
}
