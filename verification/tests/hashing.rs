use treehash::hash::HashStream;
use treehash::hash::hash_bytes;

const HELLO_SHA1: &str = "aaf4c61ddcc5e8a2dabede0f3b482cd9aea9434d";
const EMPTY_SHA1: &str = "da39a3ee5e6b4b0d3255bfef95601890afd80709";

#[test]
fn hash_bytes_known_value() {
    assert_eq!(hash_bytes(b"hello"), HELLO_SHA1);
}

#[test]
fn hash_bytes_empty() {
    assert_eq!(hash_bytes(b""), EMPTY_SHA1);
}

#[test]
fn digest_is_forty_hex_chars() {
    let h = hash_bytes(b"some file content");
    assert_eq!(h.len(), 40);
    assert!(h.chars().all(|c| c.is_ascii_hexdigit() && !c.is_ascii_uppercase()));
}

#[test]
fn streaming_chunks_match_one_shot() {
    let mut s = HashStream::new();
    s.update(b"he");
    s.update(b"llo");
    assert_eq!(s.hex_digest(), HELLO_SHA1);
}

#[test]
fn hashing_is_idempotent() {
    let first = hash_bytes(b"unchanged content");
    let second = hash_bytes(b"unchanged content");
    assert_eq!(first, second);
}

#[test]
fn identical_content_hashes_equal_across_streams() {
    let mut a = HashStream::new();
    a.update(b"same bytes");
    let mut b = HashStream::new();
    b.update(b"same ");
    b.update(b"bytes");
    assert_eq!(a.hex_digest(), b.hex_digest());
}

#[test]
fn single_byte_difference_changes_hash() {
    assert_ne!(hash_bytes(b"hello"), hash_bytes(b"hellp"));
}

#[test]
fn reset_forgets_previous_bytes() {
    let mut s = HashStream::new();
    s.update(b"garbage from an earlier file");
    s.reset();
    s.update(b"hello");
    assert_eq!(s.hex_digest(), HELLO_SHA1);
}

#[test]
fn digest_can_be_taken_mid_stream() {
    let mut s = HashStream::new();
    s.update(b"");
    assert_eq!(s.hex_digest(), EMPTY_SHA1);
    s.update(b"hello");
    assert_eq!(s.hex_digest(), HELLO_SHA1);
}
