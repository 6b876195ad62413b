//! Streaming SHA-1 hashing of file contents.
//!
//! The digest itself is computed by the `sha1` crate; this module gives
//! it a name, `sha1_hex`, and wraps the accumulator in a verified
//! `HashStream` whose contract ties the final hex string to exactly the
//! bytes that were fed in.

use vstd::prelude::*;

verus! {

#[verifier::external_type_specification]
#[verifier::external_body]
pub struct ExSha1(sha1::Sha1);

/// The bytes a SHA-1 accumulator has absorbed since it was created or
/// last reset.
pub uninterp spec fn absorbed(h: sha1::Sha1) -> Seq<u8>;

/// The SHA-1 digest of a byte sequence, written as forty lowercase
/// hexadecimal characters. The digest is a function of the bytes alone.
pub uninterp spec fn sha1_hex(bytes: Seq<u8>) -> Seq<char>;

/// True of every character the digest formatting can produce.
pub open spec fn is_hex_char(c: char) -> bool {
    ('0' <= c && c <= '9') || ('a' <= c && c <= 'f')
}

/// Relies on sha1::Sha1::new: a fresh accumulator has absorbed nothing.
#[verifier::external_body]
fn sha1_new() -> (h: sha1::Sha1)
    ensures
        absorbed(h) == Seq::<u8>::empty(),
{
    sha1::Sha1::new()
}

/// Relies on sha1::Sha1::reset: the accumulator returns to its initial
/// state, as if freshly created.
#[verifier::external_body]
fn sha1_reset(h: &mut sha1::Sha1)
    ensures
        absorbed(*final(h)) == Seq::<u8>::empty(),
{
    h.reset()
}

/// Relies on sha1::Sha1::update: the given bytes are absorbed after
/// those already absorbed.
#[verifier::external_body]
fn sha1_update(h: &mut sha1::Sha1, data: &[u8])
    ensures
        absorbed(*final(h)) == absorbed(*old(h)) + data@,
{
    h.update(data)
}

/// Relies on sha1::Sha1::digest and the hex formatting of the returned
/// Digest: forty lowercase hexadecimal characters over the absorbed
/// bytes; taking the digest leaves the accumulator unchanged.
#[verifier::external_body]
fn sha1_digest_hex(h: &sha1::Sha1) -> (r: String)
    ensures
        r@ == sha1_hex(absorbed(*h)),
        r@.len() == 40,
        forall|i: int| 0 <= i < r@.len() ==> is_hex_char(#[trigger] r@[i]),
{
    h.digest().to_string()
}

/// A streaming hasher for one file: feed the contents chunk by chunk,
/// then read off the hex digest of everything fed since the last reset.
pub struct HashStream {
    hasher: sha1::Sha1,
}

impl HashStream {
    /// The bytes fed so far.
    pub closed spec fn bytes(self) -> Seq<u8> {
        absorbed(self.hasher)
    }

    pub fn new() -> (s: HashStream)
        ensures
            s.bytes() == Seq::<u8>::empty(),
    {
        HashStream { hasher: sha1_new() }
    }

    /// Forget everything fed so far, so the stream can hash another file.
    pub fn reset(&mut self)
        ensures
            final(self).bytes() == Seq::<u8>::empty(),
    {
        sha1_reset(&mut self.hasher)
    }

    /// Feed the next chunk of the file.
    pub fn update(&mut self, data: &[u8])
        ensures
            final(self).bytes() == old(self).bytes() + data@,
    {
        sha1_update(&mut self.hasher, data)
    }

    /// The digest of exactly the bytes fed since creation or last reset.
    pub fn hex_digest(&self) -> (r: String)
        ensures
            r@ == sha1_hex(self.bytes()),
            r@.len() == 40,
            forall|i: int| 0 <= i < r@.len() ==> is_hex_char(#[trigger] r@[i]),
    {
        sha1_digest_hex(&self.hasher)
    }
}

/// Hash a complete in-memory byte slice in one step.
pub fn hash_bytes(data: &[u8]) -> (r: String)
    ensures
        r@ == sha1_hex(data@),
        r@.len() == 40,
        forall|i: int| 0 <= i < r@.len() ==> is_hex_char(#[trigger] r@[i]),
{
    let mut s = HashStream::new();
    s.update(data);
    proof {
        assert(Seq::<u8>::empty() + data@ =~= data@);
    }
    s.hex_digest()
}

/// Law: the digest is a pure function of the file's byte content.
/// Two files with identical bytes hash to the same string, whichever
/// worker computes the digest, and hashing the same unchanged content
/// twice yields the same string both times.
pub proof fn lemma_digest_is_pure(a: Seq<u8>, b: Seq<u8>)
    requires
        a == b,
    ensures
        sha1_hex(a) == sha1_hex(b),
{
}

} // verus!
