use vstd::prelude::*;

verus! {

/// The hex digest that the hash function assigns to a byte sequence. The
/// digest is a fixed function of the bytes alone: the same bytes always
/// yield the same digest, in every run and on every machine.
pub uninterp spec fn digest_of(data: Seq<u8>) -> Seq<char>;

/// Relies on crypto::sha2::Sha256 through crypto::digest::Digest:
/// `input` feeds the bytes and `result_str` renders the 256-bit digest as
/// 64 hexadecimal characters; the digest depends on the input bytes alone.
#[verifier::external_body]
fn sha256_hex(data: &[u8]) -> (r: String)
    ensures
        r@ == digest_of(data@),
        r@.len() == 64,
{
    let mut hasher = crypto::sha2::Sha256::new();
    crypto::digest::Digest::input(&mut hasher, data);
    crypto::digest::Digest::result_str(&mut hasher)
}

/// The fingerprint of one byte string: its hex digest.
pub fn hash(data: &[u8]) -> (r: String)
    ensures
        r@ == digest_of(data@),
        r@.len() == 64,
{
    sha256_hex(data)
}

/// The identity of a script: the fingerprint of its canonical path text
/// and the fingerprint of its raw content bytes. Reading the file and
/// canonicalizing the path happen at the caller; this computes the pair
/// from the bytes handed in.
pub fn hash_script(path_text: &[u8], content: &[u8]) -> (r: (String, String))
    ensures
        r.0@ == digest_of(path_text@),
        r.1@ == digest_of(content@),
{
    let path_fingerprint = hash(path_text);
    let content_fingerprint = hash(content);
    (path_fingerprint, content_fingerprint)
}

/// Identity determinism: hashing the same path text and the same content
/// bytes a second time yields the identical fingerprint pair, because the
/// digest is a function of the bytes alone.
pub proof fn lemma_identity_deterministic(p1: Seq<u8>, c1: Seq<u8>, p2: Seq<u8>, c2: Seq<u8>)
    requires
        p1 == p2,
        c1 == c2,
    ensures
        digest_of(p1) == digest_of(p2),
        digest_of(c1) == digest_of(c2),
{
}

/// Path independence, the shared half: two scripts with identical bytes
/// share one content fingerprint whatever their paths, and each path
/// fingerprint depends on the path text alone. (That two distinct paths
/// receive distinct fingerprints rests on the hash's collision
/// resistance, which is not a provable statement about `digest_of`.)
pub proof fn lemma_path_independence(pa: Seq<u8>, ca: Seq<u8>, pb: Seq<u8>, cb: Seq<u8>)
    requires
        ca == cb,
    ensures
        digest_of(ca) == digest_of(cb),
        pa == pb ==> digest_of(pa) == digest_of(pb),
{
}

} // verus!
