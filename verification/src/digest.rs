//! BLAKE3 content hashes, as lowercase hex.
use vstd::prelude::*;
use crate::hex::{encode, hex_encode};

verus! {

#[verifier::external_type_specification]
#[verifier::external_body]
pub struct ExBlake3Hasher(blake3::Hasher);

/// What BLAKE3 returns (32 bytes) for an input.
pub uninterp spec fn blake3_digest(data: Seq<u8>) -> Seq<u8>;

/// The bytes a BLAKE3 hasher has been fed so far.
pub uninterp spec fn hasher_input(h: blake3::Hasher) -> Seq<u8>;

/// Calls `blake3::Hasher::new`: a hasher that has been fed nothing.
#[verifier::external_body]
fn new_hasher() -> (r: blake3::Hasher)
    ensures
        hasher_input(r) == Seq::<u8>::empty(),
{
    blake3::Hasher::new()
}

/// Calls `blake3::Hasher::update`, which appends `data` to the input.
#[verifier::external_body]
fn hasher_update(h: &mut blake3::Hasher, data: &[u8])
    ensures
        hasher_input(*final(h)) == hasher_input(*old(h)) + data@,
{
    h.update(data);
}

/// Calls `blake3::Hasher::finalize`: as the crate documents, the same hash
/// as `blake3::hash` of everything fed in, 32 bytes.
#[verifier::external_body]
fn hasher_finalize(h: &blake3::Hasher) -> (r: [u8; 32])
    ensures
        r@ == blake3_digest(hasher_input(*h)),
{
    *h.finalize().as_bytes()
}

/// Incremental BLAKE3 hashing of content read in pieces.
pub struct ContentHasher {
    inner: blake3::Hasher,
}

impl ContentHasher {
    /// Everything fed in so far.
    pub closed spec fn view(&self) -> Seq<u8> {
        hasher_input(self.inner)
    }

    /// A hasher that has seen nothing.
    pub fn new() -> (r: Self)
        ensures
            r@ == Seq::<u8>::empty(),
    {
        ContentHasher { inner: new_hasher() }
    }

    /// Feeds the next piece of content.
    pub fn update(&mut self, data: &[u8])
        ensures
            final(self)@ == old(self)@ + data@,
    {
        hasher_update(&mut self.inner, data);
    }

    /// The BLAKE3 hash of everything fed in.
    pub fn finish(&self) -> (r: [u8; 32])
        ensures
            r@ == blake3_digest(self@),
    {
        hasher_finalize(&self.inner)
    }

    /// The BLAKE3 hash of everything fed in, as lowercase hex.
    pub fn finish_hex(&self) -> (r: String)
        ensures
            r@ == hex_encode(blake3_digest(self@)),
            r@.len() == 64,
    {
        let digest = self.finish();
        encode(&digest)
    }
}

/// The BLAKE3 hash of `data`, as lowercase hex (what `blake3::hash(..).to_hex()` gives).
pub fn hash_hex(data: &[u8]) -> (r: String)
    ensures
        r@ == hex_encode(blake3_digest(data@)),
        r@.len() == 64,
{
    let mut h = ContentHasher::new();
    h.update(data);
    assert(Seq::<u8>::empty() + data@ =~= data@);
    h.finish_hex()
}

} // verus!
