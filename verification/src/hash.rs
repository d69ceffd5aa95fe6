//! Content hashing of media files (BLAKE3), used to recognise a file that
//! was already imported, whatever its name or place.

use vstd::prelude::*;

verus! {

/// blake3's incremental hasher, carried opaquely.
#[verifier::external_type_specification]
#[verifier::external_body]
pub struct ExHasher(blake3::Hasher);

/// The bytes a hasher has been fed so far.
pub uninterp spec fn hashed_bytes(h: blake3::Hasher) -> Seq<u8>;

/// The BLAKE3 hash of `data` in lowercase hexadecimal.
pub uninterp spec fn blake3_hex(data: Seq<u8>) -> Seq<char>;

/// blake3 `Hasher::new`: a hasher for the regular hash function that has
/// been fed nothing.
#[verifier::external_body]
fn hasher_new() -> (h: blake3::Hasher)
    ensures
        hashed_bytes(h) == Seq::<u8>::empty(),
{
    blake3::Hasher::new()
}

/// blake3 `Hasher::update`: feeds `chunk` after what the hasher already had.
#[verifier::external_body]
fn hasher_update(h: &mut blake3::Hasher, chunk: &[u8])
    ensures
        hashed_bytes(*final(h)) == hashed_bytes(*old(h)) + chunk@,
{
    h.update(chunk);
}

/// blake3 `Hasher::finalize` then `Hash::to_hex`: the hash of everything fed
/// so far, as 64 lowercase hexadecimal digits (two per byte of the 32-byte
/// hash). Which digits they are is the name `blake3_hex`.
#[verifier::external_body]
fn hasher_hex(h: &blake3::Hasher) -> (r: String)
    ensures
        r@ == blake3_hex(hashed_bytes(*h)),
        r@.len() == 64,
{
    h.finalize().to_hex().to_string()
}

/// A content hash being computed over a file read in chunks.
pub struct ContentHasher {
    h: blake3::Hasher,
}

impl ContentHasher {
    /// The bytes fed so far.
    pub closed spec fn fed(&self) -> Seq<u8> {
        hashed_bytes(self.h)
    }

    /// A hasher that has been fed nothing.
    pub fn new() -> (s: Self)
        ensures
            s.fed() == Seq::<u8>::empty(),
    {
        ContentHasher { h: hasher_new() }
    }

    /// Feed the next chunk of the content.
    pub fn feed(&mut self, chunk: &[u8])
        ensures
            final(self).fed() == old(self).fed() + chunk@,
    {
        hasher_update(&mut self.h, chunk);
    }

    /// The content hash of everything fed, in lowercase hexadecimal.
    pub fn hex(&self) -> (r: String)
        ensures
            r@ == blake3_hex(self.fed()),
            r@.len() == 64,
    {
        hasher_hex(&self.h)
    }
}

/// The content hash of `data`: the same as feeding it in any chunks.
pub fn hash_bytes(data: &[u8]) -> (r: String)
    ensures
        r@ == blake3_hex(data@),
        r@.len() == 64,
{
    let mut h = ContentHasher::new();
    h.feed(data);
    assert(h.fed() =~= data@);
    h.hex()
}

} // verus!
