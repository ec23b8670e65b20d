//! Digests: the hash primitive, and the two digests derived from the entropy.

use crate::lnpbps::lnpbp4::Lnpbp4Hash;
use vstd::bytes::spec_u64_to_le_bytes;
use vstd::bytes::u64_to_le_bytes;
use vstd::prelude::*;

verus! {

/// The SHA-256 digest of a byte string: 32 bytes.
pub uninterp spec fn sha256_of(data: Seq<u8>) -> Seq<u8>;

/// Calls `bitcoin::hashes::Hash::hash` for `bitcoin::hashes::sha256::Hash` and
/// takes the 32 bytes of the result with `to_byte_array`. Nothing is proved
/// of the hash function. The contract only names its result `sha256_of`, which
/// claims that equal bytes give equal digests.
#[verifier::external_body]
fn sha256_digest(data: &[u8]) -> (digest: Lnpbp4Hash)
    ensures
        digest@ == sha256_of(data@),
{
    let hash: bitcoin::hashes::sha256::Hash = bitcoin::hashes::Hash::hash(data);
    bitcoin::hashes::Hash::to_byte_array(hash)
}

/// The digest of the entropy: the hash of its eight bytes, lowest first.
pub open spec fn entropy_digest(entropy: u64) -> Seq<u8> {
    sha256_of(spec_u64_to_le_bytes(entropy))
}

/// The digest that stands in slot `index` where no message does, given the
/// digest of the entropy: the hash of the index, as eight bytes lowest first,
/// followed by that digest.
pub open spec fn filler_from(index: u64, entropy_digest: Seq<u8>) -> Seq<u8> {
    sha256_of(spec_u64_to_le_bytes(index) + entropy_digest)
}

/// The filler of slot `index` in a commitment made with `entropy`.
pub open spec fn filler(index: u64, entropy: u64) -> Seq<u8> {
    filler_from(index, entropy_digest(entropy))
}

/// Computes the digest of the entropy.
pub fn hash_entropy(entropy: u64) -> (digest: Lnpbp4Hash)
    ensures
        digest@ == entropy_digest(entropy),
{
    let bytes = u64_to_le_bytes(entropy);
    sha256_digest(bytes.as_slice())
}

/// Computes the filler of slot `index` from the digest of the entropy.
pub fn hash_filler(index: u64, entropy_digest: &Lnpbp4Hash) -> (digest: Lnpbp4Hash)
    ensures
        digest@ == filler_from(index, entropy_digest@),
{
    let mut bytes = u64_to_le_bytes(index);
    let mut i: usize = 0;
    while i < 32
        invariant
            i <= 32,
            bytes@ == spec_u64_to_le_bytes(index) + entropy_digest@.subrange(0, i as int),
        decreases 32 - i,
    {
        bytes.push(entropy_digest[i]);
        i += 1;
    }
    assert(entropy_digest@.subrange(0, 32) == entropy_digest@);
    sha256_digest(bytes.as_slice())
}

/// Computes the filler of slot `index` in a commitment made with `entropy`.
pub fn filler_digest(index: u64, entropy: u64) -> (digest: Lnpbp4Hash)
    ensures
        digest@ == filler(index, entropy),
{
    let seed = hash_entropy(entropy);
    hash_filler(index, &seed)
}

/// Whether two digests hold the same bytes.
pub fn same_digest(a: &Lnpbp4Hash, b: &Lnpbp4Hash) -> (same: bool)
    ensures
        same == (a@ == b@),
{
    let mut i: usize = 0;
    while i < 32
        invariant
            i <= 32,
            forall|j: int| 0 <= j < i ==> a@[j] == b@[j],
        decreases 32 - i,
    {
        if a[i] != b[i] {
            return false;
        }
        i += 1;
    }
    assert(a@ =~= b@);
    true
}

} // verus!
