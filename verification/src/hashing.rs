//! Blake2 digests of byte strings, through `sp_core_hashing`.
use vstd::prelude::*;

verus! {

/// The 128-bit Blake2b digest of `data`.
pub uninterp spec fn blake2_128_of(data: Seq<u8>) -> Seq<u8>;

/// The 256-bit Blake2b digest of `data`.
pub uninterp spec fn blake2_256_of(data: Seq<u8>) -> Seq<u8>;

/// Calls `sp_core_hashing::blake2_128`, the 128-bit Blake2b digest; the result depends on the
/// bytes of `data` alone.
#[verifier::external_body]
pub(crate) fn blake2_128(data: &[u8]) -> (digest: [u8; 16])
    ensures
        digest@ == blake2_128_of(data@),
{
    sp_core_hashing::blake2_128(data)
}

/// Calls `sp_core_hashing::blake2_256`, the 256-bit Blake2b digest; the result depends on the
/// bytes of `data` alone.
#[verifier::external_body]
pub(crate) fn blake2_256(data: &[u8]) -> (digest: [u8; 32])
    ensures
        digest@ == blake2_256_of(data@),
{
    sp_core_hashing::blake2_256(data)
}

/// The 128-bit digest of `data` as an array.
pub open spec fn digest_128(data: Seq<u8>) -> [u8; 16] {
    choose|d: [u8; 16]| d@ == blake2_128_of(data)
}

/// The 256-bit digest of `data` as an array.
pub open spec fn digest_256(data: Seq<u8>) -> [u8; 32] {
    choose|d: [u8; 32]| d@ == blake2_256_of(data)
}

/// The 128-bit Blake2b digest of `data`.
pub fn hash_128(data: &[u8]) -> (digest: [u8; 16])
    ensures
        digest == digest_128(data@),
        digest@ == blake2_128_of(data@),
{
    let digest = blake2_128(data);
    proof {
        broadcast use vstd::array::group_array_axioms;
        let d = digest_128(data@);
        assert(d@ == blake2_128_of(data@));
        assert(digest =~= d);
    }
    digest
}

/// The 256-bit Blake2b digest of `data`.
pub fn hash_256(data: &[u8]) -> (digest: [u8; 32])
    ensures
        digest == digest_256(data@),
        digest@ == blake2_256_of(data@),
{
    let digest = blake2_256(data);
    proof {
        broadcast use vstd::array::group_array_axioms;
        let d = digest_256(data@);
        assert(d@ == blake2_256_of(data@));
        assert(digest =~= d);
    }
    digest
}

} // verus!
