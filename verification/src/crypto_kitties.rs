//! Cats numbered in order of creation, each with a DNA digest.
use vstd::prelude::*;
use crate::hashing::{blake2_128, blake2_128_of};
use crate::scale::{encode_bytes32, encode_option_u32, encode_u64, option_u32_bytes, u64_le};
use crate::storage::StorageMap;

verus! {

/// A cat: its number and its DNA.
#[derive(Clone, Copy, Debug, PartialEq, Eq)]
pub struct KittyCat {
    pub cat_id: u32,
    pub dna: [u8; 16],
}

/// The bytes hashed into the DNA of a cat: the encoded tuple
/// (random seed, sender, extrinsic index).
pub open spec fn cat_dna_input(seed: [u8; 32], sender: u64, extrinsic_index: Option<u32>) -> Seq<u8> {
    seed@ + u64_le(sender) + option_u32_bytes(extrinsic_index)
}

/// Every stored cat sits under its own number, and that number is below the next one.
pub open spec fn cats_numbered(m: Map<u32, KittyCat>, next_id: u32) -> bool {
    forall|k: u32| #[trigger] m.dom().contains(k) ==> m[k].cat_id == k && k < next_id
}

/// The DNA of a new cat: the 128-bit digest of the encoded tuple
/// (random seed, sender, extrinsic index).
pub fn cat_dna(random_seed: &[u8; 32], sender: u64, extrinsic_index: Option<u32>) -> (dna: [u8; 16])
    ensures
        dna@ == blake2_128_of(cat_dna_input(*random_seed, sender, extrinsic_index)),
{
    let mut bytes = encode_bytes32(random_seed);
    let mut b = encode_u64(sender);
    bytes.append(&mut b);
    let mut c = encode_option_u32(extrinsic_index);
    bytes.append(&mut c);
    assert(bytes@ =~= cat_dna_input(*random_seed, sender, extrinsic_index));
    blake2_128(bytes.as_slice())
}

/// The number of the next cat and the cats by number.
pub struct Module {
    cat_id: u32,
    cat_map: StorageMap<u32, KittyCat>,
}

impl Module {
    /// The stored cats, by number.
    pub closed spec fn cats(&self) -> Map<u32, KittyCat> {
        self.cat_map@
    }

    /// The number the next cat gets.
    pub closed spec fn next_id(&self) -> u32 {
        self.cat_id
    }

    /// No cats; the first one gets number zero.
    pub fn new() -> (s: Self)
        ensures
            s.cats() == Map::<u32, KittyCat>::empty(),
            s.next_id() == 0,
            cats_numbered(s.cats(), s.next_id()),
    {
        Module { cat_id: 0, cat_map: StorageMap::new() }
    }

    /// The number the next cat gets.
    pub fn cat_id_getter(&self) -> (id: u32)
        ensures
            id == self.next_id(),
    {
        self.cat_id
    }

    /// The cat numbered `id`, or the one numbered zero with all-zero DNA where there is none.
    pub fn cat_map_getter(&self, id: u32) -> (cat: KittyCat)
        ensures
            self.cats().dom().contains(id) ==> cat == self.cats()[id],
            !self.cats().dom().contains(id) ==> cat.cat_id == 0 && cat.dna@ == Seq::new(
                16,
                |i: int| 0u8,
            ),
    {
        match self.cat_map.get(&id) {
            Some(cat) => cat,
            None => {
                let cat = KittyCat { cat_id: 0, dna: [0u8; 16] };
                proof {
                    broadcast use vstd::array::group_array_axioms;
                    assert(cat.dna@ =~= Seq::new(16, |i: int| 0u8));
                }
                cat
            },
        }
    }

    /// Stores a cat with the given DNA under the next number and moves the number on.
    pub fn create_cat_with_dna(&mut self, dna: [u8; 16])
        requires
            old(self).next_id() < u32::MAX,
        ensures
            final(self).cats() == old(self).cats().insert(
                old(self).next_id(),
                KittyCat { cat_id: old(self).next_id(), dna },
            ),
            final(self).next_id() == old(self).next_id() + 1,
            cats_numbered(old(self).cats(), old(self).next_id()) ==> cats_numbered(
                final(self).cats(),
                final(self).next_id(),
            ),
    {
        let cur_cat_id = self.cat_id;
        let new_cat = KittyCat { cat_id: cur_cat_id, dna: dna };
        self.cat_map.insert(cur_cat_id, new_cat);
        self.cat_id = cur_cat_id + 1;
    }

    /// Creates a cat for `sender`, its DNA the digest of the encoded tuple
    /// (random seed, sender, extrinsic index).
    pub fn create_cat(&mut self, sender: u64, random_seed: [u8; 32], extrinsic_index: Option<u32>)
        requires
            old(self).next_id() < u32::MAX,
        ensures
            final(self).cats() == old(self).cats().insert(
                old(self).next_id(),
                final(self).cats()[old(self).next_id()],
            ),
            final(self).cats()[old(self).next_id()].cat_id == old(self).next_id(),
            final(self).cats()[old(self).next_id()].dna@ == blake2_128_of(
                cat_dna_input(random_seed, sender, extrinsic_index),
            ),
            final(self).next_id() == old(self).next_id() + 1,
            cats_numbered(old(self).cats(), old(self).next_id()) ==> cats_numbered(
                final(self).cats(),
                final(self).next_id(),
            ),
    {
        let dna = cat_dna(&random_seed, sender, extrinsic_index);
        self.create_cat_with_dna(dna);
    }
}

} // verus!
