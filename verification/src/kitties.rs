//! Kitties numbered from zero, each holding a 128-bit DNA; new ones are created from a digest or
//! bred from two parents.
use vstd::prelude::*;
use crate::hashing::{blake2_128, blake2_128_of};
use crate::scale::{encode_bytes32, encode_option_u32, encode_u64, option_u32_bytes, u64_le};
use crate::storage::StorageMap;

verus! {

/// A kitty: its DNA.
#[derive(Clone, Copy, Debug, PartialEq, Eq)]
pub struct Kitty(pub [u8; 16]);

/// Why a call was refused.
#[derive(Clone, Copy, Debug, PartialEq, Eq)]
pub enum KittyError {
    /// The count of kitties is at its maximum.
    CountOverflow,
    /// The first parent does not exist.
    Kitty1NotExist,
    /// The second parent does not exist.
    Kitty2NotExist,
    /// Both parents are the same kitty.
    SameParents,
    /// The count could not be raised after creating a kitty.
    CreateOverflow,
    /// The count could not be raised after breeding a kitty.
    BreedOverflow,
}

impl KittyError {
    /// The message the module reports for the error.
    pub fn message(&self) -> (m: &'static str)
        ensures
            *self == KittyError::CountOverflow ==> m@ == "Kitties count overflow"@,
            *self == KittyError::Kitty1NotExist ==> m@ == "Kitty_1 not exist"@,
            *self == KittyError::Kitty2NotExist ==> m@ == "Kitty_2 not exist"@,
            *self == KittyError::SameParents ==> m@
                == "Kitty cound not be breeded from same parents"@,
            *self == KittyError::CreateOverflow ==> m@ == "Overflow creating a new one to all"@,
            *self == KittyError::BreedOverflow ==> m@ == "Overflow breedig a new one to all"@,
    {
        match self {
            KittyError::CountOverflow => "Kitties count overflow",
            KittyError::Kitty1NotExist => "Kitty_1 not exist",
            KittyError::Kitty2NotExist => "Kitty_2 not exist",
            KittyError::SameParents => "Kitty cound not be breeded from same parents",
            KittyError::CreateOverflow => "Overflow creating a new one to all",
            KittyError::BreedOverflow => "Overflow breedig a new one to all",
        }
    }
}

/// The bytes hashed into the DNA of a created kitty: the encoded tuple
/// (random seed, sender, extrinsic index, block number).
pub open spec fn create_input(seed: [u8; 32], sender: u64, extrinsic_index: Option<u32>, block_number: u64) -> Seq<u8> {
    seed@ + u64_le(sender) + option_u32_bytes(extrinsic_index) + u64_le(block_number)
}

/// The bytes hashed into the gene selector of a breeding: the encoded tuple
/// (random seed, block number, sender).
pub open spec fn breed_input(seed: [u8; 32], block_number: u64, sender: u64) -> Seq<u8> {
    seed@ + u64_le(block_number) + u64_le(sender)
}

/// The DNA of a child: gene `i` comes from the second parent where byte `i` of the selector is
/// even, from the first parent where it is odd.
pub open spec fn mixed_dna(dna1: Seq<u8>, dna2: Seq<u8>, selector: Seq<u8>) -> Seq<u8> {
    Seq::new(16, |i: int| if selector[i] % 2 == 0 { dna2[i] } else { dna1[i] })
}

/// The kitties are keyed exactly by the numbers below the count.
pub open spec fn keys_are_indices(m: Map<u32, Kitty>, count: u32) -> bool {
    forall|k: u32| #[trigger] m.dom().contains(k) <==> k < count
}

/// The error a breeding of `id1` and `id2` is refused with, if any, checked in order.
pub open spec fn breed_refusal(m: Map<u32, Kitty>, count: u32, id1: u32, id2: u32) -> Option<KittyError> {
    if count == u32::MAX {
        Some(KittyError::CountOverflow)
    } else if !m.dom().contains(id1) {
        Some(KittyError::Kitty1NotExist)
    } else if !m.dom().contains(id2) {
        Some(KittyError::Kitty2NotExist)
    } else if id1 == id2 {
        Some(KittyError::SameParents)
    } else {
        None
    }
}

/// Mixes the DNA of two parents, gene by gene, as the selector says.
pub fn mix_dna(dna1: &[u8; 16], dna2: &[u8; 16], selector: &[u8; 16]) -> (child: [u8; 16])
    ensures
        child@ == mixed_dna(dna1@, dna2@, selector@),
        forall|i: int| 0 <= i < 16 ==> child[i] == dna1[i] || child[i] == dna2[i],
        forall|i: int| 0 <= i < 16 && selector[i] % 2 == 0 ==> child[i] == dna2[i],
        forall|i: int| 0 <= i < 16 && selector[i] % 2 == 1 ==> child[i] == dna1[i],
{
    let mut child = *dna1;
    let mut i: usize = 0;
    while i < 16
        invariant
            0 <= i <= 16,
            forall|j: int| 0 <= j < i ==> child[j] == mixed_dna(dna1@, dna2@, selector@)[j],
            forall|j: int| i <= j < 16 ==> child[j] == dna1[j],
        decreases 16 - i,
    {
        if selector[i] % 2 == 0 {
            child[i] = dna2[i];
        }
        i = i + 1;
    }
    assert(child@ =~= mixed_dna(dna1@, dna2@, selector@));
    child
}

/// Gene `i` of a child is the second parent's gene where selector byte `i` is even and the
/// first parent's where it is odd, whatever the gene values.
pub proof fn lemma_child_gene_by_selector(dna1: Seq<u8>, dna2: Seq<u8>, selector: Seq<u8>, i: int)
    requires
        0 <= i < 16,
    ensures
        selector[i] % 2 == 0 ==> mixed_dna(dna1, dna2, selector)[i] == dna2[i],
        selector[i] % 2 == 1 ==> mixed_dna(dna1, dna2, selector)[i] == dna1[i],
        mixed_dna(dna1, dna2, selector).len() == 16,
{
}

/// Swapping the parents and flipping the parity of every selector byte gives the same child;
/// an all-even selector gives the second parent's DNA, an all-odd one the first parent's.
pub proof fn lemma_mix_swap_parents(dna1: Seq<u8>, dna2: Seq<u8>, selector: Seq<u8>, flipped: Seq<u8>)
    requires
        dna1.len() == 16,
        dna2.len() == 16,
        forall|i: int| 0 <= i < 16 ==> #[trigger] (selector[i] % 2) != flipped[i] % 2,
    ensures
        mixed_dna(dna1, dna2, selector) == mixed_dna(dna2, dna1, flipped),
        (forall|i: int| 0 <= i < 16 ==> #[trigger] selector[i] % 2 == 0) ==> mixed_dna(
            dna1,
            dna2,
            selector,
        ) == dna2,
        (forall|i: int| 0 <= i < 16 ==> #[trigger] selector[i] % 2 == 1) ==> mixed_dna(
            dna1,
            dna2,
            selector,
        ) == dna1,
{
    assert forall|i: int| 0 <= i < 16 implies mixed_dna(dna1, dna2, selector)[i] == mixed_dna(
        dna2,
        dna1,
        flipped,
    )[i] by {
        assert((selector[i] % 2) != flipped[i] % 2);
    }
    assert(mixed_dna(dna1, dna2, selector) =~= mixed_dna(dna2, dna1, flipped));
    if forall|i: int| 0 <= i < 16 ==> #[trigger] selector[i] % 2 == 0 {
        assert(mixed_dna(dna1, dna2, selector) =~= dna2);
    }
    if forall|i: int| 0 <= i < 16 ==> #[trigger] selector[i] % 2 == 1 {
        assert(mixed_dna(dna1, dna2, selector) =~= dna1);
    }
}

/// Every gene of a child comes from one of its parents.
pub proof fn lemma_child_genes_from_parents(dna1: Seq<u8>, dna2: Seq<u8>, selector: Seq<u8>, i: int)
    requires
        0 <= i < 16,
    ensures
        mixed_dna(dna1, dna2, selector)[i] == dna1[i] || mixed_dna(dna1, dna2, selector)[i]
            == dna2[i],
{
}

/// The DNA of a created kitty: the 128-bit digest of the encoded tuple
/// (random seed, sender, extrinsic index, block number).
pub fn created_dna(random_seed: &[u8; 32], sender: u64, extrinsic_index: Option<u32>, block_number: u64) -> (dna: [u8; 16])
    ensures
        dna@ == blake2_128_of(create_input(*random_seed, sender, extrinsic_index, block_number)),
{
    let mut bytes = encode_bytes32(random_seed);
    let mut b = encode_u64(sender);
    bytes.append(&mut b);
    let mut c = encode_option_u32(extrinsic_index);
    bytes.append(&mut c);
    let mut d = encode_u64(block_number);
    bytes.append(&mut d);
    assert(bytes@ =~= create_input(*random_seed, sender, extrinsic_index, block_number));
    blake2_128(bytes.as_slice())
}

/// The selector of a breeding: the 128-bit digest of the encoded tuple
/// (random seed, block number, sender).
pub fn breed_selector(random_seed: &[u8; 32], block_number: u64, sender: u64) -> (selector: [u8; 16])
    ensures
        selector@ == blake2_128_of(breed_input(*random_seed, block_number, sender)),
{
    let mut bytes = encode_bytes32(random_seed);
    let mut b = encode_u64(block_number);
    bytes.append(&mut b);
    let mut c = encode_u64(sender);
    bytes.append(&mut c);
    assert(bytes@ =~= breed_input(*random_seed, block_number, sender));
    blake2_128(bytes.as_slice())
}

/// The kitties and their count, which is also the number of the next kitty.
pub struct Module {
    kitties: StorageMap<u32, Kitty>,
    kitties_count: u32,
}

impl Module {
    /// The stored kitties, by number.
    pub closed spec fn kitty_map(&self) -> Map<u32, Kitty> {
        self.kitties@
    }

    /// The stored count.
    pub closed spec fn count(&self) -> u32 {
        self.kitties_count
    }

    /// No kitties, count zero.
    pub fn new() -> (s: Self)
        ensures
            s.kitty_map() == Map::<u32, Kitty>::empty(),
            s.count() == 0,
            keys_are_indices(s.kitty_map(), s.count()),
    {
        Module { kitties: StorageMap::new(), kitties_count: 0 }
    }

    /// The kitty numbered `id`, or the one with all-zero DNA where there is none.
    pub fn kitty(&self, id: u32) -> (k: Kitty)
        ensures
            self.kitty_map().dom().contains(id) ==> k == self.kitty_map()[id],
            !self.kitty_map().dom().contains(id) ==> k.0@ == Seq::new(16, |i: int| 0u8),
    {
        match self.kitties.get(&id) {
            Some(k) => k,
            None => {
                let k = Kitty([0u8; 16]);
                proof {
                    broadcast use vstd::array::group_array_axioms;
                    assert(k.0@ =~= Seq::new(16, |i: int| 0u8));
                }
                k
            },
        }
    }

    /// The stored count.
    pub fn kitties_count(&self) -> (c: u32)
        ensures
            c == self.count(),
    {
        self.kitties_count
    }

    /// Stores a kitty with the given DNA under the next number and raises the count.
    pub fn create_with_dna(&mut self, dna: [u8; 16]) -> (r: Result<(), KittyError>)
        ensures
            old(self).count() == u32::MAX ==> r == Err::<(), KittyError>(KittyError::CountOverflow)
                && final(self).kitty_map() == old(self).kitty_map() && final(self).count() == old(
                self,
            ).count(),
            old(self).count() < u32::MAX ==> r is Ok && final(self).kitty_map() == old(
                self,
            ).kitty_map().insert(old(self).count(), Kitty(dna)) && final(self).count() == old(
                self,
            ).count() + 1,
            keys_are_indices(old(self).kitty_map(), old(self).count()) ==> keys_are_indices(
                final(self).kitty_map(),
                final(self).count(),
            ),
    {
        let count = self.kitties_count;
        if count == u32::MAX {
            return Err(KittyError::CountOverflow);
        }
        self.kitties.insert(count, Kitty(dna));
        let new_count = match count.checked_add(1) {
            Some(c) => c,
            None => {
                return Err(KittyError::CreateOverflow);
            },
        };
        self.kitties_count = new_count;
        Ok(())
    }

    /// Creates a kitty for `sender`, its DNA the digest of the encoded tuple
    /// (random seed, sender, extrinsic index, block number).
    pub fn create(&mut self, sender: u64, random_seed: [u8; 32], extrinsic_index: Option<u32>, block_number: u64) -> (r: Result<(), KittyError>)
        ensures
            old(self).count() == u32::MAX ==> r == Err::<(), KittyError>(KittyError::CountOverflow)
                && final(self).kitty_map() == old(self).kitty_map() && final(self).count() == old(
                self,
            ).count(),
            old(self).count() < u32::MAX ==> r is Ok && final(self).kitty_map() == old(
                self,
            ).kitty_map().insert(old(self).count(), final(self).kitty_map()[old(self).count()])
                && final(self).kitty_map()[old(self).count()].0@ == blake2_128_of(
                create_input(random_seed, sender, extrinsic_index, block_number),
            ) && final(self).count() == old(self).count() + 1,
            keys_are_indices(old(self).kitty_map(), old(self).count()) ==> keys_are_indices(
                final(self).kitty_map(),
                final(self).count(),
            ),
    {
        if self.kitties_count == u32::MAX {
            return Err(KittyError::CountOverflow);
        }
        let dna = created_dna(&random_seed, sender, extrinsic_index, block_number);
        self.create_with_dna(dna)
    }

    /// Breeds `kitty_id_1` with `kitty_id_2` as the selector says and stores the child under
    /// the next number.
    pub fn breed_with_selector(&mut self, kitty_id_1: u32, kitty_id_2: u32, selector: [u8; 16]) -> (r: Result<(), KittyError>)
        ensures
            ({
                let m = old(self).kitty_map();
                let c = old(self).count();
                match breed_refusal(m, c, kitty_id_1, kitty_id_2) {
                    Some(e) => r == Err::<(), KittyError>(e) && final(self).kitty_map() == m
                        && final(self).count() == c,
                    None => r is Ok && final(self).count() == c + 1 && final(self).kitty_map()
                        == m.insert(c, final(self).kitty_map()[c]) && final(self).kitty_map()[c].0@
                        == mixed_dna(m[kitty_id_1].0@, m[kitty_id_2].0@, selector@),
                }
            }),
            r is Ok ==> forall|i: int|
                0 <= i < 16 ==> #[trigger] final(self).kitty_map()[old(self).count()].0[i] == if
                    selector[i] % 2 == 0 {
                    old(self).kitty_map()[kitty_id_2].0[i]
                } else {
                    old(self).kitty_map()[kitty_id_1].0[i]
                },
            keys_are_indices(old(self).kitty_map(), old(self).count()) ==> keys_are_indices(
                final(self).kitty_map(),
                final(self).count(),
            ),
    {
        let count = self.kitties_count;
        if count == u32::MAX {
            return Err(KittyError::CountOverflow);
        }
        let parent1 = match self.kitties.get(&kitty_id_1) {
            Some(k) => k,
            None => {
                return Err(KittyError::Kitty1NotExist);
            },
        };
        let parent2 = match self.kitties.get(&kitty_id_2) {
            Some(k) => k,
            None => {
                return Err(KittyError::Kitty2NotExist);
            },
        };
        if kitty_id_1 == kitty_id_2 {
            return Err(KittyError::SameParents);
        }
        let final_dna = mix_dna(&parent1.0, &parent2.0, &selector);
        self.kitties.insert(count, Kitty(final_dna));
        let new_count = match count.checked_add(1) {
            Some(c) => c,
            None => {
                return Err(KittyError::BreedOverflow);
            },
        };
        self.kitties_count = new_count;
        Ok(())
    }

    /// Breeds `kitty_id_1` with `kitty_id_2` for `sender`, genes picked by the digest of the
    /// encoded tuple (random seed, block number, sender).
    pub fn breed_kitty(&mut self, sender: u64, kitty_id_1: u32, kitty_id_2: u32, random_seed: [u8; 32], block_number: u64) -> (r: Result<(), KittyError>)
        ensures
            ({
                let m = old(self).kitty_map();
                let c = old(self).count();
                match breed_refusal(m, c, kitty_id_1, kitty_id_2) {
                    Some(e) => r == Err::<(), KittyError>(e) && final(self).kitty_map() == m
                        && final(self).count() == c,
                    None => r is Ok && final(self).count() == c + 1 && final(self).kitty_map()
                        == m.insert(c, final(self).kitty_map()[c]) && final(self).kitty_map()[c].0@
                        == mixed_dna(
                        m[kitty_id_1].0@,
                        m[kitty_id_2].0@,
                        blake2_128_of(breed_input(random_seed, block_number, sender)),
                    ),
                }
            }),
            keys_are_indices(old(self).kitty_map(), old(self).count()) ==> keys_are_indices(
                final(self).kitty_map(),
                final(self).count(),
            ),
    {
        let selector = breed_selector(&random_seed, block_number, sender);
        self.breed_with_selector(kitty_id_1, kitty_id_2, selector)
    }
}

} // verus!
