//! A kitty registry where each new kitty, priced zero, takes its DNA from a digest and is
//! listed among all kitties and among its owner's kitties.
use vstd::prelude::*;
use crate::hashing::{blake2_256_of, digest_256, hash_256};
use crate::registry::{count_of, zero_hash, zero_id, KittyRecord, KittyRegistry, RegistryError};
use crate::scale::{encode_bytes32, encode_u64, u64_le};

verus! {

/// A kitty: its DNA and price.
#[derive(Clone, Copy, Debug, PartialEq, Eq)]
pub struct Kitty {
    pub dna: [u8; 32],
    pub price: u128,
}

impl KittyRecord for Kitty {
    open spec fn blank_spec() -> Self {
        Kitty { dna: zero_id(), price: 0 }
    }

    fn blank() -> (k: Self) {
        Kitty { dna: zero_hash(), price: 0 }
    }
}

/// Why storing a kitty was refused.
#[derive(Clone, Copy, Debug, PartialEq, Eq)]
pub enum SetValueError {
    /// The sender's count of kitties is at its maximum.
    OwnedOverflow,
    /// The count of all kitties is at its maximum.
    TotalOverflow,
}

impl SetValueError {
    /// The message the module reports for the error.
    pub fn message(&self) -> (m: &'static str)
        ensures
            *self == SetValueError::OwnedOverflow ==> m@ == "failed to add all count for own"@,
            *self == SetValueError::TotalOverflow ==> m@ == "failed to add all count"@,
    {
        match self {
            SetValueError::OwnedOverflow => "failed to add all count for own",
            SetValueError::TotalOverflow => "failed to add all count",
        }
    }
}

/// The bytes hashed into a kitty's DNA: the encoded tuple (random seed, sender, timestamp,
/// nonce).
pub open spec fn dna_input(seed: [u8; 32], sender: u64, timestamp: u64, nonce: u64) -> Seq<u8> {
    seed@ + u64_le(sender) + u64_le(timestamp) + u64_le(nonce)
}

/// What storing the kitty with DNA `h` for `sender` does to `reg`: refused, with nothing
/// changed, when the sender's count, then the total count, is at its maximum; otherwise the
/// kitty (DNA `h`, price zero) is added for `sender` under the id `h`. Whether `h` already has an
/// owner is not checked.
pub open spec fn set_value_outcome(
    reg: KittyRegistry<Kitty>,
    new_reg: KittyRegistry<Kitty>,
    sender: u64,
    h: [u8; 32],
    r: Result<(), SetValueError>,
) -> bool {
    if count_of(reg.owned_count_map(), sender) == u64::MAX {
        r == Err::<(), SetValueError>(SetValueError::OwnedOverflow) && new_reg.same_as(&reg)
    } else if reg.total() == u64::MAX {
        r == Err::<(), SetValueError>(SetValueError::TotalOverflow) && new_reg.same_as(&reg)
    } else {
        r is Ok && reg.added(&new_reg, sender, h, Kitty { dna: h, price: 0 })
    }
}

/// A kitty stored by a successful `set_value` has price zero and the hash as DNA, whatever the
/// sender already owns, and belongs to the sender.
pub proof fn lemma_set_value_stores_unpriced_kitty(reg: KittyRegistry<Kitty>, new_reg: KittyRegistry<Kitty>, sender: u64, h: [u8; 32], r: Result<(), SetValueError>)
    requires
        set_value_outcome(reg, new_reg, sender, h, r),
    ensures
        r is Ok ==> new_reg.kitty_map().dom().contains(h) && new_reg.kitty_map()[h].price == 0
            && new_reg.kitty_map()[h].dna == h && new_reg.owner_map()[h] == sender,
{
}

/// The registry.
pub struct Module {
    registry: KittyRegistry<Kitty>,
}

impl Module {
    /// The registry.
    pub closed spec fn reg(&self) -> KittyRegistry<Kitty> {
        self.registry
    }

    /// No kitties.
    pub fn new() -> (m: Self)
        ensures
            m.reg().wf(),
            m.reg().is_empty(),
    {
        Module { registry: KittyRegistry::new() }
    }

    /// The registry, for reading.
    pub fn registry(&self) -> (r: &KittyRegistry<Kitty>)
        ensures
            *r == self.reg(),
    {
        &self.registry
    }

    /// Stores for `sender` the kitty with DNA `random_hash`, under that id.
    pub fn set_value_with_hash(&mut self, sender: u64, random_hash: [u8; 32]) -> (r: Result<(), SetValueError>)
        ensures
            set_value_outcome(old(self).reg(), final(self).reg(), sender, random_hash, r),
            old(self).reg().wf() && !old(self).reg().owner_map().dom().contains(random_hash)
                ==> final(self).reg().wf(),
            r is Ok ==> final(self).reg().kitty_map()[random_hash].price == 0,
            r is Ok ==> final(self).reg().kitty_map()[random_hash].dna == random_hash,
            r is Ok ==> final(self).reg().owner_map()[random_hash] == sender,
    {
        let new_kitty = Kitty { dna: random_hash, price: 0 };
        match self.registry.add(sender, random_hash, new_kitty) {
            Ok(()) => Ok(()),
            Err(RegistryError::OwnedCountOverflow) => Err(SetValueError::OwnedOverflow),
            Err(RegistryError::TotalCountOverflow) => Err(SetValueError::TotalOverflow),
        }
    }

    /// Stores a kitty for `sender`, its DNA and id the 256-bit digest of the encoded tuple
    /// (random seed, sender, timestamp, nonce).
    pub fn set_value(&mut self, sender: u64, random_seed: [u8; 32], timestamp: u64, nonce: u64) -> (r: Result<(), SetValueError>)
        ensures
            digest_256(dna_input(random_seed, sender, timestamp, nonce))@ == blake2_256_of(
                dna_input(random_seed, sender, timestamp, nonce),
            ),
            set_value_outcome(
                old(self).reg(),
                final(self).reg(),
                sender,
                digest_256(dna_input(random_seed, sender, timestamp, nonce)),
                r,
            ),
            old(self).reg().wf() && !old(self).reg().owner_map().dom().contains(
                digest_256(dna_input(random_seed, sender, timestamp, nonce)),
            ) ==> final(self).reg().wf(),
            r is Ok ==> final(self).reg().kitty_map()[digest_256(
                dna_input(random_seed, sender, timestamp, nonce),
            )].price == 0,
    {
        let mut input = encode_bytes32(&random_seed);
        let mut a = encode_u64(sender);
        input.append(&mut a);
        let mut t = encode_u64(timestamp);
        input.append(&mut t);
        let mut n = encode_u64(nonce);
        input.append(&mut n);
        assert(input@ =~= dna_input(random_seed, sender, timestamp, nonce));
        let random_hash = hash_256(input.as_slice());
        self.set_value_with_hash(sender, random_hash)
    }
}

} // verus!
