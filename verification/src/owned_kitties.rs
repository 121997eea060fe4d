//! A kitty registry where each new kitty takes its id and DNA from one digest and is listed
//! among all kitties and among its owner's kitties.
use vstd::prelude::*;
use crate::hashing::{blake2_256_of, digest_256, hash_256};
use crate::registry::{count_of, zero_hash, zero_id, KittyRecord, KittyRegistry, RegistryError};
use crate::scale::{encode_seed_account_number, seed_account_number_bytes};

verus! {

/// A kitty: its id, DNA, price and generation.
#[derive(Clone, Copy, Debug, PartialEq, Eq)]
pub struct Kitty {
    pub id: [u8; 32],
    pub dna: [u8; 32],
    pub price: u64,
    pub generation: u64,
}

impl KittyRecord for Kitty {
    open spec fn blank_spec() -> Self {
        Kitty { id: zero_id(), dna: zero_id(), price: 0, generation: 0 }
    }

    fn blank() -> (k: Self) {
        Kitty { id: zero_hash(), dna: zero_hash(), price: 0, generation: 0 }
    }
}

/// What the module reports.
#[derive(Clone, Copy, Debug, PartialEq, Eq)]
pub enum Event {
    /// A kitty was stored: (owner, kitty id).
    KittyStored(u64, [u8; 32]),
}

/// Why a creation was refused.
#[derive(Clone, Copy, Debug, PartialEq, Eq)]
pub enum CreateError {
    /// The kitty id already has an owner.
    AlreadyExists,
    /// The owner's count of kitties is at its maximum.
    OwnedOverflow,
    /// The count of all kitties is at its maximum.
    TotalOverflow,
}

impl CreateError {
    /// The message the module reports for the error.
    pub fn message(&self) -> (m: &'static str)
        ensures
            *self == CreateError::AlreadyExists ==> m@ == "Kitty exists already!!"@,
            *self == CreateError::OwnedOverflow ==> m@ == "Overflow adding a new kitty !!"@,
            *self == CreateError::TotalOverflow ==> m@
                == "Overflow adding a new kitty to total supply!!!"@,
    {
        match self {
            CreateError::AlreadyExists => "Kitty exists already!!",
            CreateError::OwnedOverflow => "Overflow adding a new kitty !!",
            CreateError::TotalOverflow => "Overflow adding a new kitty to total supply!!!",
        }
    }
}

/// What creating the kitty with id `h` for `who` does to the registry `reg` and the events
/// `events`: refused, with nothing changed, when `h` has an owner, then when the owner's count,
/// then the total count, is at its maximum; otherwise the kitty (id and DNA `h`, price and
/// generation zero) is added for `who` and `KittyStored` reported.
pub open spec fn create_outcome(
    reg: KittyRegistry<Kitty>,
    events: Seq<Event>,
    new_reg: KittyRegistry<Kitty>,
    new_events: Seq<Event>,
    who: u64,
    h: [u8; 32],
    r: Result<(), CreateError>,
) -> bool {
    if reg.owner_map().dom().contains(h) {
        r == Err::<(), CreateError>(CreateError::AlreadyExists) && new_reg.same_as(&reg)
            && new_events == events
    } else if count_of(reg.owned_count_map(), who) == u64::MAX {
        r == Err::<(), CreateError>(CreateError::OwnedOverflow) && new_reg.same_as(&reg)
            && new_events == events
    } else if reg.total() == u64::MAX {
        r == Err::<(), CreateError>(CreateError::TotalOverflow) && new_reg.same_as(&reg)
            && new_events == events
    } else {
        r is Ok && reg.added(&new_reg, who, h, Kitty { id: h, dna: h, price: 0, generation: 0 })
            && new_events == events.push(Event::KittyStored(who, h))
    }
}

/// A successful creation stores, for `who`, the kitty whose id and DNA are the hash, priced
/// zero and of generation zero, and reports it; a refused one reports nothing.
pub proof fn lemma_create_stores_fresh_kitty(
    reg: KittyRegistry<Kitty>,
    events: Seq<Event>,
    new_reg: KittyRegistry<Kitty>,
    new_events: Seq<Event>,
    who: u64,
    h: [u8; 32],
    r: Result<(), CreateError>,
)
    requires
        create_outcome(reg, events, new_reg, new_events, who, h, r),
    ensures
        r is Ok ==> new_reg.kitty_map()[h].id == h && new_reg.kitty_map()[h].dna == h
            && new_reg.kitty_map()[h].price == 0 && new_reg.kitty_map()[h].generation == 0
            && new_reg.owner_map()[h] == who && new_events.last() == Event::KittyStored(who, h),
        r is Err ==> new_events == events,
{
}

/// The registry and the events reported so far.
pub struct Module {
    registry: KittyRegistry<Kitty>,
    events: Vec<Event>,
}

impl Module {
    /// The registry.
    pub closed spec fn reg(&self) -> KittyRegistry<Kitty> {
        self.registry
    }

    /// The events reported so far.
    pub closed spec fn event_log(&self) -> Seq<Event> {
        self.events@
    }

    /// No kitties, no events.
    pub fn new() -> (m: Self)
        ensures
            m.reg().wf(),
            m.reg().is_empty(),
            m.event_log() == Seq::<Event>::empty(),
    {
        Module { registry: KittyRegistry::new(), events: Vec::new() }
    }

    /// The registry, for reading.
    pub fn registry(&self) -> (r: &KittyRegistry<Kitty>)
        ensures
            *r == self.reg(),
    {
        &self.registry
    }

    /// The events reported so far.
    pub fn events(&self) -> (e: &Vec<Event>)
        ensures
            e@ == self.event_log(),
    {
        &self.events
    }

    /// Creates for `who` the kitty whose id and DNA are `random_hash`.
    pub fn create_kitty_with_hash(&mut self, who: u64, random_hash: [u8; 32]) -> (r: Result<(), CreateError>)
        ensures
            create_outcome(
                old(self).reg(),
                old(self).event_log(),
                final(self).reg(),
                final(self).event_log(),
                who,
                random_hash,
                r,
            ),
            old(self).reg().wf() ==> final(self).reg().wf(),
            r is Ok ==> final(self).reg().kitty_map()[random_hash] == (Kitty {
                id: random_hash,
                dna: random_hash,
                price: 0,
                generation: 0,
            }),
            r is Ok ==> final(self).reg().owner_map()[random_hash] == who,
            r is Ok ==> final(self).event_log() == old(self).event_log().push(
                Event::KittyStored(who, random_hash),
            ),
            r is Err ==> final(self).event_log() == old(self).event_log(),
    {
        if self.registry.has_owner(&random_hash) {
            return Err(CreateError::AlreadyExists);
        }
        let new_kitty = Kitty { id: random_hash, dna: random_hash, price: 0, generation: 0 };
        match self.registry.add(who, random_hash, new_kitty) {
            Ok(()) => {},
            Err(RegistryError::OwnedCountOverflow) => {
                return Err(CreateError::OwnedOverflow);
            },
            Err(RegistryError::TotalCountOverflow) => {
                return Err(CreateError::TotalOverflow);
            },
        }
        self.events.push(Event::KittyStored(who, random_hash));
        Ok(())
    }

    /// Creates a kitty for `who`, its id and DNA the 256-bit digest of the encoded tuple
    /// (random seed, who, nonce).
    pub fn create_kitty(&mut self, who: u64, random_seed: [u8; 32], nonce: u64) -> (r: Result<(), CreateError>)
        ensures
            digest_256(seed_account_number_bytes(random_seed, who, nonce))@ == blake2_256_of(
                seed_account_number_bytes(random_seed, who, nonce),
            ),
            create_outcome(
                old(self).reg(),
                old(self).event_log(),
                final(self).reg(),
                final(self).event_log(),
                who,
                digest_256(seed_account_number_bytes(random_seed, who, nonce)),
                r,
            ),
            old(self).reg().wf() ==> final(self).reg().wf(),
            r is Ok ==> final(self).reg().kitty_map()[digest_256(
                seed_account_number_bytes(random_seed, who, nonce),
            )].price == 0,
    {
        let input = encode_seed_account_number(&random_seed, who, nonce);
        let random_hash = hash_256(input.as_slice());
        self.create_kitty_with_hash(who, random_hash)
    }

    /// The kitties of the list of all kitties, in order.
    pub fn get_all_kittys(&self, who: u64) -> (v: Vec<Kitty>)
        ensures
            v@.len() == self.reg().total(),
            forall|n: int|
                0 <= n < v@.len() ==> #[trigger] v@[n] == self.reg().kitty_value(
                    self.reg().all_array_value(n as u64),
                ),
    {
        self.registry.all_kitties()
    }

    /// The kitties of the list of `who`, in order.
    #[allow(non_snake_case)]
    pub fn get_kitties_accountId(&self, who: u64) -> (v: Vec<Kitty>)
        ensures
            v@.len() == count_of(self.reg().owned_count_map(), who),
            forall|n: int|
                0 <= n < v@.len() ==> #[trigger] v@[n] == self.reg().kitty_value(
                    self.reg().owned_array_value(who, n as u64),
                ),
    {
        self.registry.kitties_of(who)
    }
}

} // verus!
