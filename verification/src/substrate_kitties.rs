//! A kitty registry where each kitty is minted to one owner and listed among all kitties and
//! among its owner's kitties.
use vstd::prelude::*;
use crate::hashing::{blake2_128_of, blake2_256_of, digest_128, digest_256, hash_128, hash_256};
use crate::registry::{count_of, zero_hash, zero_id, KittyRecord, KittyRegistry, RegistryError};
use crate::scale::{encode_seed_account_number, le_value, seed_account_number_bytes, u128_from_le};

verus! {

/// A kitty: its id, DNA, price and generation.
#[derive(Clone, Copy, Debug, PartialEq, Eq)]
pub struct Kitty {
    pub id: [u8; 32],
    pub dna: u128,
    pub price: u128,
    pub gen: u64,
}

impl KittyRecord for Kitty {
    open spec fn blank_spec() -> Self {
        Kitty { id: zero_id(), dna: 0, price: 0, gen: 0 }
    }

    fn blank() -> (k: Self) {
        Kitty { id: zero_hash(), dna: 0, price: 0, gen: 0 }
    }
}

/// What the module reports.
#[derive(Clone, Copy, Debug, PartialEq, Eq)]
pub enum Event {
    /// A kitty was created: (owner, kitty id).
    Created(u64, [u8; 32]),
}

/// Why minting was refused.
#[derive(Clone, Copy, Debug, PartialEq, Eq)]
pub enum MintError {
    /// The kitty id already has an owner.
    AlreadyExists,
    /// The owner's count of kitties is at its maximum.
    OwnedOverflow,
    /// The count of all kitties is at its maximum.
    TotalOverflow,
}

impl MintError {
    /// The message the module reports for the error.
    pub fn message(&self) -> (m: &'static str)
        ensures
            *self == MintError::AlreadyExists ==> m@ == "Kitty already exists"@,
            *self == MintError::OwnedOverflow ==> m@
                == "Overflow adding a new kitty to account balance"@,
            *self == MintError::TotalOverflow ==> m@ == "Overflow adding a new kitty to total supply"@,
    {
        match self {
            MintError::AlreadyExists => "Kitty already exists",
            MintError::OwnedOverflow => "Overflow adding a new kitty to account balance",
            MintError::TotalOverflow => "Overflow adding a new kitty to total supply",
        }
    }
}

/// The kitty a creation makes from its two digests: id the 256-bit one, DNA the 128-bit one
/// read as a little-endian number, price and generation zero.
pub open spec fn new_kitty(id: [u8; 32], dna_random: [u8; 16]) -> Kitty {
    Kitty { id, dna: le_value(dna_random@) as u128, price: 0, gen: 0 }
}

/// Minting `kitty_id` to `to` is refused: the id has an owner, or the owner's count or the total
/// count is at its maximum.
pub open spec fn mint_refused(reg: KittyRegistry<Kitty>, to: u64, kitty_id: [u8; 32]) -> bool {
    ||| reg.owner_map().dom().contains(kitty_id)
    ||| count_of(reg.owned_count_map(), to) == u64::MAX
    ||| reg.total() == u64::MAX
}

/// The registry, the nonce that seeds new kitty ids, and the events reported so far.
pub struct Module {
    registry: KittyRegistry<Kitty>,
    nonce: u64,
    events: Vec<Event>,
}

/// What `mint(to, kitty_id, kitty)` does to the registry `reg` and the events `events`, giving
/// `new_reg`, `new_events` and `r`: refused, with nothing changed, when the id has an owner,
/// then when the owner's count, then the total count, is at its maximum; otherwise the kitty is
/// added to the registry for `to` and `Created` reported.
pub open spec fn mint_outcome(
    reg: KittyRegistry<Kitty>,
    events: Seq<Event>,
    new_reg: KittyRegistry<Kitty>,
    new_events: Seq<Event>,
    to: u64,
    kitty_id: [u8; 32],
    kitty: Kitty,
    r: Result<(), MintError>,
) -> bool {
    if reg.owner_map().dom().contains(kitty_id) {
        r == Err::<(), MintError>(MintError::AlreadyExists) && new_reg.same_as(&reg) && new_events
            == events
    } else if count_of(reg.owned_count_map(), to) == u64::MAX {
        r == Err::<(), MintError>(MintError::OwnedOverflow) && new_reg.same_as(&reg) && new_events
            == events
    } else if reg.total() == u64::MAX {
        r == Err::<(), MintError>(MintError::TotalOverflow) && new_reg.same_as(&reg) && new_events
            == events
    } else {
        r is Ok && reg.added(&new_reg, to, kitty_id, kitty) && new_events == events.push(
            Event::Created(to, kitty_id),
        )
    }
}

/// What `create_kitty` does with the digests `id` and `dna_random`: the kitty they make is
/// minted to `sender`, and on success the nonce moves on.
pub open spec fn create_outcome(old: Module, new: Module, sender: u64, id: [u8; 32], dna_random: [u8; 16], r: Result<(), MintError>) -> bool {
    &&& mint_outcome(
        old.reg(),
        old.event_log(),
        new.reg(),
        new.event_log(),
        sender,
        id,
        new_kitty(id, dna_random),
        r,
    )
    &&& r is Ok ==> new.nonce_value() == old.nonce_value() + 1
    &&& r is Err ==> new.nonce_value() == old.nonce_value()
}

/// A creation that succeeds moves the nonce on by exactly one, whatever the sender's count of
/// kitties, and stores a kitty with price and generation zero owned by the sender; one that is
/// refused leaves the nonce as it was.
pub proof fn lemma_create_advances_nonce(old: Module, new: Module, sender: u64, id: [u8; 32], dna_random: [u8; 16], r: Result<(), MintError>)
    requires
        create_outcome(old, new, sender, id, dna_random, r),
    ensures
        r is Ok ==> new.nonce_value() == old.nonce_value() + 1,
        r is Err ==> new.nonce_value() == old.nonce_value(),
        r is Ok ==> new.reg().kitty_map()[id].price == 0 && new.reg().kitty_map()[id].gen == 0
            && new.reg().kitty_map()[id].id == id && new.reg().owner_map()[id] == sender,
{
}

impl Module {
    /// The registry.
    pub closed spec fn reg(&self) -> KittyRegistry<Kitty> {
        self.registry
    }

    /// The stored nonce.
    pub closed spec fn nonce_value(&self) -> u64 {
        self.nonce
    }

    /// The events reported so far.
    pub closed spec fn event_log(&self) -> Seq<Event> {
        self.events@
    }

    /// No kitties, nonce zero, no events.
    pub fn new() -> (m: Self)
        ensures
            m.reg().wf(),
            m.reg().is_empty(),
            m.nonce_value() == 0,
            m.event_log() == Seq::<Event>::empty(),
    {
        Module { registry: KittyRegistry::new(), nonce: 0, events: Vec::new() }
    }

    /// The registry, for reading.
    pub fn registry(&self) -> (r: &KittyRegistry<Kitty>)
        ensures
            *r == self.reg(),
    {
        &self.registry
    }

    /// The stored nonce.
    pub fn nonce(&self) -> (n: u64)
        ensures
            n == self.nonce_value(),
    {
        self.nonce
    }

    /// The events reported so far.
    pub fn events(&self) -> (e: &Vec<Event>)
        ensures
            e@ == self.event_log(),
    {
        &self.events
    }

    /// Gives `to` the kitty `new_kitty` under `kitty_id` and reports `Created`.
    pub fn mint(&mut self, to: u64, kitty_id: [u8; 32], new_kitty: Kitty) -> (r: Result<(), MintError>)
        ensures
            mint_outcome(
                old(self).reg(),
                old(self).event_log(),
                final(self).reg(),
                final(self).event_log(),
                to,
                kitty_id,
                new_kitty,
                r,
            ),
            final(self).nonce_value() == old(self).nonce_value(),
            old(self).reg().wf() ==> final(self).reg().wf(),
            r is Ok ==> final(self).reg().kitty_map()[kitty_id] == new_kitty,
            r is Ok ==> final(self).reg().owner_map()[kitty_id] == to,
            r is Ok ==> final(self).event_log() == old(self).event_log().push(
                Event::Created(to, kitty_id),
            ),
            r is Err ==> final(self).event_log() == old(self).event_log(),
    {
        if self.registry.has_owner(&kitty_id) {
            return Err(MintError::AlreadyExists);
        }
        match self.registry.add(to, kitty_id, new_kitty) {
            Ok(()) => {},
            Err(RegistryError::OwnedCountOverflow) => {
                return Err(MintError::OwnedOverflow);
            },
            Err(RegistryError::TotalCountOverflow) => {
                return Err(MintError::TotalOverflow);
            },
        }
        self.events.push(Event::Created(to, kitty_id));
        Ok(())
    }

    /// Creates the kitty that the digests `random_hash` and `dna_random` make, for `sender`,
    /// and on success moves the nonce on.
    pub fn create_kitty_from_hashes(&mut self, sender: u64, random_hash: [u8; 32], dna_random: [u8; 16]) -> (r: Result<(), MintError>)
        requires
            old(self).nonce_value() < u64::MAX || mint_refused(old(self).reg(), sender, random_hash),
        ensures
            create_outcome(*old(self), *final(self), sender, random_hash, dna_random, r),
            old(self).reg().wf() ==> final(self).reg().wf(),
            r is Ok ==> final(self).nonce_value() == old(self).nonce_value() + 1,
            r is Err ==> final(self).nonce_value() == old(self).nonce_value(),
            r is Ok ==> final(self).reg().owner_map()[random_hash] == sender,
            r is Ok ==> final(self).reg().kitty_map()[random_hash].id == random_hash
                && final(self).reg().kitty_map()[random_hash].price == 0
                && final(self).reg().kitty_map()[random_hash].gen == 0
                && final(self).reg().kitty_map()[random_hash].dna as nat == le_value(dna_random@),
            r is Ok ==> final(self).event_log() == old(self).event_log().push(
                Event::Created(sender, random_hash),
            ),
    {
        let new_kitty = Kitty { id: random_hash, dna: u128_from_le(&dna_random), price: 0, gen: 0 };
        let r = self.mint(sender, random_hash, new_kitty);
        if r.is_err() {
            return r;
        }
        self.nonce = self.nonce + 1;
        r
    }

    /// Creates a kitty for `sender`: its id is the 256-bit digest, its DNA the 128-bit digest
    /// read as a little-endian number, of the encoded tuple (random seed, sender, nonce); on
    /// success the nonce moves on.
    pub fn create_kitty(&mut self, sender: u64, random_seed: [u8; 32]) -> (r: Result<(), MintError>)
        requires
            old(self).nonce_value() < u64::MAX || mint_refused(
                old(self).reg(),
                sender,
                digest_256(seed_account_number_bytes(random_seed, sender, old(self).nonce_value())),
            ),
        ensures
            ({
                let input = seed_account_number_bytes(random_seed, sender, old(self).nonce_value());
                &&& digest_256(input)@ == blake2_256_of(input)
                &&& digest_128(input)@ == blake2_128_of(input)
            }),
            ({
                let input = seed_account_number_bytes(random_seed, sender, old(self).nonce_value());
                create_outcome(
                    *old(self),
                    *final(self),
                    sender,
                    digest_256(input),
                    digest_128(input),
                    r,
                )
            }),
            r is Ok ==> final(self).nonce_value() == old(self).nonce_value() + 1,
            r is Err ==> final(self).nonce_value() == old(self).nonce_value(),
            r is Ok ==> final(self).reg().kitty_map()[digest_256(
                seed_account_number_bytes(random_seed, sender, old(self).nonce_value()),
            )].price == 0,
            old(self).reg().wf() ==> final(self).reg().wf(),
    {
        let input = encode_seed_account_number(&random_seed, sender, self.nonce);
        let random_hash = hash_256(input.as_slice());
        let dna_random = hash_128(input.as_slice());
        self.create_kitty_from_hashes(sender, random_hash, dna_random)
    }

    /// Calls `create_kitty(sender, random_seed)` where it ends without moving the nonce past its
    /// maximum: the nonce is below its maximum, or the mint is refused. Elsewhere (where the
    /// nonce would overflow) it makes no call, changes nothing and gives `None`.
    pub fn try_create_kitty(&mut self, sender: u64, random_seed: [u8; 32]) -> (r: Option<Result<(), MintError>>)
        ensures
            ({
                let input = seed_account_number_bytes(random_seed, sender, old(self).nonce_value());
                &&& r is None <==> (old(self).nonce_value() == u64::MAX && !mint_refused(
                    old(self).reg(),
                    sender,
                    digest_256(input),
                ))
                &&& r is None ==> *final(self) == *old(self)
                &&& r matches Some(res) ==> create_outcome(
                    *old(self),
                    *final(self),
                    sender,
                    digest_256(input),
                    digest_128(input),
                    res,
                )
            }),
            r matches Some(Ok(_)) ==> final(self).nonce_value() == old(self).nonce_value() + 1,
            (r is None || (r matches Some(Err(_)))) ==> final(self).nonce_value()
                == old(self).nonce_value(),
            old(self).reg().wf() ==> final(self).reg().wf(),
    {
        let input = encode_seed_account_number(&random_seed, sender, self.nonce);
        let random_hash = hash_256(input.as_slice());
        let refused = self.registry.has_owner(&random_hash) || self.registry.owned_kitty_count(
            sender,
        ) == u64::MAX || self.registry.all_kitties_count() == u64::MAX;
        if self.nonce == u64::MAX && !refused {
            return None;
        }
        Some(self.create_kitty(sender, random_seed))
    }

    /// Sets nothing: reads the kitty and succeeds, leaving everything as it was.
    pub fn set_price(&self, sender: u64, kitty_id: [u8; 32], new_price: u128) -> (r: Result<(), MintError>)
        ensures
            r == Ok::<(), MintError>(()),
    {
        let _kitty = self.registry.kitty(&kitty_id);
        Ok(())
    }

    /// The kitties of the list of all kitties, in order.
    pub fn show_all_kittys(&self, sender: u64) -> (v: Vec<Kitty>)
        ensures
            v@.len() == self.reg().total(),
            forall|n: int|
                0 <= n < v@.len() ==> #[trigger] v@[n] == self.reg().kitty_value(
                    self.reg().all_array_value(n as u64),
                ),
    {
        self.registry.all_kitties()
    }

    /// The kitties of the list of `sender`, in order.
    #[allow(non_snake_case)]
    pub fn show_kittys_accountId(&self, sender: u64) -> (v: Vec<Kitty>)
        ensures
            v@.len() == count_of(self.reg().owned_count_map(), sender),
            forall|n: int|
                0 <= n < v@.len() ==> #[trigger] v@[n] == self.reg().kitty_value(
                    self.reg().owned_array_value(sender, n as u64),
                ),
    {
        self.registry.kitties_of(sender)
    }
}

} // verus!
