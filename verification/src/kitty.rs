//! Kitties keyed by an id digested from the random seed, the owner and a nonce, and appended to
//! a list of all kitties and to the owner's list.
use vstd::prelude::*;
use crate::hashing::{blake2_256_of, digest_256, hash_256};
use crate::scale::{encode_seed_account_number, seed_account_number_bytes};
use crate::registry::{zero_hash, zero_id};
use crate::storage::StorageMap;

verus! {

/// A kitty: its id.
#[derive(Clone, Copy, Debug, PartialEq, Eq)]
pub struct Kitty {
    pub id: [u8; 32],
}

/// Why a creation was refused.
#[derive(Clone, Copy, Debug, PartialEq, Eq)]
pub enum CreateError {
    /// A kitty with the id already exists.
    AlreadyExists,
    /// The position after the counter of all kitties does not fit.
    ListOverflow,
    /// The position after the owner's counter does not fit.
    OwnerListOverflow,
}

impl CreateError {
    /// The message the module reports for the error.
    pub fn message(&self) -> (m: &'static str)
        ensures
            *self == CreateError::AlreadyExists ==> m@ == "Kitty already exists"@,
            *self == CreateError::ListOverflow ==> m@
                == "Overflow when adding a new kitty to total count"@,
            *self == CreateError::OwnerListOverflow ==> m@
                == "Overflow when adding a new kitty to owner list"@,
    {
        match self {
            CreateError::AlreadyExists => "Kitty already exists",
            CreateError::ListOverflow => "Overflow when adding a new kitty to total count",
            CreateError::OwnerListOverflow => "Overflow when adding a new kitty to owner list",
        }
    }
}

/// The value stored under `owner`, zero where there is none.
pub open spec fn counter_of(m: Map<u64, u64>, owner: u64) -> u64 {
    if m.dom().contains(owner) {
        m[owner]
    } else {
        0
    }
}

/// Every stored kitty sits under its own id.
pub open spec fn kitties_keyed_by_id(m: Map<[u8; 32], Kitty>) -> bool {
    forall|h: [u8; 32]| #[trigger] m.dom().contains(h) ==> m[h].id == h
}

/// The kitties, the list of all kitties with its counter, each owner's list with its counter,
/// and the nonce.
pub struct Module {
    kitties: StorageMap<[u8; 32], Kitty>,
    kitties_list: StorageMap<u64, [u8; 32]>,
    kitties_counter: u64,
    kitties_of_owner_list: StorageMap<(u64, u64), [u8; 32]>,
    kitties_of_owner_counter: StorageMap<u64, u64>,
    nonce: u64,
}

/// What creating the kitty `kitty_id` for `owner` does to `old`, giving `new` and `r`. Refused
/// with nothing changed when the kitty exists. Otherwise the kitty is stored; then it is put at
/// the position after the counter of all kitties, which moves on to that position; then at the
/// position after the owner's counter, which moves on likewise; and the nonce moves on. A
/// position that does not fit ends the call with an error, what was written before it staying.
pub open spec fn create_outcome(old: Module, new: Module, owner: u64, kitty_id: [u8; 32], r: Result<(), CreateError>) -> bool {
    let k = old.kitty_map();
    let c = old.counter();
    let oc = counter_of(old.owner_counter_map(), owner);
    if k.dom().contains(kitty_id) {
        &&& r == Err::<(), CreateError>(CreateError::AlreadyExists)
        &&& new.kitty_map() == k
        &&& new.list_map() == old.list_map()
        &&& new.counter() == c
        &&& new.owner_list_map() == old.owner_list_map()
        &&& new.owner_counter_map() == old.owner_counter_map()
        &&& new.nonce_value() == old.nonce_value()
    } else if c == u64::MAX {
        &&& r == Err::<(), CreateError>(CreateError::ListOverflow)
        &&& new.kitty_map() == k.insert(kitty_id, Kitty { id: kitty_id })
        &&& new.list_map() == old.list_map()
        &&& new.counter() == c
        &&& new.owner_list_map() == old.owner_list_map()
        &&& new.owner_counter_map() == old.owner_counter_map()
        &&& new.nonce_value() == old.nonce_value()
    } else if oc == u64::MAX {
        &&& r == Err::<(), CreateError>(CreateError::OwnerListOverflow)
        &&& new.kitty_map() == k.insert(kitty_id, Kitty { id: kitty_id })
        &&& new.list_map() == old.list_map().insert((c + 1) as u64, kitty_id)
        &&& new.counter() == c + 1
        &&& new.owner_list_map() == old.owner_list_map()
        &&& new.owner_counter_map() == old.owner_counter_map()
        &&& new.nonce_value() == old.nonce_value()
    } else {
        &&& r is Ok
        &&& new.kitty_map() == k.insert(kitty_id, Kitty { id: kitty_id })
        &&& new.list_map() == old.list_map().insert((c + 1) as u64, kitty_id)
        &&& new.counter() == c + 1
        &&& new.owner_list_map() == old.owner_list_map().insert((owner, (oc + 1) as u64), kitty_id)
        &&& new.owner_counter_map() == old.owner_counter_map().insert(owner, (oc + 1) as u64)
        &&& new.nonce_value() == old.nonce_value() + 1
    }
}

/// Positions 1 to the counter of the list of all kitties, and 1 to each owner's counter of
/// that owner's list, hold ids of stored kitties.
pub open spec fn lists_filled(m: Module) -> bool {
    &&& forall|i: u64|
        1 <= i <= m.counter() ==> #[trigger] m.list_map().dom().contains(i) && m.kitty_map().dom().contains(
            m.list_map()[i],
        )
    &&& forall|o: u64, j: u64|
        1 <= j <= counter_of(m.owner_counter_map(), o) ==> #[trigger] m.owner_list_map().dom().contains(
            (o, j),
        ) && m.kitty_map().dom().contains(m.owner_list_map()[(o, j)])
}

/// A creation keeps the lists filled.
pub proof fn lemma_create_keeps_lists_filled(old: Module, new: Module, owner: u64, kitty_id: [u8; 32], r: Result<(), CreateError>)
    requires
        lists_filled(old),
        create_outcome(old, new, owner, kitty_id, r),
    ensures
        lists_filled(new),
{
    let c = old.counter();
    assert forall|i: u64| 1 <= i <= new.counter() implies #[trigger] new.list_map().dom().contains(i)
        && new.kitty_map().dom().contains(new.list_map()[i]) by {
        if i <= c {
            assert(old.list_map().dom().contains(i));
        }
    }
    assert forall|o: u64, j: u64|
        1 <= j <= counter_of(new.owner_counter_map(), o) implies #[trigger] new.owner_list_map().dom().contains(
        (o, j),
    ) && new.kitty_map().dom().contains(new.owner_list_map()[(o, j)]) by {
        if j <= counter_of(old.owner_counter_map(), o) {
            assert(old.owner_list_map().dom().contains((o, j)));
        }
    }
}

/// A creation that succeeds moves the nonce on by exactly one, whatever the owner's count of
/// kitties; one that is refused leaves it as it was. So two successive successful creations
/// never digest the same (seed, owner, nonce) tuple.
pub proof fn lemma_create_advances_nonce(old: Module, new: Module, owner: u64, kitty_id: [u8; 32], r: Result<(), CreateError>)
    requires
        create_outcome(old, new, owner, kitty_id, r),
    ensures
        r is Ok ==> new.nonce_value() == old.nonce_value() + 1,
        r is Err ==> new.nonce_value() == old.nonce_value(),
{
}

/// After two successful creations the nonce has moved on by two, and each used a different
/// nonce.
pub proof fn lemma_two_creates_use_distinct_nonces(
    m0: Module,
    m1: Module,
    m2: Module,
    owner1: u64,
    id1: [u8; 32],
    owner2: u64,
    id2: [u8; 32],
)
    requires
        create_outcome(m0, m1, owner1, id1, Ok(())),
        create_outcome(m1, m2, owner2, id2, Ok(())),
    ensures
        m1.nonce_value() != m0.nonce_value(),
        m2.nonce_value() == m0.nonce_value() + 2,
{
}

/// A creation of `kitty_id` for `owner` is refused: the kitty exists, or the position after the
/// counter of all kitties, or after the owner's counter, does not fit.
pub open spec fn create_refused(old: Module, owner: u64, kitty_id: [u8; 32]) -> bool {
    ||| old.kitty_map().dom().contains(kitty_id)
    ||| old.counter() == u64::MAX
    ||| counter_of(old.owner_counter_map(), owner) == u64::MAX
}

impl Module {
    /// Kitties by id.
    pub closed spec fn kitty_map(&self) -> Map<[u8; 32], Kitty> {
        self.kitties@
    }

    /// The list of all kitties, by position.
    pub closed spec fn list_map(&self) -> Map<u64, [u8; 32]> {
        self.kitties_list@
    }

    /// The counter of all kitties.
    pub closed spec fn counter(&self) -> u64 {
        self.kitties_counter
    }

    /// Each owner's list, by owner and position.
    pub closed spec fn owner_list_map(&self) -> Map<(u64, u64), [u8; 32]> {
        self.kitties_of_owner_list@
    }

    /// Each owner's counter.
    pub closed spec fn owner_counter_map(&self) -> Map<u64, u64> {
        self.kitties_of_owner_counter@
    }

    /// The stored nonce.
    pub closed spec fn nonce_value(&self) -> u64 {
        self.nonce
    }

    /// No kitties, counters and nonce zero.
    pub fn new() -> (m: Self)
        ensures
            m.kitty_map() == Map::<[u8; 32], Kitty>::empty(),
            m.list_map() == Map::<u64, [u8; 32]>::empty(),
            m.counter() == 0,
            m.owner_list_map() == Map::<(u64, u64), [u8; 32]>::empty(),
            m.owner_counter_map() == Map::<u64, u64>::empty(),
            m.nonce_value() == 0,
    {
        Module {
            kitties: StorageMap::new(),
            kitties_list: StorageMap::new(),
            kitties_counter: 0,
            kitties_of_owner_list: StorageMap::new(),
            kitties_of_owner_counter: StorageMap::new(),
            nonce: 0,
        }
    }

    /// The kitty stored under `h`, or the one with the all-zero id.
    pub fn kitty_id(&self, h: &[u8; 32]) -> (k: Kitty)
        ensures
            k == (if self.kitty_map().dom().contains(*h) {
                self.kitty_map()[*h]
            } else {
                Kitty { id: zero_id() }
            }),
    {
        match self.kitties.get(h) {
            Some(k) => k,
            None => Kitty { id: zero_hash() },
        }
    }

    /// The id at position `i` of the list of all kitties, or all zeros.
    pub fn kitty_index(&self, i: u64) -> (h: [u8; 32])
        ensures
            h == (if self.list_map().dom().contains(i) {
                self.list_map()[i]
            } else {
                zero_id()
            }),
    {
        match self.kitties_list.get(&i) {
            Some(h) => h,
            None => zero_hash(),
        }
    }

    /// The counter of all kitties.
    pub fn kitties_counter(&self) -> (c: u64)
        ensures
            c == self.counter(),
    {
        self.kitties_counter
    }

    /// The id at position `j` of the list of `owner`, or all zeros.
    pub fn kitty_of_owner_index(&self, owner: u64, j: u64) -> (h: [u8; 32])
        ensures
            h == (if self.owner_list_map().dom().contains((owner, j)) {
                self.owner_list_map()[(owner, j)]
            } else {
                zero_id()
            }),
    {
        match self.kitties_of_owner_list.get(&(owner, j)) {
            Some(h) => h,
            None => zero_hash(),
        }
    }

    /// The counter of `owner`.
    pub fn kitties_of_owner_counter(&self, owner: u64) -> (c: u64)
        ensures
            c == counter_of(self.owner_counter_map(), owner),
    {
        match self.kitties_of_owner_counter.get(&owner) {
            Some(c) => c,
            None => 0,
        }
    }

    /// The stored nonce.
    pub fn nonce(&self) -> (n: u64)
        ensures
            n == self.nonce_value(),
    {
        self.nonce
    }

    /// The id of the next kitty of `owner`: the 256-bit digest of the encoded tuple
    /// (random seed, owner, nonce).
    pub fn generate_kitty_id(&self, owner: u64, random_seed: [u8; 32]) -> (id: [u8; 32])
        ensures
            id == digest_256(seed_account_number_bytes(random_seed, owner, self.nonce_value())),
            id@ == blake2_256_of(seed_account_number_bytes(random_seed, owner, self.nonce_value())),
    {
        let input = encode_seed_account_number(&random_seed, owner, self.nonce);
        hash_256(input.as_slice())
    }

    /// Creates the kitty `kitty_id` for `owner`, as `create_outcome` says.
    pub fn create_with_id(&mut self, owner: u64, kitty_id: [u8; 32]) -> (r: Result<(), CreateError>)
        requires
            old(self).nonce_value() < u64::MAX || create_refused(*old(self), owner, kitty_id),
        ensures
            create_outcome(*old(self), *final(self), owner, kitty_id, r),
            r is Ok ==> final(self).nonce_value() == old(self).nonce_value() + 1,
            r is Err ==> final(self).nonce_value() == old(self).nonce_value(),
            r is Ok ==> final(self).counter() == old(self).counter() + 1,
            r is Ok ==> counter_of(final(self).owner_counter_map(), owner) == counter_of(
                old(self).owner_counter_map(),
                owner,
            ) + 1,
            r is Ok ==> final(self).list_map()[final(self).counter()]
                == final(self).owner_list_map()[(owner, counter_of(final(self).owner_counter_map(), owner))],
            r is Ok ==> final(self).kitty_map().dom().contains(
                final(self).list_map()[final(self).counter()],
            ),
            r is Ok ==> final(self).list_map()[final(self).counter()] == kitty_id,
            lists_filled(*old(self)) ==> lists_filled(*final(self)),
            kitties_keyed_by_id(old(self).kitty_map()) ==> kitties_keyed_by_id(
                final(self).kitty_map(),
            ),
    {
        let ghost pre = *self;
        if self.kitties.contains_key(&kitty_id) {
            proof {
                if lists_filled(pre) {
                    lemma_create_keeps_lists_filled(pre, *self, owner, kitty_id, Err(CreateError::AlreadyExists));
                }
            }
            return Err(CreateError::AlreadyExists);
        }
        let new_kitty = Kitty { id: kitty_id };
        self.kitties.insert(kitty_id, new_kitty);
        let kitties_counter = self.kitties_counter;
        let kitty_index = match kitties_counter.checked_add(1) {
            Some(i) => i,
            None => {
                proof {
                    if lists_filled(pre) {
                        lemma_create_keeps_lists_filled(pre, *self, owner, kitty_id, Err(CreateError::ListOverflow));
                    }
                }
                return Err(CreateError::ListOverflow);
            },
        };
        self.kitties_list.insert(kitty_index, kitty_id);
        self.kitties_counter = kitty_index;
        let kitties_owner_counter = self.kitties_of_owner_counter(owner);
        let owner_kitty_index = match kitties_owner_counter.checked_add(1) {
            Some(i) => i,
            None => {
                proof {
                    if lists_filled(pre) {
                        lemma_create_keeps_lists_filled(pre, *self, owner, kitty_id, Err(CreateError::OwnerListOverflow));
                    }
                }
                return Err(CreateError::OwnerListOverflow);
            },
        };
        self.kitties_of_owner_list.insert((owner, owner_kitty_index), kitty_id);
        self.kitties_of_owner_counter.insert(owner, owner_kitty_index);
        self.nonce = self.nonce + 1;
        proof {
            if lists_filled(pre) {
                lemma_create_keeps_lists_filled(pre, *self, owner, kitty_id, Ok(()));
            }
        }
        Ok(())
    }

    /// Creates a kitty for `owner` under the id `generate_kitty_id(owner, random_seed)`.
    pub fn create(&mut self, owner: u64, random_seed: [u8; 32]) -> (r: Result<(), CreateError>)
        requires
            old(self).nonce_value() < u64::MAX || create_refused(
                *old(self),
                owner,
                digest_256(seed_account_number_bytes(random_seed, owner, old(self).nonce_value())),
            ),
        ensures
            digest_256(seed_account_number_bytes(random_seed, owner, old(self).nonce_value()))@
                == blake2_256_of(seed_account_number_bytes(random_seed, owner, old(self).nonce_value())),
            create_outcome(
                *old(self),
                *final(self),
                owner,
                digest_256(seed_account_number_bytes(random_seed, owner, old(self).nonce_value())),
                r,
            ),
            r is Ok ==> final(self).nonce_value() == old(self).nonce_value() + 1,
            r is Err ==> final(self).nonce_value() == old(self).nonce_value(),
            r is Ok ==> final(self).counter() == old(self).counter() + 1,
            r is Ok ==> counter_of(final(self).owner_counter_map(), owner) == counter_of(
                old(self).owner_counter_map(),
                owner,
            ) + 1,
            r is Ok ==> final(self).list_map()[final(self).counter()]
                == final(self).owner_list_map()[(owner, counter_of(final(self).owner_counter_map(), owner))],
            r is Ok ==> final(self).kitty_map().dom().contains(
                final(self).list_map()[final(self).counter()],
            ),
            lists_filled(*old(self)) ==> lists_filled(*final(self)),
            kitties_keyed_by_id(old(self).kitty_map()) ==> kitties_keyed_by_id(
                final(self).kitty_map(),
            ),
    {
        let kitty_id = self.generate_kitty_id(owner, random_seed);
        self.create_with_id(owner, kitty_id)
    }

    /// Calls `create(owner, random_seed)` where it ends without moving the nonce past its
    /// maximum: the nonce is below its maximum, or the call is refused. Elsewhere (where the
    /// nonce would overflow) it makes no call, changes nothing and gives `None`.
    pub fn try_create(&mut self, owner: u64, random_seed: [u8; 32]) -> (r: Option<Result<(), CreateError>>)
        ensures
            ({
                let id = digest_256(
                    seed_account_number_bytes(random_seed, owner, old(self).nonce_value()),
                );
                &&& r is None <==> (old(self).nonce_value() == u64::MAX && !create_refused(
                    *old(self),
                    owner,
                    id,
                ))
                &&& r is None ==> *final(self) == *old(self)
                &&& r matches Some(res) ==> create_outcome(*old(self), *final(self), owner, id, res)
            }),
            r matches Some(Ok(_)) ==> final(self).nonce_value() == old(self).nonce_value() + 1,
            (r is None || (r matches Some(Err(_)))) ==> final(self).nonce_value()
                == old(self).nonce_value(),
            lists_filled(*old(self)) ==> lists_filled(*final(self)),
            kitties_keyed_by_id(old(self).kitty_map()) ==> kitties_keyed_by_id(
                final(self).kitty_map(),
            ),
    {
        let kitty_id = self.generate_kitty_id(owner, random_seed);
        let refused = self.kitties.contains_key(&kitty_id) || self.kitties_counter == u64::MAX
            || self.kitties_of_owner_counter(owner) == u64::MAX;
        if self.nonce == u64::MAX && !refused {
            return None;
        }
        Some(self.create(owner, random_seed))
    }
}

} // verus!
