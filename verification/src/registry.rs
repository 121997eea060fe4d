//! The storage of a kitty registry: kitties by id, their owners, the list of all kitties and
//! the list of each owner's kitties, each list with its count and a reverse index.
use vstd::prelude::*;
use crate::storage::StorageMap;

verus! {

/// A kitty record that has a blank value, which a read of an absent id gives.
pub trait KittyRecord: Copy + Sized {
    spec fn blank_spec() -> Self;

    fn blank() -> (k: Self)
        ensures
            k == Self::blank_spec(),
    ;
}

/// Why adding a kitty was refused.
#[derive(Clone, Copy, Debug, PartialEq, Eq)]
pub enum RegistryError {
    /// The owner's count of kitties is at its maximum.
    OwnedCountOverflow,
    /// The count of all kitties is at its maximum.
    TotalCountOverflow,
}

/// The count stored for `owner`, zero where there is none.
pub open spec fn count_of(owned_count: Map<u64, u64>, owner: u64) -> u64 {
    if owned_count.dom().contains(owner) {
        owned_count[owner]
    } else {
        0
    }
}

/// The stored registry is consistent: every kitty has an owner; the first `total` positions of
/// the list of all kitties hold distinct owned kitties, each indexed back to its position; the
/// first `count_of(owner)` positions of each owner's list hold distinct kitties of that owner,
/// each indexed back to its position; and every owned kitty stands in both lists.
pub open spec fn registry_wf<K>(
    kitties: Map<[u8; 32], K>,
    owner: Map<[u8; 32], u64>,
    all_array: Map<u64, [u8; 32]>,
    total: u64,
    all_index: Map<[u8; 32], u64>,
    owned_array: Map<(u64, u64), [u8; 32]>,
    owned_count: Map<u64, u64>,
    owned_index: Map<[u8; 32], u64>,
) -> bool {
    &&& forall|h: [u8; 32]| #[trigger] kitties.dom().contains(h) ==> owner.dom().contains(h)
    &&& forall|i: u64|
        i < total ==> #[trigger] all_array.dom().contains(i) && owner.dom().contains(all_array[i])
            && all_index.dom().contains(all_array[i]) && all_index[all_array[i]] == i
    &&& forall|h: [u8; 32]|
        #[trigger] owner.dom().contains(h) ==> {
            &&& kitties.dom().contains(h)
            &&& all_index.dom().contains(h)
            &&& all_index[h] < total
            &&& all_array.dom().contains(all_index[h])
            &&& all_array[all_index[h]] == h
            &&& owned_index.dom().contains(h)
            &&& owned_index[h] < count_of(owned_count, owner[h])
            &&& owned_array.dom().contains((owner[h], owned_index[h]))
            &&& owned_array[(owner[h], owned_index[h])] == h
        }
    &&& forall|o: u64, j: u64|
        j < count_of(owned_count, o) ==> #[trigger] owned_array.dom().contains((o, j))
            && owner.dom().contains(owned_array[(o, j)]) && owner[owned_array[(o, j)]] == o
            && owned_index.dom().contains(owned_array[(o, j)]) && owned_index[owned_array[(
            o,
            j,
        )]] == j
}

/// The id made of zero bytes, which a read of an absent position gives.
pub open spec fn zero_id() -> [u8; 32] {
    choose|z: [u8; 32]| z@ == Seq::new(32, |k: int| 0u8)
}

/// The id made of zero bytes.
pub fn zero_hash() -> (h: [u8; 32])
    ensures
        h == zero_id(),
{
    let h: [u8; 32] = [0u8; 32];
    proof {
        broadcast use vstd::array::group_array_axioms;
        assert(h == vstd::array::spec_array_fill_for_copy_type::<u8, 32>(0u8));
        assert(forall|i: int| 0 <= i < 32 ==> h@[i] == 0u8);
        assert(h@ =~= Seq::new(32, |k: int| 0u8));
        let z = zero_id();
        assert(z@ == Seq::new(32, |k: int| 0u8));
        assert(h =~= z);
    }
    h
}

/// The storage of a registry.
pub struct KittyRegistry<K: KittyRecord> {
    kitties: StorageMap<[u8; 32], K>,
    kitty_owner: StorageMap<[u8; 32], u64>,
    all_array: StorageMap<u64, [u8; 32]>,
    all_count: u64,
    all_index: StorageMap<[u8; 32], u64>,
    owned_array: StorageMap<(u64, u64), [u8; 32]>,
    owned_count: StorageMap<u64, u64>,
    owned_index: StorageMap<[u8; 32], u64>,
}

impl<K: KittyRecord> KittyRegistry<K> {
    /// Kitties by id.
    pub closed spec fn kitty_map(&self) -> Map<[u8; 32], K> {
        self.kitties@
    }

    /// Owners by kitty id.
    pub closed spec fn owner_map(&self) -> Map<[u8; 32], u64> {
        self.kitty_owner@
    }

    /// The list of all kitty ids, by position.
    pub closed spec fn all_array_map(&self) -> Map<u64, [u8; 32]> {
        self.all_array@
    }

    /// The count of all kitties.
    pub closed spec fn total(&self) -> u64 {
        self.all_count
    }

    /// Positions in the list of all kitties, by kitty id.
    pub closed spec fn all_index_map(&self) -> Map<[u8; 32], u64> {
        self.all_index@
    }

    /// Each owner's list of kitty ids, by owner and position.
    pub closed spec fn owned_array_map(&self) -> Map<(u64, u64), [u8; 32]> {
        self.owned_array@
    }

    /// Each owner's count of kitties.
    pub closed spec fn owned_count_map(&self) -> Map<u64, u64> {
        self.owned_count@
    }

    /// Positions in the owner's list, by kitty id.
    pub closed spec fn owned_index_map(&self) -> Map<[u8; 32], u64> {
        self.owned_index@
    }

    /// The registry is consistent.
    pub open spec fn wf(&self) -> bool {
        registry_wf(
            self.kitty_map(),
            self.owner_map(),
            self.all_array_map(),
            self.total(),
            self.all_index_map(),
            self.owned_array_map(),
            self.owned_count_map(),
            self.owned_index_map(),
        )
    }

    /// The kitty stored under `h`, or the blank one.
    pub open spec fn kitty_value(&self, h: [u8; 32]) -> K {
        if self.kitty_map().dom().contains(h) {
            self.kitty_map()[h]
        } else {
            K::blank_spec()
        }
    }

    /// The id at position `i` of the list of all kitties, or all zeros.
    pub open spec fn all_array_value(&self, i: u64) -> [u8; 32] {
        if self.all_array_map().dom().contains(i) {
            self.all_array_map()[i]
        } else {
            zero_id()
        }
    }

    /// The id at position `j` of the list of `owner`, or all zeros.
    pub open spec fn owned_array_value(&self, owner: u64, j: u64) -> [u8; 32] {
        if self.owned_array_map().dom().contains((owner, j)) {
            self.owned_array_map()[(owner, j)]
        } else {
            zero_id()
        }
    }

    /// No kitties, no owners, empty lists and counts.
    pub open spec fn is_empty(&self) -> bool {
        &&& self.kitty_map() == Map::<[u8; 32], K>::empty()
        &&& self.owner_map() == Map::<[u8; 32], u64>::empty()
        &&& self.all_array_map() == Map::<u64, [u8; 32]>::empty()
        &&& self.total() == 0
        &&& self.all_index_map() == Map::<[u8; 32], u64>::empty()
        &&& self.owned_array_map() == Map::<(u64, u64), [u8; 32]>::empty()
        &&& self.owned_count_map() == Map::<u64, u64>::empty()
        &&& self.owned_index_map() == Map::<[u8; 32], u64>::empty()
    }

    /// The registry unchanged.
    pub open spec fn same_as(&self, other: &Self) -> bool {
        &&& self.kitty_map() == other.kitty_map()
        &&& self.owner_map() == other.owner_map()
        &&& self.all_array_map() == other.all_array_map()
        &&& self.total() == other.total()
        &&& self.all_index_map() == other.all_index_map()
        &&& self.owned_array_map() == other.owned_array_map()
        &&& self.owned_count_map() == other.owned_count_map()
        &&& self.owned_index_map() == other.owned_index_map()
    }

    /// The registry after `to` gets `kitty` under `id`, as the next kitty of all and the next
    /// kitty of `to`.
    pub open spec fn added(&self, other: &Self, to: u64, id: [u8; 32], kitty: K) -> bool {
        let oc = count_of(self.owned_count_map(), to);
        &&& other.kitty_map() == self.kitty_map().insert(id, kitty)
        &&& other.owner_map() == self.owner_map().insert(id, to)
        &&& other.all_array_map() == self.all_array_map().insert(self.total(), id)
        &&& other.total() == self.total() + 1
        &&& other.all_index_map() == self.all_index_map().insert(id, self.total())
        &&& other.owned_array_map() == self.owned_array_map().insert((to, oc), id)
        &&& other.owned_count_map() == self.owned_count_map().insert(to, (oc + 1) as u64)
        &&& other.owned_index_map() == self.owned_index_map().insert(id, oc)
    }

    /// An empty registry.
    pub fn new() -> (r: Self)
        ensures
            r.is_empty(),
            r.wf(),
    {
        KittyRegistry {
            kitties: StorageMap::new(),
            kitty_owner: StorageMap::new(),
            all_array: StorageMap::new(),
            all_count: 0,
            all_index: StorageMap::new(),
            owned_array: StorageMap::new(),
            owned_count: StorageMap::new(),
            owned_index: StorageMap::new(),
        }
    }

    /// The kitty stored under `h`, or the blank one.
    pub fn kitty(&self, h: &[u8; 32]) -> (k: K)
        ensures
            k == self.kitty_value(*h),
    {
        match self.kitties.get(h) {
            Some(k) => k,
            None => K::blank(),
        }
    }

    /// The owner of `h`, if it has one.
    pub fn owner_of(&self, h: &[u8; 32]) -> (o: Option<u64>)
        ensures
            o == (if self.owner_map().dom().contains(*h) {
                Some(self.owner_map()[*h])
            } else {
                None::<u64>
            }),
    {
        self.kitty_owner.get(h)
    }

    /// Whether `h` has an owner.
    pub fn has_owner(&self, h: &[u8; 32]) -> (b: bool)
        ensures
            b == self.owner_map().dom().contains(*h),
    {
        self.kitty_owner.contains_key(h)
    }

    /// The id at position `i` of the list of all kitties, or all zeros.
    pub fn kitty_by_index(&self, i: u64) -> (h: [u8; 32])
        ensures
            h == self.all_array_value(i),
    {
        match self.all_array.get(&i) {
            Some(h) => h,
            None => zero_hash(),
        }
    }

    /// The count of all kitties.
    pub fn all_kitties_count(&self) -> (c: u64)
        ensures
            c == self.total(),
    {
        self.all_count
    }

    /// The position of `h` in the list of all kitties, zero where there is none.
    pub fn all_kitties_index(&self, h: &[u8; 32]) -> (i: u64)
        ensures
            i == (if self.all_index_map().dom().contains(*h) {
                self.all_index_map()[*h]
            } else {
                0
            }),
    {
        match self.all_index.get(h) {
            Some(i) => i,
            None => 0,
        }
    }

    /// The id at position `j` of the list of `owner`, or all zeros.
    pub fn kitty_of_owner_by_index(&self, owner: u64, j: u64) -> (h: [u8; 32])
        ensures
            h == self.owned_array_value(owner, j),
    {
        match self.owned_array.get(&(owner, j)) {
            Some(h) => h,
            None => zero_hash(),
        }
    }

    /// The count of kitties of `owner`.
    pub fn owned_kitty_count(&self, owner: u64) -> (c: u64)
        ensures
            c == count_of(self.owned_count_map(), owner),
    {
        match self.owned_count.get(&owner) {
            Some(c) => c,
            None => 0,
        }
    }

    /// The position of `h` in its owner's list, zero where there is none.
    pub fn owned_kitties_index(&self, h: &[u8; 32]) -> (j: u64)
        ensures
            j == (if self.owned_index_map().dom().contains(*h) {
                self.owned_index_map()[*h]
            } else {
                0
            }),
    {
        match self.owned_index.get(h) {
            Some(j) => j,
            None => 0,
        }
    }

    /// Gives `to` the kitty `kitty` under `id`, at the end of the list of all kitties and of
    /// the list of `to`. The owner's count is checked first, then the total; a refusal leaves
    /// everything as it was.
    pub fn add(&mut self, to: u64, id: [u8; 32], kitty: K) -> (r: Result<(), RegistryError>)
        ensures
            count_of(old(self).owned_count_map(), to) == u64::MAX ==> r == Err::<(), RegistryError>(
                RegistryError::OwnedCountOverflow,
            ) && final(self).same_as(old(self)),
            count_of(old(self).owned_count_map(), to) < u64::MAX && old(self).total() == u64::MAX
                ==> r == Err::<(), RegistryError>(RegistryError::TotalCountOverflow)
                && final(self).same_as(old(self)),
            count_of(old(self).owned_count_map(), to) < u64::MAX && old(self).total() < u64::MAX
                ==> r is Ok && old(self).added(final(self), to, id, kitty),
            old(self).wf() && !old(self).owner_map().dom().contains(id) ==> final(self).wf(),
            r is Ok ==> final(self).kitty_map().dom().contains(id) && final(self).kitty_map()[id]
                == kitty,
            r is Ok ==> final(self).owner_map().dom().contains(id) && final(self).owner_map()[id]
                == to,
            r is Ok ==> final(self).total() == old(self).total() + 1 && final(self).all_array_value(
                old(self).total(),
            ) == id,
            r is Ok ==> count_of(final(self).owned_count_map(), to) == count_of(
                old(self).owned_count_map(),
                to,
            ) + 1 && final(self).owned_array_value(to, count_of(old(self).owned_count_map(), to))
                == id,
    {
        let owned_kitty_count = self.owned_kitty_count(to);
        let new_owned_kitty_count = match owned_kitty_count.checked_add(1) {
            Some(c) => c,
            None => {
                return Err(RegistryError::OwnedCountOverflow);
            },
        };
        let all_kitties_count = self.all_count;
        let new_all_kitties_count = match all_kitties_count.checked_add(1) {
            Some(c) => c,
            None => {
                return Err(RegistryError::TotalCountOverflow);
            },
        };
        let ghost pre = *self;
        self.kitties.insert(id, kitty);
        self.kitty_owner.insert(id, to);
        self.all_array.insert(all_kitties_count, id);
        self.all_count = new_all_kitties_count;
        self.all_index.insert(id, all_kitties_count);
        self.owned_array.insert((to, owned_kitty_count), id);
        self.owned_count.insert(to, new_owned_kitty_count);
        self.owned_index.insert(id, owned_kitty_count);
        proof {
            if pre.wf() && !pre.owner_map().dom().contains(id) {
                lemma_add_keeps_wf(
                    pre.kitty_map(),
                    pre.owner_map(),
                    pre.all_array_map(),
                    pre.total(),
                    pre.all_index_map(),
                    pre.owned_array_map(),
                    pre.owned_count_map(),
                    pre.owned_index_map(),
                    to,
                    id,
                    kitty,
                );
            }
        }
        Ok(())
    }

    /// The kitties of the list of all kitties, in order.
    pub fn all_kitties(&self) -> (v: Vec<K>)
        ensures
            v@.len() == self.total(),
            forall|n: int|
                0 <= n < v@.len() ==> #[trigger] v@[n] == self.kitty_value(
                    self.all_array_value(n as u64),
                ),
    {
        let mut v: Vec<K> = Vec::new();
        let count = self.all_count;
        let mut n: u64 = 0;
        while n < count
            invariant
                count == self.total(),
                0 <= n <= count,
                v@.len() == n,
                forall|k: int|
                    0 <= k < n ==> #[trigger] v@[k] == self.kitty_value(
                        self.all_array_value(k as u64),
                    ),
            decreases count - n,
        {
            let h = self.kitty_by_index(n);
            let k = self.kitty(&h);
            v.push(k);
            n = n + 1;
        }
        v
    }
}

impl<K: KittyRecord> KittyRegistry<K> {
    /// The kitties of the list of `owner`, in order.
    pub fn kitties_of(&self, owner: u64) -> (v: Vec<K>)
        ensures
            v@.len() == count_of(self.owned_count_map(), owner),
            forall|n: int|
                0 <= n < v@.len() ==> #[trigger] v@[n] == self.kitty_value(
                    self.owned_array_value(owner, n as u64),
                ),
    {
        let mut v: Vec<K> = Vec::new();
        let count = self.owned_kitty_count(owner);
        let mut n: u64 = 0;
        while n < count
            invariant
                count == count_of(self.owned_count_map(), owner),
                0 <= n <= count,
                v@.len() == n,
                forall|k: int|
                    0 <= k < n ==> #[trigger] v@[k] == self.kitty_value(
                        self.owned_array_value(owner, k as u64),
                    ),
            decreases count - n,
        {
            let h = self.kitty_of_owner_by_index(owner, n);
            let k = self.kitty(&h);
            v.push(k);
            n = n + 1;
        }
        v
    }
}

/// In a consistent registry, a kitty has an owner exactly when it stands in the list of all
/// kitties.
pub proof fn lemma_all_kitties_listed<K: KittyRecord>(reg: KittyRegistry<K>, h: [u8; 32])
    requires
        reg.wf(),
    ensures
        reg.owner_map().dom().contains(h) <==> exists|i: u64|
            i < reg.total() && #[trigger] reg.all_array_value(i) == h,
{
    if reg.owner_map().dom().contains(h) {
        let i = reg.all_index_map()[h];
        assert(reg.all_array_value(i) == h);
    }
    if exists|i: u64| i < reg.total() && #[trigger] reg.all_array_value(i) == h {
        let i = choose|i: u64| i < reg.total() && #[trigger] reg.all_array_value(i) == h;
        assert(reg.all_array_map().dom().contains(i));
    }
}

/// In a consistent registry, a kitty belongs to `owner` exactly when it stands in the list of
/// `owner`.
pub proof fn lemma_owned_kitties_listed<K: KittyRecord>(reg: KittyRegistry<K>, owner: u64, h: [u8; 32])
    requires
        reg.wf(),
    ensures
        (reg.owner_map().dom().contains(h) && reg.owner_map()[h] == owner) <==> exists|j: u64|
            j < count_of(reg.owned_count_map(), owner) && #[trigger] reg.owned_array_value(owner, j)
                == h,
{
    if reg.owner_map().dom().contains(h) && reg.owner_map()[h] == owner {
        let j = reg.owned_index_map()[h];
        assert(reg.owned_array_value(owner, j) == h);
    }
    if exists|j: u64|
        j < count_of(reg.owned_count_map(), owner) && #[trigger] reg.owned_array_value(owner, j)
            == h {
        let j = choose|j: u64|
            j < count_of(reg.owned_count_map(), owner) && #[trigger] reg.owned_array_value(
                owner,
                j,
            ) == h;
        assert(reg.owned_array_map().dom().contains((owner, j)));
    }
}

/// In a consistent registry, no kitty stands twice in the list of all kitties, nor twice in the
/// list of an owner.
pub proof fn lemma_listed_once<K: KittyRecord>(reg: KittyRegistry<K>, owner: u64, i: u64, j: u64)
    requires
        reg.wf(),
        i != j,
    ensures
        i < reg.total() && j < reg.total() ==> reg.all_array_value(i) != reg.all_array_value(j),
        i < count_of(reg.owned_count_map(), owner) && j < count_of(reg.owned_count_map(), owner)
            ==> reg.owned_array_value(owner, i) != reg.owned_array_value(owner, j),
{
    if i < reg.total() && j < reg.total() {
        assert(reg.all_array_map().dom().contains(i));
        assert(reg.all_array_map().dom().contains(j));
    }
    if i < count_of(reg.owned_count_map(), owner) && j < count_of(reg.owned_count_map(), owner) {
        assert(reg.owned_array_map().dom().contains((owner, i)));
        assert(reg.owned_array_map().dom().contains((owner, j)));
    }
}

/// In a consistent registry, a kitty stands in the list of one owner only.
pub proof fn lemma_one_owner<K: KittyRecord>(reg: KittyRegistry<K>, o1: u64, j1: u64, o2: u64, j2: u64)
    requires
        reg.wf(),
        j1 < count_of(reg.owned_count_map(), o1),
        j2 < count_of(reg.owned_count_map(), o2),
        reg.owned_array_value(o1, j1) == reg.owned_array_value(o2, j2),
    ensures
        o1 == o2,
{
    assert(reg.owned_array_map().dom().contains((o1, j1)));
    assert(reg.owned_array_map().dom().contains((o2, j2)));
}

/// Adding an unowned kitty keeps the registry consistent.
pub proof fn lemma_add_keeps_wf<K>(
    kitties: Map<[u8; 32], K>,
    owner: Map<[u8; 32], u64>,
    all_array: Map<u64, [u8; 32]>,
    total: u64,
    all_index: Map<[u8; 32], u64>,
    owned_array: Map<(u64, u64), [u8; 32]>,
    owned_count: Map<u64, u64>,
    owned_index: Map<[u8; 32], u64>,
    to: u64,
    id: [u8; 32],
    kitty: K,
)
    requires
        registry_wf(
            kitties,
            owner,
            all_array,
            total,
            all_index,
            owned_array,
            owned_count,
            owned_index,
        ),
        !owner.dom().contains(id),
        total < u64::MAX,
        count_of(owned_count, to) < u64::MAX,
    ensures
        ({
            let oc = count_of(owned_count, to);
            registry_wf(
                kitties.insert(id, kitty),
                owner.insert(id, to),
                all_array.insert(total, id),
                (total + 1) as u64,
                all_index.insert(id, total),
                owned_array.insert((to, oc), id),
                owned_count.insert(to, (oc + 1) as u64),
                owned_index.insert(id, oc),
            )
        }),
{
    let oc = count_of(owned_count, to);
    let k2 = kitties.insert(id, kitty);
    let o2 = owner.insert(id, to);
    let a2 = all_array.insert(total, id);
    let t2 = (total + 1) as u64;
    let i2 = all_index.insert(id, total);
    let oa2 = owned_array.insert((to, oc), id);
    let oc2 = owned_count.insert(to, (oc + 1) as u64);
    let oi2 = owned_index.insert(id, oc);
    assert forall|o: u64| #[trigger] count_of(oc2, o) == if o == to {
        oc + 1
    } else {
        count_of(owned_count, o) as int
    } by {}
    assert forall|i: u64| i < t2 implies #[trigger] a2.dom().contains(i) && o2.dom().contains(a2[i])
        && i2.dom().contains(a2[i]) && i2[a2[i]] == i by {
        if i < total {
            assert(all_array.dom().contains(i));
            assert(owner.dom().contains(all_array[i]));
        }
    }
    assert forall|h: [u8; 32]| #[trigger] o2.dom().contains(h) implies {
        &&& k2.dom().contains(h)
        &&& i2.dom().contains(h)
        &&& i2[h] < t2
        &&& a2.dom().contains(i2[h])
        &&& a2[i2[h]] == h
        &&& oi2.dom().contains(h)
        &&& oi2[h] < count_of(oc2, o2[h])
        &&& oa2.dom().contains((o2[h], oi2[h]))
        &&& oa2[(o2[h], oi2[h])] == h
    } by {
        if h != id {
            assert(owner.dom().contains(h));
            assert(count_of(oc2, owner[h]) >= count_of(owned_count, owner[h]));
        }
    }
    assert forall|o: u64, j: u64| j < count_of(oc2, o) implies #[trigger] oa2.dom().contains((o, j))
        && o2.dom().contains(oa2[(o, j)]) && o2[oa2[(o, j)]] == o && oi2.dom().contains(oa2[(o, j)])
        && oi2[oa2[(o, j)]] == j by {
        if !(o == to && j == oc) {
            assert(j < count_of(owned_count, o));
            assert(owned_array.dom().contains((o, j)));
            assert(owner.dom().contains(owned_array[(o, j)]));
        }
    }
    assert forall|h: [u8; 32]| #[trigger] k2.dom().contains(h) implies o2.dom().contains(h) by {
        if h != id {
            assert(kitties.dom().contains(h));
        }
    }
}

} // verus!
