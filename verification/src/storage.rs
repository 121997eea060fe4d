//! A key-value store with exact map semantics, standing for a runtime storage map.
use vstd::prelude::*;

verus! {

/// A key whose equality can be decided in executable code.
pub trait StorageKey: Sized {
    fn same_key(&self, other: &Self) -> (same: bool)
        ensures
            same == (*self == *other),
    ;
}

impl StorageKey for u32 {
    fn same_key(&self, other: &Self) -> (same: bool) {
        *self == *other
    }
}

impl StorageKey for u64 {
    fn same_key(&self, other: &Self) -> (same: bool) {
        *self == *other
    }
}

impl StorageKey for (u64, u64) {
    fn same_key(&self, other: &Self) -> (same: bool) {
        self.0 == other.0 && self.1 == other.1
    }
}

impl StorageKey for (u64, Option<u64>) {
    fn same_key(&self, other: &Self) -> (same: bool) {
        if self.0 != other.0 {
            return false;
        }
        match (self.1, other.1) {
            (None, None) => true,
            (Some(a), Some(b)) => a == b,
            _ => false,
        }
    }
}

impl StorageKey for [u8; 32] {
    fn same_key(&self, other: &Self) -> (same: bool) {
        let mut i: usize = 0;
        while i < 32
            invariant
                0 <= i <= 32,
                forall|j: int| 0 <= j < i ==> self[j] == other[j],
            decreases 32 - i,
        {
            if self[i] != other[i] {
                return false;
            }
            i = i + 1;
        }
        proof {
            broadcast use vstd::array::axiom_array_ext_equal;
            assert(*self =~= *other);
        }
        true
    }
}

/// The map that a sequence of entries with distinct keys stands for.
pub open spec fn entries_map<K, V>(s: Seq<(K, V)>) -> Map<K, V> {
    Map::new(
        |k: K| exists|i: int| 0 <= i < s.len() && s[i].0 == k,
        |k: K| s[choose|i: int| 0 <= i < s.len() && s[i].0 == k].1,
    )
}

/// No key occurs twice among the entries.
pub open spec fn keys_distinct<K, V>(s: Seq<(K, V)>) -> bool {
    forall|i: int, j: int| 0 <= i < s.len() && 0 <= j < s.len() && i != j ==> s[i].0 != s[j].0
}

proof fn lemma_entry<K, V>(s: Seq<(K, V)>, i: int)
    requires
        keys_distinct(s),
        0 <= i < s.len(),
    ensures
        entries_map(s).dom().contains(s[i].0),
        entries_map(s)[s[i].0] == s[i].1,
{
    let k = s[i].0;
    assert(0 <= i < s.len() && s[i].0 == k);
    let j = choose|j: int| 0 <= j < s.len() && s[j].0 == k;
    assert(j == i);
}

proof fn lemma_absent<K, V>(s: Seq<(K, V)>, k: K)
    requires
        forall|i: int| 0 <= i < s.len() ==> s[i].0 != k,
    ensures
        !entries_map(s).dom().contains(k),
{
}

/// `t` is `s` with `(k, v)` placed at position `i`: over an entry of key `k` there, or after the
/// last entry where `s` has no entry of key `k`. Its map is the map of `s` with `k` set to `v`.
proof fn lemma_entry_placed<K, V>(s: Seq<(K, V)>, t: Seq<(K, V)>, i: int, k: K, v: V)
    requires
        keys_distinct(s),
        0 <= i < t.len(),
        t[i] == (k, v),
        i < s.len() ==> s[i].0 == k,
        i == s.len() ==> forall|j: int| 0 <= j < s.len() ==> s[j].0 != k,
        t.len() == if i < s.len() { s.len() } else { s.len() + 1 },
        forall|j: int| 0 <= j < s.len() && j != i ==> t[j] == s[j],
    ensures
        keys_distinct(t),
        entries_map(t) == entries_map(s).insert(k, v),
{
    assert forall|a: int, b: int| 0 <= a < t.len() && 0 <= b < t.len() && a != b implies t[a].0
        != t[b].0 by {
        if a != i && b != i {
            assert(t[a] == s[a] && t[b] == s[b]);
        } else if a == i {
            assert(t[b] == s[b]);
        } else {
            assert(t[a] == s[a]);
        }
    }
    let old_map = entries_map(s);
    assert forall|x: K| #[trigger] entries_map(t).dom().contains(x) == old_map.insert(
        k,
        v,
    ).dom().contains(x) by {
        if x != k && old_map.dom().contains(x) {
            let j = choose|j: int| 0 <= j < s.len() && s[j].0 == x;
            assert(t[j].0 == x);
        }
        if x != k && entries_map(t).dom().contains(x) {
            let j = choose|j: int| 0 <= j < t.len() && t[j].0 == x;
            assert(s[j].0 == x);
        }
        if x == k {
            lemma_entry(t, i);
        }
    }
    assert forall|x: K| #[trigger] entries_map(t).dom().contains(x) implies entries_map(t)[x]
        == old_map.insert(k, v)[x] by {
        let j = choose|j: int| 0 <= j < t.len() && t[j].0 == x;
        lemma_entry(t, j);
        if j != i {
            lemma_entry(s, j);
        }
    }
    assert(entries_map(t) =~= old_map.insert(k, v));
}

/// A storage map: each key holds at most one value.
pub struct StorageMap<K: StorageKey, V: Copy> {
    entries: Vec<(K, V)>,
}

impl<K: StorageKey, V: Copy> View for StorageMap<K, V> {
    type V = Map<K, V>;

    closed spec fn view(&self) -> Map<K, V> {
        entries_map(self.entries@)
    }
}

impl<K: StorageKey, V: Copy> StorageMap<K, V> {
    #[verifier::type_invariant]
    spec fn inv(self) -> bool {
        keys_distinct(self.entries@)
    }

    /// An empty map.
    pub fn new() -> (m: Self)
        ensures
            m@ == Map::<K, V>::empty(),
    {
        let m = StorageMap { entries: Vec::new() };
        assert(m@ =~= Map::<K, V>::empty());
        m
    }

    fn find(&self, k: &K) -> (r: Option<usize>)
        ensures
            match r {
                Some(i) => i < self.entries@.len() && self.entries@[i as int].0 == *k,
                None => forall|i: int| 0 <= i < self.entries@.len() ==> self.entries@[i].0 != *k,
            },
    {
        let n = self.entries.len();
        let mut i: usize = 0;
        while i < n
            invariant
                n == self.entries@.len(),
                0 <= i <= n,
                forall|j: int| 0 <= j < i ==> self.entries@[j].0 != *k,
            decreases n - i,
        {
            if self.entries[i].0.same_key(k) {
                return Some(i);
            }
            i = i + 1;
        }
        None
    }

    /// The value stored under `k`, if any.
    pub fn get(&self, k: &K) -> (r: Option<V>)
        ensures
            r == (if self@.dom().contains(*k) { Some(self@[*k]) } else { None::<V> }),
    {
        proof {
            use_type_invariant(self);
        }
        match self.find(k) {
            Some(i) => {
                proof {
                    lemma_entry(self.entries@, i as int);
                }
                Some(self.entries[i].1)
            },
            None => {
                proof {
                    lemma_absent(self.entries@, *k);
                }
                None
            },
        }
    }

    /// Whether a value is stored under `k`.
    pub fn contains_key(&self, k: &K) -> (b: bool)
        ensures
            b == self@.dom().contains(*k),
    {
        proof {
            use_type_invariant(self);
        }
        match self.find(k) {
            Some(i) => {
                proof {
                    lemma_entry(self.entries@, i as int);
                }
                true
            },
            None => {
                proof {
                    lemma_absent(self.entries@, *k);
                }
                false
            },
        }
    }

    /// Stores `v` under `k`, replacing what was there.
    pub fn insert(&mut self, k: K, v: V)
        ensures
            final(self)@ == old(self)@.insert(k, v),
    {
        proof {
            use_type_invariant(&*self);
        }
        let ghost old_map = self@;
        let found = self.find(&k);
        let mut entries: Vec<(K, V)> = Vec::new();
        std::mem::swap(&mut entries, &mut self.entries);
        let ghost s = entries@;
        match found {
            Some(i) => {
                entries.set(i, (k, v));
                proof {
                    lemma_entry_placed(s, entries@, i as int, k, v);
                }
            },
            None => {
                entries.push((k, v));
                proof {
                    lemma_entry_placed(s, entries@, s.len() as int, k, v);
                }
            },
        }
        assert(entries_map(entries@) == old_map.insert(k, v));
        self.entries = entries;
    }

    /// Removes what is stored under `k` and hands it back.
    pub fn take(&mut self, k: &K) -> (r: Option<V>)
        ensures
            r == (if old(self)@.dom().contains(*k) { Some(old(self)@[*k]) } else { None::<V> }),
            final(self)@ == old(self)@.remove(*k),
    {
        proof {
            use_type_invariant(&*self);
        }
        let ghost old_map = self@;
        let found = self.find(k);
        match found {
            None => {
                proof {
                    lemma_absent(self.entries@, *k);
                    assert(old_map.remove(*k) =~= old_map);
                }
                None
            },
            Some(i) => {
                proof {
                    lemma_entry(self.entries@, i as int);
                }
                let mut entries: Vec<(K, V)> = Vec::new();
                std::mem::swap(&mut entries, &mut self.entries);
                let ghost s = entries@;
                let removed = entries.remove(i);
                let ghost t = entries@;
                assert(keys_distinct(t));
                proof {
                    assert forall|x: K| #[trigger] entries_map(t).dom().contains(x)
                        == old_map.remove(*k).dom().contains(x) by {
                        if x != *k && old_map.dom().contains(x) {
                            let j = choose|j: int| 0 <= j < s.len() && s[j].0 == x;
                            if j < i {
                                assert(t[j].0 == x);
                            } else {
                                assert(t[j - 1].0 == x);
                            }
                        }
                        if entries_map(t).dom().contains(x) {
                            let j = choose|j: int| 0 <= j < t.len() && t[j].0 == x;
                            if j < i {
                                assert(s[j].0 == x);
                            } else {
                                assert(s[j + 1].0 == x);
                            }
                        }
                    }
                    assert forall|x: K| #[trigger] entries_map(t).dom().contains(x)
                        implies entries_map(t)[x] == old_map.remove(*k)[x] by {
                        let j = choose|j: int| 0 <= j < t.len() && t[j].0 == x;
                        lemma_entry(t, j);
                        if j < i {
                            lemma_entry(s, j);
                        } else {
                            lemma_entry(s, j + 1);
                        }
                    }
                    assert(entries_map(t) =~= old_map.remove(*k));
                }
                self.entries = entries;
                Some(removed.1)
            },
        }
    }

    /// Removes what is stored under `k`.
    pub fn remove(&mut self, k: &K)
        ensures
            final(self)@ == old(self)@.remove(*k),
    {
        let _ = self.take(k);
    }
}

} // verus!
