//! Lists per key in a storage map, updated by writing each neighbour in turn, reading it back
//! after the previous write.
use vstd::prelude::*;
pub use crate::linked_item::LinkedItem;
use crate::linked_item::{
    append_result, holds_list, lemma_append_pushes, lemma_empty_store_holds_empty_list,
    lemma_remove_deletes, lemma_walks_visit_list, lemma_write_then_read, ops_model, ops_valid, read_item, remove_result,
    same_off_key, walk_next, walk_prev, ListOp, ListStore,
};
use crate::storage::StorageMap;

verus! {

/// The storage after `append(key, value)`.
pub open spec fn ring_append_result(m: ListStore, key: u64, value: u64) -> ListStore {
    let head = read_item(m, key, None);
    let m1 = m.insert((key, None), LinkedItem { prev: Some(value), next: head.next });
    let prev = read_item(m1, key, head.prev);
    let m2 = m1.insert((key, head.prev), LinkedItem { prev: prev.prev, next: Some(value) });
    m2.insert((key, Some(value)), LinkedItem { prev: head.prev, next: None })
}

/// The storage after `remove(key, value)`.
pub open spec fn ring_remove_result(m: ListStore, key: u64, value: u64) -> ListStore {
    if m.dom().contains((key, Some(value))) {
        let item = m[(key, Some(value))];
        let m0 = m.remove((key, Some(value)));
        let prev = read_item(m0, key, item.prev);
        let m1 = m0.insert((key, item.prev), LinkedItem { prev: prev.prev, next: item.next });
        let next = read_item(m1, key, item.next);
        m1.insert((key, item.next), LinkedItem { prev: item.prev, next: next.next })
    } else {
        m
    }
}

/// On a well-formed list, appending a new value writes what the two-branch append writes.
pub proof fn lemma_ring_append_agrees(m: ListStore, key: u64, s: Seq<u64>, value: u64)
    requires
        holds_list(m, key, s),
        !s.contains(value),
    ensures
        ring_append_result(m, key, value) == append_result(m, key, value),
{
    let n = s.len() as int;
    if n > 0 {
        assert(m.dom().contains((key, Some(s[n - 1]))));
    }
    assert(ring_append_result(m, key, value) =~= append_result(m, key, value));
}

/// On a well-formed list, removing a member writes what the two-branch remove writes.
pub proof fn lemma_ring_remove_agrees(m: ListStore, key: u64, s: Seq<u64>, p: int)
    requires
        holds_list(m, key, s),
        0 <= p < s.len(),
    ensures
        ring_remove_result(m, key, s[p]) == remove_result(m, key, s[p]),
{
    let n = s.len() as int;
    assert(m.dom().contains((key, Some(s[p]))));
    if p > 0 {
        assert(m.dom().contains((key, Some(s[p - 1]))));
    }
    if p < n - 1 {
        assert(m.dom().contains((key, Some(s[p + 1]))));
    }
    if p > 0 && p < n - 1 {
        assert(s[p - 1] != s[p + 1]);
    }
    assert(ring_remove_result(m, key, s[p]) =~= remove_result(m, key, s[p]));
}

/// Appending a value that is not in the list of `key` adds it at the end.
pub proof fn lemma_ring_append_pushes(m: ListStore, key: u64, s: Seq<u64>, value: u64)
    requires
        holds_list(m, key, s),
        !s.contains(value),
    ensures
        holds_list(ring_append_result(m, key, value), key, s.push(value)),
{
    lemma_ring_append_agrees(m, key, s, value);
    lemma_append_pushes(m, key, s, value);
}

/// Removing the value at position `p` of the list of `key` takes it out of the list.
pub proof fn lemma_ring_remove_deletes(m: ListStore, key: u64, s: Seq<u64>, p: int)
    requires
        holds_list(m, key, s),
        0 <= p < s.len(),
    ensures
        holds_list(ring_remove_result(m, key, s[p]), key, s.remove(p)),
{
    lemma_ring_remove_agrees(m, key, s, p);
    lemma_remove_deletes(m, key, s, p);
}

/// Removing a value that is not in the list of `key` changes nothing.
pub proof fn lemma_ring_remove_absent(m: ListStore, key: u64, s: Seq<u64>, value: u64)
    requires
        holds_list(m, key, s),
        !s.contains(value),
    ensures
        ring_remove_result(m, key, value) == m,
{
}

/// Appending or removing under `key` touches no other key.
pub proof fn lemma_ring_keeps_other_keys(m: ListStore, key: u64, value: u64)
    ensures
        same_off_key(m, ring_append_result(m, key, value), key),
        same_off_key(m, ring_remove_result(m, key, value), key),
{
}

/// Removing a value just appended gives the list back as it was.
pub proof fn lemma_ring_append_then_remove(m: ListStore, key: u64, s: Seq<u64>, value: u64)
    requires
        holds_list(m, key, s),
        !s.contains(value),
    ensures
        holds_list(ring_remove_result(ring_append_result(m, key, value), key, value), key, s),
{
    let t = s.push(value);
    lemma_ring_append_pushes(m, key, s, value);
    assert(t[s.len() as int] == value);
    lemma_ring_remove_deletes(ring_append_result(m, key, value), key, t, s.len() as int);
    assert(t.remove(s.len() as int) =~= s);
}

/// The storage after running `ops` under `key`, starting from `m`.
pub open spec fn ring_apply_ops(m: ListStore, key: u64, ops: Seq<ListOp>) -> ListStore
    decreases ops.len(),
{
    if ops.len() == 0 {
        m
    } else {
        let before = ring_apply_ops(m, key, ops.drop_last());
        match ops.last() {
            ListOp::Append(v) => ring_append_result(before, key, v),
            ListOp::Remove(v) => ring_remove_result(before, key, v),
        }
    }
}

/// From empty storage, a run of appends of new values and removes of present values leaves
/// under `key` exactly the list of appended values, in order, less the removed ones; following
/// `next` links from the head visits them in order and comes back to the head, following `prev`
/// links visits them in reverse.
pub proof fn lemma_ring_ops_build_list(key: u64, ops: Seq<ListOp>)
    requires
        ops_valid(ops),
    ensures
        holds_list(ring_apply_ops(ListStore::empty(), key, ops), key, ops_model(ops)),
        ({
            let m = ring_apply_ops(ListStore::empty(), key, ops);
            let s = ops_model(ops);
            &&& walk_next(m, key, None, (s.len() + 1) as nat) == s
            &&& walk_prev(m, key, None, (s.len() + 1) as nat) == s.reverse()
        }),
    decreases ops.len(),
{
    if ops.len() == 0 {
        lemma_empty_store_holds_empty_list(key);
    } else {
        let prev_ops = ops.drop_last();
        lemma_ring_ops_build_list(key, prev_ops);
        let m = ring_apply_ops(ListStore::empty(), key, prev_ops);
        let s = ops_model(prev_ops);
        match ops.last() {
            ListOp::Append(v) => {
                lemma_ring_append_pushes(m, key, s, v);
            },
            ListOp::Remove(v) => {
                let i = s.index_of(v);
                assert(s[i] == v);
                lemma_ring_remove_deletes(m, key, s, i);
            },
        }
    }
    lemma_walks_visit_list(ring_apply_ops(ListStore::empty(), key, ops), key, ops_model(ops));
}

/// Lists of values per key, kept in one storage map.
pub struct LinkedList {
    storage: StorageMap<(u64, Option<u64>), LinkedItem<u64>>,
}

impl View for LinkedList {
    type V = ListStore;

    closed spec fn view(&self) -> ListStore {
        self.storage@
    }
}

impl LinkedList {
    /// Empty storage: every key holds the empty list.
    pub fn new() -> (list: Self)
        ensures
            list@ == ListStore::empty(),
    {
        LinkedList { storage: StorageMap::new() }
    }

    /// The head node of the list of `key`, or the empty node where there is none.
    pub fn read_head(&self, key: &u64) -> (item: LinkedItem<u64>)
        ensures
            item == read_item(self@, *key, None),
    {
        self.read(key, None)
    }

    /// Stores `item` as the head node of the list of `key`: a read of the head gives `item`
    /// back, and every other slot reads as before.
    pub fn write_head(&mut self, key: &u64, item: LinkedItem<u64>)
        ensures
            final(self)@ == old(self)@.insert((*key, None), item),
            read_item(final(self)@, *key, None) == item,
            forall|k2: u64, v2: Option<u64>|
                (k2, v2) != (*key, None::<u64>) ==> #[trigger] read_item(final(self)@, k2, v2)
                    == read_item(old(self)@, k2, v2),
    {
        self.write(key, None, item);
        proof {
            lemma_write_then_read(old(self)@, *key, None, item);
        }
    }

    /// The node stored under `(key, value)`, or the empty node where there is none.
    pub fn read(&self, key: &u64, value: Option<u64>) -> (item: LinkedItem<u64>)
        ensures
            item == read_item(self@, *key, value),
    {
        match self.storage.get(&(*key, value)) {
            Some(item) => item,
            None => LinkedItem { prev: None, next: None },
        }
    }

    fn write(&mut self, key: &u64, value: Option<u64>, item: LinkedItem<u64>)
        ensures
            final(self)@ == old(self)@.insert((*key, value), item),
    {
        self.storage.insert((*key, value), item);
    }

    /// Appends `value` at the end of the list of `key`.
    pub fn append(&mut self, key: &u64, value: u64)
        ensures
            final(self)@ == ring_append_result(old(self)@, *key, value),
    {
        let head = self.read_head(key);
        let new_head = LinkedItem { prev: Some(value), next: head.next };
        self.write_head(key, new_head);
        let prev = self.read(key, head.prev);
        let new_prev = LinkedItem { prev: prev.prev, next: Some(value) };
        self.write(key, head.prev, new_prev);
        let item = LinkedItem { prev: head.prev, next: None };
        self.write(key, Some(value), item);
    }

    /// Unlinks `value` from the list of `key` and deletes its node; nothing happens when `value`
    /// has no node.
    pub fn remove(&mut self, key: &u64, value: u64)
        ensures
            final(self)@ == ring_remove_result(old(self)@, *key, value),
    {
        if let Some(item) = self.storage.take(&(*key, Some(value))) {
            let prev = self.read(key, item.prev);
            let new_prev = LinkedItem { prev: prev.prev, next: item.next };
            self.write(key, item.prev, new_prev);
            let next = self.read(key, item.next);
            let new_next = LinkedItem { prev: item.prev, next: next.next };
            self.write(key, item.next, new_next);
        }
    }
}

} // verus!
