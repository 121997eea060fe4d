//! A doubly linked list per key, kept in a storage map whose head node sits under `None`.
use vstd::prelude::*;
use crate::scale::{
    decode_option_u64, encode_option_u64_to, lemma_option_u64_prefix_unique, option_u64_bytes,
};
use crate::storage::StorageMap;

verus! {

/// A node of a stored list: the values before and after it, `None` standing for the head.
#[derive(Clone, Copy, Debug, PartialEq, Eq)]
pub struct LinkedItem<Value> {
    pub prev: Option<Value>,
    pub next: Option<Value>,
}

/// Why bytes did not decode to a `LinkedItem`.
#[derive(Clone, Copy, Debug, PartialEq, Eq)]
pub enum DecodeError {
    /// The bytes do not start with the encoding of the `prev` link.
    BadPrev,
    /// What follows the `prev` link does not start with the encoding of the `next` link.
    BadNext,
}

/// The contents of the storage that holds the lists: `(key, None)` is the head of the list of
/// `key`, `(key, Some(v))` the node of `v`.
pub type ListStore = Map<(u64, Option<u64>), LinkedItem<u64>>;

/// The node with no neighbours, which a read of an absent slot gives.
pub open spec fn empty_item() -> LinkedItem<u64> {
    LinkedItem { prev: None, next: None }
}

/// What a read of slot `(key, value)` gives: the stored node, or the empty one.
pub open spec fn read_item(m: ListStore, key: u64, value: Option<u64>) -> LinkedItem<u64> {
    if m.dom().contains((key, value)) {
        m[(key, value)]
    } else {
        empty_item()
    }
}

/// SCALE encoding of a node: its `prev` link, then its `next` link.
pub open spec fn item_bytes(item: LinkedItem<u64>) -> Seq<u8> {
    option_u64_bytes(item.prev) + option_u64_bytes(item.next)
}

/// The link to the element before position `i` of `s`, `None` meaning the head.
pub open spec fn prev_link(s: Seq<u64>, i: int) -> Option<u64> {
    if i == 0 {
        None
    } else {
        Some(s[i - 1])
    }
}

/// The link to the element after position `i` of `s`, `None` meaning the head.
pub open spec fn next_link(s: Seq<u64>, i: int) -> Option<u64> {
    if i == s.len() - 1 {
        None
    } else {
        Some(s[i + 1])
    }
}

/// The head node of a list holding `s`: it points back to the last element and on to the first.
pub open spec fn head_item(s: Seq<u64>) -> LinkedItem<u64> {
    if s.len() == 0 {
        empty_item()
    } else {
        LinkedItem { prev: Some(s[s.len() - 1]), next: Some(s[0]) }
    }
}

/// The storage holds, under `key`, exactly the list `s`: distinct values, a head that points
/// to both ends, each node linked to its neighbours, and no node for any other value.
pub open spec fn holds_list(m: ListStore, key: u64, s: Seq<u64>) -> bool {
    &&& s.no_duplicates()
    &&& read_item(m, key, None) == head_item(s)
    &&& forall|i: int|
        0 <= i < s.len() ==> #[trigger] m.dom().contains((key, Some(s[i]))) && m[(key, Some(s[i]))]
            == (LinkedItem { prev: prev_link(s, i), next: next_link(s, i) })
    &&& forall|v: u64| #[trigger] m.dom().contains((key, Some(v))) ==> s.contains(v)
}

/// The storage after `append(key, value)`.
pub open spec fn append_result(m: ListStore, key: u64, value: u64) -> ListStore {
    let head = read_item(m, key, None);
    let m1 = m.insert((key, Some(value)), LinkedItem { prev: head.prev, next: None });
    match head.prev {
        Some(v) => {
            let last = read_item(m1, key, Some(v));
            m1.insert((key, Some(v)), LinkedItem { prev: last.prev, next: Some(value) }).insert(
                (key, None),
                LinkedItem { prev: Some(value), next: head.next },
            )
        },
        None => m1.insert((key, None), LinkedItem { prev: Some(value), next: Some(value) }),
    }
}

/// The storage after `remove(key, value)`.
pub open spec fn remove_result(m: ListStore, key: u64, value: u64) -> ListStore {
    let item = read_item(m, key, Some(value));
    let m1 = if item.prev == item.next {
        m.insert((key, None), empty_item())
    } else {
        let prev = read_item(m, key, item.prev);
        let next = read_item(m, key, item.next);
        m.insert((key, item.prev), LinkedItem { prev: prev.prev, next: item.next }).insert(
            (key, item.next),
            LinkedItem { prev: item.prev, next: next.next },
        )
    };
    m1.remove((key, Some(value)))
}

impl LinkedItem<u64> {
    /// Appends the SCALE encoding of the node to `dest`: `prev`, then `next`.
    pub fn encode_to(&self, dest: &mut Vec<u8>)
        ensures
            final(dest)@ == old(dest)@ + item_bytes(*self),
            final(dest)@ == old(dest)@ + option_u64_bytes(self.prev) + option_u64_bytes(self.next),
    {
        encode_option_u64_to(&self.prev, dest);
        encode_option_u64_to(&self.next, dest);
        assert(final(dest)@ =~= old(dest)@ + item_bytes(*self));
    }

    /// The SCALE encoding of the node.
    pub fn encode(&self) -> (bytes: Vec<u8>)
        ensures
            bytes@ == item_bytes(*self),
    {
        let mut bytes: Vec<u8> = Vec::new();
        self.encode_to(&mut bytes);
        assert(bytes@ =~= item_bytes(*self));
        bytes
    }

    /// Decodes a node from the start of `input`, handing back the bytes that follow it.
    /// It fails exactly when `input` does not start with the encoding of a node: with `BadPrev`
    /// when it does not even start with the encoding of a link, with `BadNext` otherwise.
    pub fn decode(input: &[u8]) -> (res: Result<(LinkedItem<u64>, &[u8]), DecodeError>)
        ensures
            match res {
                Ok((item, rest)) => input@ == item_bytes(item) + rest@,
                Err(_) => forall|item: LinkedItem<u64>, rest: Seq<u8>|
                    input@ != item_bytes(item) + rest,
            },
            res matches Ok((item, rest)) ==> input@ == option_u64_bytes(item.prev)
                + option_u64_bytes(item.next) + rest@,
            (res == Err::<(LinkedItem<u64>, &[u8]), DecodeError>(DecodeError::BadPrev)) <==> (
            forall|v: Option<u64>, rest: Seq<u8>| input@ != option_u64_bytes(v) + rest),
    {
        let (prev, after_prev) = match decode_option_u64(input) {
            Ok(r) => r,
            Err(_) => {
                assert forall|item: LinkedItem<u64>, rest: Seq<u8>|
                    input@ != item_bytes(item) + rest by {
                    assert(item_bytes(item) + rest =~= option_u64_bytes(item.prev) + (
                    option_u64_bytes(item.next) + rest));
                }
                return Err(DecodeError::BadPrev);
            },
        };
        assert(input@ == option_u64_bytes(prev) + after_prev@);
        let (next, rest) = match decode_option_u64(after_prev) {
            Ok(r) => r,
            Err(_) => {
                assert forall|item: LinkedItem<u64>, rest: Seq<u8>|
                    input@ != item_bytes(item) + rest by {
                    if input@ == item_bytes(item) + rest {
                        assert(item_bytes(item) + rest =~= option_u64_bytes(item.prev) + (
                        option_u64_bytes(item.next) + rest));
                        lemma_option_u64_prefix_unique(
                            prev,
                            after_prev@,
                            item.prev,
                            option_u64_bytes(item.next) + rest,
                        );
                    }
                }
                return Err(DecodeError::BadNext);
            },
        };
        let item = LinkedItem { prev, next };
        assert(input@ =~= item_bytes(item) + rest@);
        Ok((item, rest))
    }
}

/// The encoding of a node is the SCALE encoding of its `prev` link followed by that of its
/// `next` link, which is how the codec encodes the pair `(prev, next)`: it starts with the tag
/// of `prev`, and the tag of `next` follows the bytes of `prev`.
pub proof fn lemma_item_bytes_prev_then_next(item: LinkedItem<u64>)
    ensures
        item_bytes(item) == option_u64_bytes(item.prev) + option_u64_bytes(item.next),
        item_bytes(item)[0] == (if item.prev is Some { 1u8 } else { 0u8 }),
        item_bytes(item)[option_u64_bytes(item.prev).len() as int] == (if item.next is Some {
            1u8
        } else {
            0u8
        }),
        item_bytes(item).len() == (if item.prev is Some { 9int } else { 1int }) + (
        if item.next is Some { 9int } else { 1int }),
{
}

/// Decoding the bytes `option_u64_bytes(p) + option_u64_bytes(n) + rest` gives the node whose
/// `prev` is the link read first, `p`, and whose `next` is `n`, with `rest` left over.
pub proof fn lemma_decode_reads_prev_first(p: Option<u64>, n: Option<u64>, rest: Seq<u8>, decoded: LinkedItem<u64>, left: Seq<u8>)
    requires
        option_u64_bytes(p) + option_u64_bytes(n) + rest == option_u64_bytes(decoded.prev)
            + option_u64_bytes(decoded.next) + left,
    ensures
        decoded.prev == p,
        decoded.next == n,
        left == rest,
{
    let a = option_u64_bytes(p) + option_u64_bytes(n) + rest;
    assert(a =~= option_u64_bytes(p) + (option_u64_bytes(n) + rest));
    assert(option_u64_bytes(decoded.prev) + option_u64_bytes(decoded.next) + left
        =~= option_u64_bytes(decoded.prev) + (option_u64_bytes(decoded.next) + left));
    lemma_option_u64_prefix_unique(
        p,
        option_u64_bytes(n) + rest,
        decoded.prev,
        option_u64_bytes(decoded.next) + left,
    );
    lemma_option_u64_prefix_unique(n, rest, decoded.next, left);
}

/// Decoding the encoding of a node gives the node back, with nothing left over.
pub proof fn lemma_decode_encode(item: LinkedItem<u64>, decoded: LinkedItem<u64>, rest: Seq<u8>)
    requires
        item_bytes(item) == item_bytes(decoded) + rest,
    ensures
        decoded == item,
        rest.len() == 0,
{
    assert(item_bytes(item) =~= option_u64_bytes(item.prev) + (option_u64_bytes(item.next)
        + Seq::<u8>::empty()));
    assert(item_bytes(decoded) + rest =~= option_u64_bytes(decoded.prev) + (option_u64_bytes(
        decoded.next,
    ) + rest));
    lemma_option_u64_prefix_unique(
        item.prev,
        option_u64_bytes(item.next) + Seq::<u8>::empty(),
        decoded.prev,
        option_u64_bytes(decoded.next) + rest,
    );
    lemma_option_u64_prefix_unique(item.next, Seq::<u8>::empty(), decoded.next, rest);
}

/// In empty storage every key holds the empty list.
pub proof fn lemma_empty_store_holds_empty_list(key: u64)
    ensures
        holds_list(ListStore::empty(), key, Seq::<u64>::empty()),
{
}

/// Appending a value that is not in the list of `key` adds it at the end.
pub proof fn lemma_append_pushes(m: ListStore, key: u64, s: Seq<u64>, value: u64)
    requires
        holds_list(m, key, s),
        !s.contains(value),
    ensures
        holds_list(append_result(m, key, value), key, s.push(value)),
{
    let r = append_result(m, key, value);
    let t = s.push(value);
    let n = s.len() as int;
    assert forall|i: int, j: int| 0 <= i < t.len() && 0 <= j < t.len() && i != j implies t[i]
        != t[j] by {
        if i == n {
            assert(s.contains(t[j]));
        } else if j == n {
            assert(s.contains(t[i]));
        }
    }
    if n == 0 {
        assert(t[0] == value);
        assert forall|v: u64| #[trigger] r.dom().contains((key, Some(v))) implies t.contains(v) by {
            if v != value {
                assert(m.dom().contains((key, Some(v))));
            } else {
                assert(t[0] == v);
            }
        }
    } else {
        let last = s[n - 1];
        assert(m.dom().contains((key, Some(s[n - 1]))));
        assert(last != value);
        assert forall|i: int| 0 <= i < t.len() implies #[trigger] r.dom().contains(
            (key, Some(t[i])),
        ) && r[(key, Some(t[i]))] == (LinkedItem {
            prev: prev_link(t, i),
            next: next_link(t, i),
        }) by {
            if i < n {
                assert(m.dom().contains((key, Some(s[i]))));
                assert(t[i] == s[i]);
                if i < n - 1 {
                    assert(s[i] != last);
                    assert(s[i] != value);
                }
            }
        }
        assert forall|v: u64| #[trigger] r.dom().contains((key, Some(v))) implies t.contains(v) by {
            if v != value && v != last {
                assert(m.dom().contains((key, Some(v))));
                let k = choose|k: int| 0 <= k < s.len() && s[k] == v;
                assert(t[k] == v);
            } else if v == value {
                assert(t[n] == v);
            } else {
                assert(t[n - 1] == v);
            }
        }
    }
}

/// Removing the value at position `p` of the list of `key` takes it out of the list.
#[verifier::spinoff_prover]
#[verifier::rlimit(40)]
pub proof fn lemma_remove_deletes(m: ListStore, key: u64, s: Seq<u64>, p: int)
    requires
        holds_list(m, key, s),
        0 <= p < s.len(),
    ensures
        holds_list(remove_result(m, key, s[p]), key, s.remove(p)),
{
    let value = s[p];
    let r = remove_result(m, key, value);
    let t = s.remove(p);
    let n = s.len() as int;
    assert(m.dom().contains((key, Some(s[p]))));
    let item = read_item(m, key, Some(value));
    assert(item == LinkedItem { prev: prev_link(s, p), next: next_link(s, p) });
    assert forall|i: int, j: int| 0 <= i < t.len() && 0 <= j < t.len() && i != j implies t[i]
        != t[j] by {
        let i2 = if i < p { i } else { i + 1 };
        let j2 = if j < p { j } else { j + 1 };
        assert(t[i] == s[i2] && t[j] == s[j2]);
    }
    assert forall|k: int| 0 <= k < t.len() implies t[k] != value by {
        let k2 = if k < p { k } else { k + 1 };
        assert(t[k] == s[k2]);
    }
    if n == 1 {
        assert(t.len() == 0);
        assert forall|v: u64| #[trigger] r.dom().contains((key, Some(v))) implies t.contains(v) by {
            assert(m.dom().contains((key, Some(v))));
            let k = choose|k: int| 0 <= k < s.len() && s[k] == v;
            assert(k == 0);
        }
    } else {
        let pl = prev_link(s, p);
        let nl = next_link(s, p);
        assert(pl != nl) by {
            if p > 0 && p < n - 1 {
                assert(s[p - 1] != s[p + 1]);
            }
        }
        if p > 0 {
            assert(m.dom().contains((key, Some(s[p - 1]))));
        }
        if p < n - 1 {
            assert(m.dom().contains((key, Some(s[p + 1]))));
        }
        assert forall|i: int| 0 <= i < t.len() implies #[trigger] r.dom().contains(
            (key, Some(t[i])),
        ) && r[(key, Some(t[i]))] == (LinkedItem {
            prev: prev_link(t, i),
            next: next_link(t, i),
        }) by {
            if i < p - 1 {
                assert(t[i] == s[i]);
                assert(m.dom().contains((key, Some(s[i]))));
                assert(s[i] != s[p - 1]);
                assert(s[i] != value);
                if p < n - 1 {
                    assert(s[i] != s[p + 1]);
                }
                if i > 0 {
                    assert(t[i - 1] == s[i - 1]);
                }
                assert(t[i + 1] == s[i + 1]);
            } else if i == p - 1 {
                assert(t[i] == s[i]);
                if i > 0 {
                    assert(t[i - 1] == s[i - 1]);
                }
                if i < t.len() - 1 {
                    assert(t[i + 1] == s[i + 2]);
                }
            } else if i == p {
                assert(t[i] == s[i + 1]);
                if i > 0 {
                    assert(t[i - 1] == s[i - 1]);
                }
                if i < t.len() - 1 {
                    assert(t[i + 1] == s[i + 2]);
                }
            } else {
                assert(t[i] == s[i + 1]);
                assert(m.dom().contains((key, Some(s[i + 1]))));
                assert(s[i + 1] != s[p + 1]);
                assert(s[i + 1] != value);
                if p > 0 {
                    assert(s[i + 1] != s[p - 1]);
                }
                assert(t[i - 1] == s[i]);
                if i < t.len() - 1 {
                    assert(t[i + 1] == s[i + 2]);
                }
            }
        }
        assert forall|v: u64| #[trigger] r.dom().contains((key, Some(v))) implies t.contains(v) by {
            assert(v != value);
            if pl == Some(v) {
                assert(t[p - 1] == v);
            } else if nl == Some(v) {
                assert(t[p] == v);
            } else {
                assert(m.dom().contains((key, Some(v))));
                let k = choose|k: int| 0 <= k < s.len() && s[k] == v;
                if k < p {
                    assert(t[k] == v);
                } else {
                    assert(t[k - 1] == v);
                }
            }
        }
        if p == 0 {
            assert(t[0] == s[1]);
            assert(t[t.len() - 1] == s[n - 1]);
        } else if p == n - 1 {
            assert(t[0] == s[0]);
            assert(t[t.len() - 1] == s[n - 2]);
        } else {
            assert(t[0] == s[0]);
            assert(t[t.len() - 1] == s[n - 1]);
        }
    }
}

/// Removing a value that is not in the list of `key` empties the head of that list, and leaves
/// every node as it was.
pub proof fn lemma_remove_absent_cuts_head(m: ListStore, key: u64, s: Seq<u64>, value: u64)
    requires
        holds_list(m, key, s),
        !s.contains(value),
    ensures
        read_item(remove_result(m, key, value), key, None) == empty_item(),
        forall|v: u64| #[trigger] read_item(remove_result(m, key, value), key, Some(v)) == read_item(
            m,
            key,
            Some(v),
        ),
{
    assert(!m.dom().contains((key, Some(value))));
}

/// `a` and `b` hold the same nodes under every key but `key`.
pub open spec fn same_off_key(a: ListStore, b: ListStore, key: u64) -> bool {
    forall|slot: (u64, Option<u64>)|
        slot.0 != key ==> (#[trigger] a.dom().contains(slot) == b.dom().contains(slot)) && (
        a.dom().contains(slot) ==> a[slot] == b[slot])
}

/// Appending under `key` touches no other key.
pub proof fn lemma_append_keeps_other_keys(m: ListStore, key: u64, value: u64)
    ensures
        same_off_key(m, append_result(m, key, value), key),
{
}

/// Removing under `key` touches no other key.
pub proof fn lemma_remove_keeps_other_keys(m: ListStore, key: u64, value: u64)
    ensures
        same_off_key(m, remove_result(m, key, value), key),
{
}

/// The list of a key is what it was when nothing under that key changed.
pub proof fn lemma_list_of_untouched_key(a: ListStore, b: ListStore, key: u64, other: u64, s: Seq<u64>)
    requires
        same_off_key(a, b, key),
        other != key,
        holds_list(a, other, s),
    ensures
        holds_list(b, other, s),
{
    assert(a.dom().contains((other, None::<u64>)) == b.dom().contains((other, None::<u64>)));
    assert forall|i: int| 0 <= i < s.len() implies #[trigger] b.dom().contains((other, Some(s[i])))
        && b[(other, Some(s[i]))] == (LinkedItem {
        prev: prev_link(s, i),
        next: next_link(s, i),
    }) by {
        assert(a.dom().contains((other, Some(s[i]))));
    }
    assert forall|v: u64| #[trigger] b.dom().contains((other, Some(v))) implies s.contains(v) by {
        assert(a.dom().contains((other, Some(v))));
    }
}

/// Removing a value just appended gives the list back as it was.
pub proof fn lemma_append_then_remove(m: ListStore, key: u64, s: Seq<u64>, value: u64)
    requires
        holds_list(m, key, s),
        !s.contains(value),
    ensures
        holds_list(remove_result(append_result(m, key, value), key, value), key, s),
{
    lemma_append_pushes(m, key, s, value);
    let t = s.push(value);
    lemma_remove_deletes(append_result(m, key, value), key, t, s.len() as int);
    assert(t[s.len() as int] == value);
    assert(t.remove(s.len() as int) =~= s);
}

/// The values met by following `next` links from `cur`, at most `fuel` steps, stopping at the
/// head (`None`).
pub open spec fn walk_next(m: ListStore, key: u64, cur: Option<u64>, fuel: nat) -> Seq<u64>
    decreases fuel,
{
    if fuel == 0 {
        Seq::empty()
    } else {
        match read_item(m, key, cur).next {
            None => Seq::empty(),
            Some(v) => seq![v] + walk_next(m, key, Some(v), (fuel - 1) as nat),
        }
    }
}

/// The values met by following `prev` links from `cur`, at most `fuel` steps, stopping at the
/// head (`None`).
pub open spec fn walk_prev(m: ListStore, key: u64, cur: Option<u64>, fuel: nat) -> Seq<u64>
    decreases fuel,
{
    if fuel == 0 {
        Seq::empty()
    } else {
        match read_item(m, key, cur).prev {
            None => Seq::empty(),
            Some(v) => seq![v] + walk_prev(m, key, Some(v), (fuel - 1) as nat),
        }
    }
}

proof fn lemma_walk_next_from(m: ListStore, key: u64, s: Seq<u64>, i: int)
    requires
        holds_list(m, key, s),
        0 <= i <= s.len(),
    ensures
        walk_next(m, key, if i == 0 { None } else { Some(s[i - 1]) }, (s.len() + 1 - i) as nat)
            == s.subrange(i, s.len() as int),
    decreases s.len() - i,
{
    let n = s.len() as int;
    let cur = if i == 0 { None } else { Some(s[i - 1]) };
    if i > 0 {
        assert(m.dom().contains((key, Some(s[i - 1]))));
    }
    if i < n {
        assert(read_item(m, key, cur).next == Some(s[i]));
        lemma_walk_next_from(m, key, s, i + 1);
        assert(s.subrange(i, n) =~= seq![s[i]] + s.subrange(i + 1, n));
    } else {
        assert(read_item(m, key, cur).next == None::<u64>);
        assert(s.subrange(i, n) =~= Seq::<u64>::empty());
    }
}

proof fn lemma_walk_prev_from(m: ListStore, key: u64, s: Seq<u64>, p: int)
    requires
        holds_list(m, key, s),
        0 <= p <= s.len(),
    ensures
        walk_prev(m, key, if p == s.len() { None } else { Some(s[p]) }, (p + 1) as nat)
            == s.subrange(0, p).reverse(),
    decreases p,
{
    let n = s.len() as int;
    let cur = if p == n { None } else { Some(s[p]) };
    if p < n {
        assert(m.dom().contains((key, Some(s[p]))));
    }
    if p > 0 {
        assert(read_item(m, key, cur).prev == Some(s[p - 1]));
        lemma_walk_prev_from(m, key, s, p - 1);
        assert(s.subrange(0, p).reverse() =~= seq![s[p - 1]] + s.subrange(0, p - 1).reverse());
    } else {
        assert(read_item(m, key, cur).prev == None::<u64>);
        assert(s.subrange(0, p).reverse() =~= Seq::<u64>::empty());
    }
}

/// Following `next` links from the head of a stored list visits its values in order and comes
/// back to the head; following `prev` links visits them in reverse order and comes back to the
/// head.
pub proof fn lemma_walks_visit_list(m: ListStore, key: u64, s: Seq<u64>)
    requires
        holds_list(m, key, s),
    ensures
        walk_next(m, key, None, (s.len() + 1) as nat) == s,
        walk_prev(m, key, None, (s.len() + 1) as nat) == s.reverse(),
{
    lemma_walk_next_from(m, key, s, 0);
    assert(s.subrange(0, s.len() as int) =~= s);
    lemma_walk_prev_from(m, key, s, s.len() as int);
}

/// Writing `item` under `(key, value)` and reading it back gives `item`; every other slot keeps
/// what it held.
pub proof fn lemma_write_then_read(m: ListStore, key: u64, value: Option<u64>, item: LinkedItem<u64>)
    ensures
        read_item(m.insert((key, value), item), key, value) == item,
        forall|k2: u64, v2: Option<u64>|
            (k2, v2) != (key, value) ==> #[trigger] read_item(m.insert((key, value), item), k2, v2)
                == read_item(m, k2, v2),
{
}

/// A call on the lists: append or remove a value under a key.
#[derive(Clone, Copy, Debug, PartialEq, Eq)]
pub enum ListOp {
    Append(u64),
    Remove(u64),
}

/// The list that a run of calls on one key is meant to leave: appended values in order, less
/// the removed ones.
pub open spec fn ops_model(ops: Seq<ListOp>) -> Seq<u64>
    decreases ops.len(),
{
    if ops.len() == 0 {
        Seq::empty()
    } else {
        let s = ops_model(ops.drop_last());
        match ops.last() {
            ListOp::Append(v) => s.push(v),
            ListOp::Remove(v) => s.remove(s.index_of(v)),
        }
    }
}

/// Each append in the run adds a value not in the list so far, each remove takes one that is in
/// it.
pub open spec fn ops_valid(ops: Seq<ListOp>) -> bool
    decreases ops.len(),
{
    if ops.len() == 0 {
        true
    } else {
        &&& ops_valid(ops.drop_last())
        &&& match ops.last() {
            ListOp::Append(v) => !ops_model(ops.drop_last()).contains(v),
            ListOp::Remove(v) => ops_model(ops.drop_last()).contains(v),
        }
    }
}

/// The storage after running `ops` under `key`, starting from `m`.
pub open spec fn apply_ops(m: ListStore, key: u64, ops: Seq<ListOp>) -> ListStore
    decreases ops.len(),
{
    if ops.len() == 0 {
        m
    } else {
        let before = apply_ops(m, key, ops.drop_last());
        match ops.last() {
            ListOp::Append(v) => append_result(before, key, v),
            ListOp::Remove(v) => remove_result(before, key, v),
        }
    }
}

/// From empty storage, a run of appends of new values and removes of present values leaves
/// under `key` exactly the list of appended values, in order, less the removed ones.
pub proof fn lemma_ops_build_list(key: u64, ops: Seq<ListOp>)
    requires
        ops_valid(ops),
    ensures
        holds_list(apply_ops(ListStore::empty(), key, ops), key, ops_model(ops)),
    decreases ops.len(),
{
    if ops.len() == 0 {
        lemma_empty_store_holds_empty_list(key);
    } else {
        let prev_ops = ops.drop_last();
        lemma_ops_build_list(key, prev_ops);
        let m = apply_ops(ListStore::empty(), key, prev_ops);
        let s = ops_model(prev_ops);
        match ops.last() {
            ListOp::Append(v) => {
                lemma_append_pushes(m, key, s, v);
            },
            ListOp::Remove(v) => {
                let i = s.index_of(v);
                assert(s[i] == v);
                lemma_remove_deletes(m, key, s, i);
            },
        }
    }
}

/// From empty storage, after a run of appends of new values and removes of present values,
/// following `next` links from the head of `key` visits the appended values in order, less the
/// removed ones, and comes back to the head; following `prev` links visits them in reverse.
pub proof fn lemma_ops_walks(key: u64, ops: Seq<ListOp>)
    requires
        ops_valid(ops),
    ensures
        ({
            let m = apply_ops(ListStore::empty(), key, ops);
            let s = ops_model(ops);
            &&& walk_next(m, key, None, (s.len() + 1) as nat) == s
            &&& walk_prev(m, key, None, (s.len() + 1) as nat) == s.reverse()
        }),
{
    lemma_ops_build_list(key, ops);
    lemma_walks_visit_list(apply_ops(ListStore::empty(), key, ops), key, ops_model(ops));
}

/// Lists of values per key, kept in one storage map.
pub struct LinkedList {
    storage: StorageMap<(u64, Option<u64>), LinkedItem<u64>>,
}

impl View for LinkedList {
    type V = ListStore;

    closed spec fn view(&self) -> ListStore {
        self.storage@
    }
}

impl LinkedList {
    /// Empty storage: every key holds the empty list.
    pub fn new() -> (list: Self)
        ensures
            list@ == ListStore::empty(),
    {
        LinkedList { storage: StorageMap::new() }
    }

    /// The head node of the list of `key`, or the empty node where there is none.
    pub fn read_head(&self, key: &u64) -> (item: LinkedItem<u64>)
        ensures
            item == read_item(self@, *key, None),
    {
        self.read(key, None)
    }

    /// Stores `item` as the head node of the list of `key`: a read of the head gives `item`
    /// back, and every other slot reads as before.
    pub fn write_head(&mut self, key: &u64, item: LinkedItem<u64>)
        ensures
            final(self)@ == old(self)@.insert((*key, None), item),
            read_item(final(self)@, *key, None) == item,
            forall|k2: u64, v2: Option<u64>|
                (k2, v2) != (*key, None::<u64>) ==> #[trigger] read_item(final(self)@, k2, v2)
                    == read_item(old(self)@, k2, v2),
    {
        self.write(key, None, item);
        proof {
            lemma_write_then_read(old(self)@, *key, None, item);
        }
    }

    /// The node stored under `(key, value)`, or the empty node where there is none.
    pub fn read(&self, key: &u64, value: Option<u64>) -> (item: LinkedItem<u64>)
        ensures
            item == read_item(self@, *key, value),
    {
        match self.storage.get(&(*key, value)) {
            Some(item) => item,
            None => LinkedItem { prev: None, next: None },
        }
    }

    fn write(&mut self, key: &u64, value: Option<u64>, item: LinkedItem<u64>)
        ensures
            final(self)@ == old(self)@.insert((*key, value), item),
    {
        self.storage.insert((*key, value), item);
    }

    /// Appends `value` at the end of the list of `key`.
    pub fn append(&mut self, key: &u64, value: u64)
        ensures
            final(self)@ == append_result(old(self)@, *key, value),
    {
        let mut head = self.read_head(key);
        let new_item = LinkedItem { prev: head.prev, next: None };
        self.write(key, Some(value), new_item);
        match head.prev {
            Some(v) => {
                let mut last = self.read(key, head.prev);
                head.prev = Some(value);
                last.next = Some(value);
                self.write(key, Some(v), last);
                self.write_head(key, head);
            },
            None => {
                head.prev = Some(value);
                head.next = Some(value);
                self.write_head(key, head);
            },
        }
    }

    /// Unlinks `value` from the list of `key` and deletes its node.
    pub fn remove(&mut self, key: &u64, value: u64)
        ensures
            final(self)@ == remove_result(old(self)@, *key, value),
    {
        let item = self.read(key, Some(value));
        if same_link(item.prev, item.next) {
            let mut head = self.read(key, item.prev);
            head.next = None;
            head.prev = None;
            self.write_head(key, head);
        } else {
            let mut prev = self.read(key, item.prev);
            let mut next = self.read(key, item.next);
            prev.next = item.next;
            next.prev = item.prev;
            self.write(key, item.prev, prev);
            self.write(key, item.next, next);
        }
        self.storage.remove(&(*key, Some(value)));
    }
}

/// Whether two links point to the same slot.
pub fn same_link(a: Option<u64>, b: Option<u64>) -> (same: bool)
    ensures
        same == (a == b),
{
    match (a, b) {
        (None, None) => true,
        (Some(x), Some(y)) => x == y,
        _ => false,
    }
}

} // verus!
