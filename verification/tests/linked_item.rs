use kitties::linked_item::{DecodeError, LinkedItem, LinkedList};
use parity_scale_codec::Encode;

fn item(prev: Option<u64>, next: Option<u64>) -> LinkedItem<u64> {
    LinkedItem { prev, next }
}

#[test]
fn append_links_values_in_order() {
    let mut list = LinkedList::new();
    list.append(&7, 1);
    list.append(&7, 2);
    list.append(&7, 3);
    assert_eq!(list.read(&7, None), item(Some(3), Some(1)));
    assert_eq!(list.read(&7, Some(1)), item(None, Some(2)));
    assert_eq!(list.read(&7, Some(2)), item(Some(1), Some(3)));
    assert_eq!(list.read(&7, Some(3)), item(Some(2), None));
}

#[test]
fn append_to_empty_list_points_head_both_ways() {
    let mut list = LinkedList::new();
    list.append(&1, 42);
    assert_eq!(list.read(&1, None), item(Some(42), Some(42)));
    assert_eq!(list.read(&1, Some(42)), item(None, None));
}

#[test]
fn remove_middle_relinks_neighbours() {
    let mut list = LinkedList::new();
    for v in 1..=3 {
        list.append(&7, v);
    }
    list.remove(&7, 2);
    assert_eq!(list.read(&7, None), item(Some(3), Some(1)));
    assert_eq!(list.read(&7, Some(1)), item(None, Some(3)));
    assert_eq!(list.read(&7, Some(3)), item(Some(1), None));
    assert_eq!(list.read(&7, Some(2)), item(None, None));
}

#[test]
fn remove_first_and_last() {
    let mut list = LinkedList::new();
    for v in 1..=3 {
        list.append(&7, v);
    }
    list.remove(&7, 1);
    assert_eq!(list.read(&7, None), item(Some(3), Some(2)));
    assert_eq!(list.read(&7, Some(2)), item(None, Some(3)));
    list.remove(&7, 3);
    assert_eq!(list.read(&7, None), item(Some(2), Some(2)));
    assert_eq!(list.read(&7, Some(2)), item(None, None));
}

#[test]
fn remove_only_value_empties_list() {
    let mut list = LinkedList::new();
    list.append(&7, 5);
    list.remove(&7, 5);
    assert_eq!(list.read(&7, None), item(None, None));
    assert_eq!(list.read(&7, Some(5)), item(None, None));
}

#[test]
fn append_then_remove_restores_list() {
    let mut list = LinkedList::new();
    list.append(&7, 1);
    list.append(&7, 2);
    list.append(&7, 9);
    list.remove(&7, 9);
    assert_eq!(list.read(&7, None), item(Some(2), Some(1)));
    assert_eq!(list.read(&7, Some(1)), item(None, Some(2)));
    assert_eq!(list.read(&7, Some(2)), item(Some(1), None));
}

#[test]
fn remove_absent_value_cuts_head() {
    let mut list = LinkedList::new();
    list.append(&7, 1);
    list.append(&7, 2);
    list.remove(&7, 99);
    assert_eq!(list.read(&7, None), item(None, None));
    assert_eq!(list.read(&7, Some(1)), item(None, Some(2)));
}

#[test]
fn lists_of_different_keys_are_independent() {
    let mut list = LinkedList::new();
    list.append(&1, 10);
    list.append(&2, 20);
    list.append(&1, 11);
    list.remove(&2, 20);
    assert_eq!(list.read(&1, None), item(Some(11), Some(10)));
    assert_eq!(list.read(&1, Some(10)), item(None, Some(11)));
    assert_eq!(list.read(&2, None), item(None, None));
}

#[test]
fn encode_writes_prev_then_next() {
    let it = item(Some(1), None);
    assert_eq!(it.encode(), vec![1, 1, 0, 0, 0, 0, 0, 0, 0, 0]);
    let it = item(None, Some(0x0102));
    assert_eq!(it.encode(), vec![0, 1, 2, 1, 0, 0, 0, 0, 0, 0]);
    let mut dest = vec![9u8];
    item(None, None).encode_to(&mut dest);
    assert_eq!(dest, vec![9, 0, 0]);
}

#[test]
fn decode_reads_back_encoding() {
    let it = item(Some(u64::MAX), Some(3));
    let mut bytes = it.encode();
    bytes.push(77);
    let (decoded, rest) = LinkedItem::decode(&bytes).unwrap();
    assert_eq!(decoded, it);
    assert_eq!(rest, &[77u8][..]);
}

#[test]
fn decode_rejects_bad_bytes() {
    assert_eq!(LinkedItem::decode(&[]).unwrap_err(), DecodeError::BadPrev);
    assert_eq!(LinkedItem::decode(&[2, 0]).unwrap_err(), DecodeError::BadPrev);
    assert_eq!(LinkedItem::decode(&[1, 1, 0]).unwrap_err(), DecodeError::BadPrev);
    assert_eq!(LinkedItem::decode(&[0]).unwrap_err(), DecodeError::BadNext);
    assert_eq!(LinkedItem::decode(&[0, 5]).unwrap_err(), DecodeError::BadNext);
}

#[test]
fn decode_agrees_with_codec() {
    let bytes = (Some(5u64), Option::<u64>::None).encode();
    let (decoded, rest) = LinkedItem::decode(&bytes).unwrap();
    assert_eq!(decoded, item(Some(5), None));
    assert!(rest.is_empty());
}

fn walk_next(list: &LinkedList, key: u64) -> Vec<u64> {
    let mut out = Vec::new();
    let mut cur = list.read(&key, None).next;
    while let Some(v) = cur {
        out.push(v);
        cur = list.read(&key, Some(v)).next;
    }
    out
}

fn walk_prev(list: &LinkedList, key: u64) -> Vec<u64> {
    let mut out = Vec::new();
    let mut cur = list.read(&key, None).prev;
    while let Some(v) = cur {
        out.push(v);
        cur = list.read(&key, Some(v)).prev;
    }
    out
}

#[test]
fn walks_after_run_of_calls_visit_model() {
    let mut list = LinkedList::new();
    for v in [1, 2, 3] {
        list.append(&4, v);
    }
    list.remove(&4, 2);
    list.append(&4, 5);
    list.remove(&4, 1);
    list.append(&4, 6);
    assert_eq!(walk_next(&list, 4), vec![3, 5, 6]);
    assert_eq!(walk_prev(&list, 4), vec![6, 5, 3]);
}

#[test]
fn write_head_reads_back_and_touches_nothing_else() {
    let mut list = LinkedList::new();
    list.append(&1, 10);
    list.append(&2, 20);
    list.write_head(&1, item(Some(3), Some(4)));
    assert_eq!(list.read_head(&1), item(Some(3), Some(4)));
    assert_eq!(list.read(&1, Some(10)), item(None, None));
    assert_eq!(list.read_head(&2), item(Some(20), Some(20)));
}
