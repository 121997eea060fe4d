use kitties::ring_list::{LinkedItem, LinkedList};

fn item(prev: Option<u64>, next: Option<u64>) -> LinkedItem<u64> {
    LinkedItem { prev, next }
}

#[test]
fn ring_append_links_values_in_order() {
    let mut list = LinkedList::new();
    list.append(&3, 10);
    assert_eq!(list.read(&3, None), item(Some(10), Some(10)));
    assert_eq!(list.read(&3, Some(10)), item(None, None));
    list.append(&3, 20);
    list.append(&3, 30);
    assert_eq!(list.read(&3, None), item(Some(30), Some(10)));
    assert_eq!(list.read(&3, Some(10)), item(None, Some(20)));
    assert_eq!(list.read(&3, Some(20)), item(Some(10), Some(30)));
    assert_eq!(list.read(&3, Some(30)), item(Some(20), None));
}

#[test]
fn ring_remove_each_position() {
    let mut list = LinkedList::new();
    for v in [10, 20, 30, 40] {
        list.append(&3, v);
    }
    list.remove(&3, 20);
    assert_eq!(list.read(&3, Some(10)), item(None, Some(30)));
    assert_eq!(list.read(&3, Some(30)), item(Some(10), Some(40)));
    list.remove(&3, 10);
    assert_eq!(list.read(&3, None), item(Some(40), Some(30)));
    assert_eq!(list.read(&3, Some(30)), item(None, Some(40)));
    list.remove(&3, 40);
    assert_eq!(list.read(&3, None), item(Some(30), Some(30)));
    assert_eq!(list.read(&3, Some(30)), item(None, None));
    list.remove(&3, 30);
    assert_eq!(list.read(&3, None), item(None, None));
}

#[test]
fn ring_remove_absent_changes_nothing() {
    let mut list = LinkedList::new();
    list.append(&3, 10);
    list.append(&3, 20);
    list.remove(&3, 99);
    assert_eq!(list.read(&3, None), item(Some(20), Some(10)));
    assert_eq!(list.read(&3, Some(10)), item(None, Some(20)));
    assert_eq!(list.read(&3, Some(20)), item(Some(10), None));
}

#[test]
fn ring_keys_are_independent() {
    let mut list = LinkedList::new();
    list.append(&1, 5);
    list.append(&2, 5);
    list.remove(&1, 5);
    assert_eq!(list.read(&1, None), item(None, None));
    assert_eq!(list.read(&2, None), item(Some(5), Some(5)));
}

#[test]
fn ring_write_head_reads_back() {
    let mut list = LinkedList::new();
    list.append(&1, 10);
    list.write_head(&1, item(None, Some(10)));
    assert_eq!(list.read_head(&1), item(None, Some(10)));
    assert_eq!(list.read(&1, Some(10)), item(None, None));
}
