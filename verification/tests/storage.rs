use kitties::storage::StorageMap;

#[test]
fn storage_map_insert_get_take() {
    let mut m: StorageMap<(u64, Option<u64>), u32> = StorageMap::new();
    assert_eq!(m.get(&(1, None)), None);
    m.insert((1, None), 5);
    m.insert((1, Some(2)), 6);
    m.insert((1, None), 7);
    assert_eq!(m.get(&(1, None)), Some(7));
    assert_eq!(m.get(&(1, Some(2))), Some(6));
    assert!(m.contains_key(&(1, Some(2))));
    assert!(!m.contains_key(&(2, Some(2))));
    assert_eq!(m.take(&(1, Some(2))), Some(6));
    assert_eq!(m.take(&(1, Some(2))), None);
    m.remove(&(1, None));
    assert_eq!(m.get(&(1, None)), None);
}

#[test]
fn storage_map_array_keys() {
    let mut m: StorageMap<[u8; 32], u64> = StorageMap::new();
    let mut a = [0u8; 32];
    let mut b = [0u8; 32];
    a[31] = 1;
    b[0] = 1;
    m.insert(a, 1);
    m.insert(b, 2);
    assert_eq!(m.get(&a), Some(1));
    assert_eq!(m.get(&b), Some(2));
    assert_eq!(m.get(&[0u8; 32]), None);
}
