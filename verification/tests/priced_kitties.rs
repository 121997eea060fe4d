use kitties::priced_kitties::{Kitty, Module, SetValueError};
use parity_scale_codec::Encode;

#[test]
fn set_value_adds_priced_kitty() {
    let mut m = Module::new();
    assert_eq!(m.set_value_with_hash(2, [1; 32]), Ok(()));
    let r = m.registry();
    assert_eq!(r.kitty(&[1; 32]), Kitty { dna: [1; 32], price: 0 });
    assert_eq!(r.owner_of(&[1; 32]), Some(2));
    assert_eq!(r.owned_kitty_count(2), 1);
    assert_eq!(r.all_kitties_count(), 1);
}

#[test]
fn set_value_does_not_check_existing_id() {
    let mut m = Module::new();
    m.set_value_with_hash(2, [1; 32]).unwrap();
    assert_eq!(m.set_value_with_hash(3, [1; 32]), Ok(()));
    assert_eq!(m.registry().owner_of(&[1; 32]), Some(3));
    assert_eq!(m.registry().all_kitties_count(), 2);
}

#[test]
fn set_value_digest() {
    let mut m = Module::new();
    let seed = [2u8; 32];
    m.set_value(7, seed, 1000, 4).unwrap();
    let h = sp_core_hashing::blake2_256(&(seed, 7u64, 1000u64, 4u64).encode());
    assert_eq!(m.registry().kitty(&h), Kitty { dna: h, price: 0 });
    assert_eq!(SetValueError::OwnedOverflow.message(), "failed to add all count for own");
    assert_eq!(SetValueError::TotalOverflow.message(), "failed to add all count");
}
