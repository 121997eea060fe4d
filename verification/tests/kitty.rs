use kitties::kitty::{CreateError, Kitty, Module};
use parity_scale_codec::Encode;

#[test]
fn generate_kitty_id_digests_seed_owner_nonce() {
    let m = Module::new();
    let seed = [1u8; 32];
    let id = m.generate_kitty_id(9, seed);
    assert_eq!(id, sp_core_hashing::blake2_256(&(seed, 9u64, 0u64).encode()));
}

#[test]
fn create_stores_kitty_and_lists_after_counters() {
    let mut m = Module::new();
    let seed = [1u8; 32];
    let id = m.generate_kitty_id(9, seed);
    assert_eq!(m.create(9, seed), Ok(()));
    assert_eq!(m.kitty_id(&id), Kitty { id });
    assert_eq!(m.kitty_id(&[7; 32]), Kitty { id: [0; 32] });
    assert_eq!(m.kitty_index(1), id);
    assert_eq!(m.kitty_of_owner_index(9, 1), id);
    assert_eq!(m.nonce(), 1);
    assert_eq!(m.kitties_counter(), 1);
    assert_eq!(m.kitties_of_owner_counter(9), 1);
    let id2 = m.generate_kitty_id(9, seed);
    assert_ne!(id, id2);
    assert_eq!(m.create(9, seed), Ok(()));
    assert_eq!(m.kitty_index(1), id);
    assert_eq!(m.kitty_index(2), id2);
    assert_eq!(m.kitty_of_owner_index(9, 2), id2);
    assert_eq!(m.kitties_counter(), 2);
    assert_eq!(m.kitties_of_owner_counter(9), 2);
    assert_eq!(m.create_with_id(4, [3; 32]), Ok(()));
    assert_eq!(m.kitty_of_owner_index(4, 1), [3; 32]);
    assert_eq!(m.kitties_of_owner_counter(4), 1);
    assert_eq!(m.kitties_counter(), 3);
}

#[test]
fn create_refuses_existing_kitty() {
    let mut m = Module::new();
    assert_eq!(m.create_with_id(1, [4; 32]), Ok(()));
    assert_eq!(m.create_with_id(2, [4; 32]), Err(CreateError::AlreadyExists));
    assert_eq!(m.nonce(), 1);
    assert_eq!(CreateError::AlreadyExists.message(), "Kitty already exists");
    assert_eq!(CreateError::ListOverflow.message(), "Overflow when adding a new kitty to total count");
    assert_eq!(CreateError::OwnerListOverflow.message(), "Overflow when adding a new kitty to owner list");
}

#[test]
fn try_create_calls_create() {
    let mut m = Module::new();
    let seed = [2u8; 32];
    let id = m.generate_kitty_id(3, seed);
    assert_eq!(m.try_create(3, seed), Some(Ok(())));
    assert_eq!(m.kitty_id(&id), Kitty { id });
    assert_eq!(m.nonce(), 1);
}
