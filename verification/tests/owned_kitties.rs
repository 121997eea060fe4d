use kitties::owned_kitties::{CreateError, Event, Kitty, Module};
use parity_scale_codec::Encode;

#[test]
fn owned_create_lists_and_reports() {
    let mut m = Module::new();
    assert_eq!(m.create_kitty_with_hash(1, [3; 32]), Ok(()));
    assert_eq!(m.create_kitty_with_hash(1, [4; 32]), Ok(()));
    let k3 = Kitty { id: [3; 32], dna: [3; 32], price: 0, generation: 0 };
    let k4 = Kitty { id: [4; 32], dna: [4; 32], price: 0, generation: 0 };
    assert_eq!(m.get_all_kittys(1), vec![k3, k4]);
    assert_eq!(m.get_kitties_accountId(1), vec![k3, k4]);
    assert_eq!(m.get_kitties_accountId(2), vec![]);
    assert_eq!(m.events().clone(), vec![Event::KittyStored(1, [3; 32]), Event::KittyStored(1, [4; 32])]);
}

#[test]
fn owned_create_refuses_existing() {
    let mut m = Module::new();
    m.create_kitty_with_hash(1, [3; 32]).unwrap();
    assert_eq!(m.create_kitty_with_hash(2, [3; 32]), Err(CreateError::AlreadyExists));
    assert_eq!(m.registry().all_kitties_count(), 1);
    assert_eq!(CreateError::AlreadyExists.message(), "Kitty exists already!!");
    assert_eq!(CreateError::OwnedOverflow.message(), "Overflow adding a new kitty !!");
    assert_eq!(CreateError::TotalOverflow.message(), "Overflow adding a new kitty to total supply!!!");
}

#[test]
fn owned_create_kitty_digest() {
    let mut m = Module::new();
    let seed = [8u8; 32];
    m.create_kitty(6, seed, 3).unwrap();
    let id = sp_core_hashing::blake2_256(&(seed, 6u64, 3u64).encode());
    assert_eq!(m.registry().owner_of(&id), Some(6));
    assert_eq!(m.registry().kitty(&id).dna, id);
}
