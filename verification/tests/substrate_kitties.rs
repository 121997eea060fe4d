use kitties::substrate_kitties::{Event, Kitty, MintError, Module};
use parity_scale_codec::Encode;

fn kitty(b: u8) -> Kitty {
    Kitty { id: [b; 32], dna: b as u128, price: 0, gen: 0 }
}

#[test]
fn mint_lists_kitty_for_owner_and_all() {
    let mut m = Module::new();
    assert_eq!(m.mint(1, [10; 32], kitty(10)), Ok(()));
    assert_eq!(m.mint(2, [20; 32], kitty(20)), Ok(()));
    assert_eq!(m.mint(1, [30; 32], kitty(30)), Ok(()));
    let r = m.registry();
    assert_eq!(r.all_kitties_count(), 3);
    assert_eq!(r.kitty_by_index(0), [10; 32]);
    assert_eq!(r.kitty_by_index(2), [30; 32]);
    assert_eq!(r.all_kitties_index(&[20; 32]), 1);
    assert_eq!(r.owned_kitty_count(1), 2);
    assert_eq!(r.kitty_of_owner_by_index(1, 1), [30; 32]);
    assert_eq!(r.owned_kitties_index(&[30; 32]), 1);
    assert_eq!(r.owner_of(&[20; 32]), Some(2));
    assert_eq!(r.kitty(&[30; 32]), kitty(30));
    assert_eq!(
        m.events().clone(),
        vec![Event::Created(1, [10; 32]), Event::Created(2, [20; 32]), Event::Created(1, [30; 32])]
    );
}

#[test]
fn mint_refuses_existing_id() {
    let mut m = Module::new();
    m.mint(1, [10; 32], kitty(10)).unwrap();
    assert_eq!(m.mint(2, [10; 32], kitty(11)), Err(MintError::AlreadyExists));
    assert_eq!(m.registry().all_kitties_count(), 1);
    assert_eq!(m.registry().owner_of(&[10; 32]), Some(1));
    assert_eq!(m.events().len(), 1);
}

#[test]
fn show_kitties_enumerates_lists() {
    let mut m = Module::new();
    m.mint(1, [10; 32], kitty(10)).unwrap();
    m.mint(2, [20; 32], kitty(20)).unwrap();
    m.mint(1, [30; 32], kitty(30)).unwrap();
    assert_eq!(m.show_all_kittys(9), vec![kitty(10), kitty(20), kitty(30)]);
    assert_eq!(m.show_kittys_accountId(1), vec![kitty(10), kitty(30)]);
    assert_eq!(m.show_kittys_accountId(3), vec![]);
}

#[test]
fn create_kitty_digests_seed_sender_nonce() {
    let mut m = Module::new();
    let seed = [5u8; 32];
    assert_eq!(m.create_kitty(4, seed), Ok(()));
    assert_eq!(m.nonce(), 1);
    let bytes = (seed, 4u64, 0u64).encode();
    let id = sp_core_hashing::blake2_256(&bytes);
    let dna = sp_core_hashing::blake2_128(&bytes);
    assert_eq!(m.registry().owner_of(&id), Some(4));
    assert_eq!(m.registry().kitty(&id), Kitty { id, dna: u128::from_le_bytes(dna), price: 0, gen: 0 });
    assert_eq!(m.create_kitty(4, seed), Ok(()));
    assert_eq!(m.nonce(), 2);
    assert_eq!(m.registry().owned_kitty_count(4), 2);
}

#[test]
fn create_kitty_from_hashes_failure_keeps_nonce() {
    let mut m = Module::new();
    assert_eq!(m.create_kitty_from_hashes(1, [1; 32], [0, 0, 9, 0, 0, 0, 0, 0, 0, 0, 0, 0, 0, 0, 0, 0]), Ok(()));
    assert_eq!(m.registry().kitty(&[1; 32]).dna, 9 << 16);
    assert_eq!(m.create_kitty_from_hashes(2, [1; 32], [0; 16]), Err(MintError::AlreadyExists));
    assert_eq!(m.nonce(), 1);
}

#[test]
fn set_price_changes_nothing() {
    let mut m = Module::new();
    m.mint(1, [10; 32], kitty(10)).unwrap();
    assert_eq!(m.set_price(1, [10; 32], 500), Ok(()));
    assert_eq!(m.registry().kitty(&[10; 32]), kitty(10));
}

#[test]
fn mint_error_messages() {
    assert_eq!(MintError::AlreadyExists.message(), "Kitty already exists");
    assert_eq!(MintError::OwnedOverflow.message(), "Overflow adding a new kitty to account balance");
    assert_eq!(MintError::TotalOverflow.message(), "Overflow adding a new kitty to total supply");
}

#[test]
fn try_create_kitty_calls_create() {
    let mut m = Module::new();
    let seed = [6u8; 32];
    assert_eq!(m.try_create_kitty(2, seed), Some(Ok(())));
    assert_eq!(m.nonce(), 1);
    assert_eq!(m.registry().all_kitties_count(), 1);
}
