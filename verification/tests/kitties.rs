use kitties::kitties::{breed_selector, created_dna, mix_dna, Module, Kitty, KittyError};
use parity_scale_codec::Encode;

fn seed(b: u8) -> [u8; 32] {
    [b; 32]
}

#[test]
fn create_numbers_kitties_from_zero() {
    let mut k = Module::new();
    assert_eq!(k.kitties_count(), 0);
    assert_eq!(k.create_with_dna([1; 16]), Ok(()));
    assert_eq!(k.create_with_dna([2; 16]), Ok(()));
    assert_eq!(k.kitties_count(), 2);
    assert_eq!(k.kitty(0), Kitty([1; 16]));
    assert_eq!(k.kitty(1), Kitty([2; 16]));
    assert_eq!(k.kitty(2), Kitty([0; 16]));
}

#[test]
fn create_dna_is_digest_of_encoded_tuple() {
    let mut k = Module::new();
    assert_eq!(k.create(5, seed(9), Some(3), 100), Ok(()));
    let bytes = (seed(9), 5u64, Some(3u32), 100u64).encode();
    let expected = sp_core_hashing::blake2_128(&bytes);
    assert_eq!(k.kitty(0), Kitty(expected));
    assert_eq!(created_dna(&seed(9), 5, Some(3), 100), expected);
    assert_ne!(created_dna(&seed(9), 5, None, 100), expected);
}

#[test]
fn mix_takes_second_parent_on_even_selector() {
    let dna1 = [1u8; 16];
    let dna2 = [2u8; 16];
    let mut sel = [0u8; 16];
    for i in 0..16 {
        sel[i] = i as u8;
    }
    let child = mix_dna(&dna1, &dna2, &sel);
    for i in 0..16 {
        assert_eq!(child[i], if i % 2 == 0 { 2 } else { 1 });
    }
}

#[test]
fn breed_refusals_in_order() {
    let mut k = Module::new();
    assert_eq!(k.breed_with_selector(0, 1, [0; 16]), Err(KittyError::Kitty1NotExist));
    k.create_with_dna([1; 16]).unwrap();
    assert_eq!(k.breed_with_selector(0, 1, [0; 16]), Err(KittyError::Kitty2NotExist));
    assert_eq!(k.breed_with_selector(0, 0, [0; 16]), Err(KittyError::SameParents));
    assert_eq!(k.kitties_count(), 1);
}

#[test]
fn breed_stores_child_under_next_number() {
    let mut k = Module::new();
    k.create_with_dna([1; 16]).unwrap();
    k.create_with_dna([2; 16]).unwrap();
    let mut sel = [1u8; 16];
    sel[0] = 4;
    assert_eq!(k.breed_with_selector(0, 1, sel), Ok(()));
    let mut expected = [1u8; 16];
    expected[0] = 2;
    assert_eq!(k.kitty(2), Kitty(expected));
    assert_eq!(k.kitties_count(), 3);
}

#[test]
fn breed_kitty_uses_digest_selector() {
    let mut k = Module::new();
    k.create_with_dna([1; 16]).unwrap();
    k.create_with_dna([2; 16]).unwrap();
    assert_eq!(k.breed_kitty(8, 1, 0, seed(4), 77), Ok(()));
    let sel = sp_core_hashing::blake2_128(&(seed(4), 77u64, 8u64).encode());
    assert_eq!(breed_selector(&seed(4), 77, 8), sel);
    let mut expected = [0u8; 16];
    for i in 0..16 {
        expected[i] = if sel[i] % 2 == 0 { 1 } else { 2 };
    }
    assert_eq!(k.kitty(2), Kitty(expected));
}

#[test]
fn error_messages() {
    assert_eq!(KittyError::CountOverflow.message(), "Kitties count overflow");
    assert_eq!(KittyError::Kitty1NotExist.message(), "Kitty_1 not exist");
    assert_eq!(KittyError::Kitty2NotExist.message(), "Kitty_2 not exist");
    assert_eq!(KittyError::SameParents.message(), "Kitty cound not be breeded from same parents");
    assert_eq!(KittyError::CreateOverflow.message(), "Overflow creating a new one to all");
    assert_eq!(KittyError::BreedOverflow.message(), "Overflow breedig a new one to all");
}
