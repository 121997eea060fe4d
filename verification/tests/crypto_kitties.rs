use kitties::crypto_kitties::{cat_dna, Module, KittyCat};
use parity_scale_codec::Encode;

#[test]
fn create_cat_numbers_cats_in_order() {
    let mut c = Module::new();
    c.create_cat_with_dna([7; 16]);
    c.create_cat_with_dna([8; 16]);
    assert_eq!(c.cat_id_getter(), 2);
    assert_eq!(c.cat_map_getter(0), KittyCat { cat_id: 0, dna: [7; 16] });
    assert_eq!(c.cat_map_getter(1), KittyCat { cat_id: 1, dna: [8; 16] });
    assert_eq!(c.cat_map_getter(5), KittyCat { cat_id: 0, dna: [0; 16] });
}

#[test]
fn create_cat_dna_is_digest() {
    let mut c = Module::new();
    let seed = [3u8; 32];
    c.create_cat(11, seed, Some(2));
    let expected = sp_core_hashing::blake2_128(&(seed, 11u64, Some(2u32)).encode());
    assert_eq!(c.cat_map_getter(0).dna, expected);
    assert_eq!(cat_dna(&seed, 11, Some(2)), expected);
    assert_ne!(cat_dna(&seed, 12, Some(2)), expected);
}
