//! Verified runtime storage logic for kitty registries and storage-backed linked lists.
pub mod crypto_kitties;
pub mod hashing;
pub mod kitties;
pub mod kitty;
pub mod linked_item;
pub mod owned_kitties;
pub mod priced_kitties;
pub mod registry;
pub mod ring_list;
pub mod scale;
pub mod substrate_kitties;
pub mod storage;
