# kitties

Runtime storage logic for kitty registries and for linked lists kept in a storage map, verified
with Verus.

- `src/storage.rs`: a storage map with exact map semantics.
- `src/scale.rs`, `src/hashing.rs`: SCALE encoding (`parity-scale-codec`) and Blake2 digests
  (`sp-core-hashing`) behind trusted wrappers.
- `src/linked_item.rs`, `src/ring_list.rs`: per-key doubly linked lists whose head sits under
  `None`; the laws show that appending adds a value at the end and removing takes it out.
- `src/registry.rs`: the shared registry of owned kitties with its consistency invariant.
- `src/kitties.rs`, `src/crypto_kitties.rs`, `src/kitty.rs`, `src/substrate_kitties.rs`,
  `src/owned_kitties.rs`, `src/priced_kitties.rs`: the kitty modules as state transitions.
- `app/lib.rs`: origin checks and the values the chain supplies, around the library calls.
