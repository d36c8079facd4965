# phoenix_protocol

Threshold-encrypted messaging over a peer-to-peer mesh, with shard storage
and an emergency cache, written in Verus.

Layout:

- `src/` – the verified library.
  - `keyed.rs` – an insertion-ordered string-keyed table (unique keys).
  - `text.rs` – decimal rendering for messages.
  - `fresh.rs` – fresh message ids and the clock.
  - `crypto/` – the seeded key set and its operations (`keys.rs`), a node's
    threshold key (`ThresholdCrypto`), decryption shares, and the messages
    that carry ciphertexts and shares.
  - `filecoin/` – shard splitting and reassembly (`ThresholdStorage`), the
    emergency cache, and the storage client's decisions (`FilecoinClient`).
  - `mesh/` – the node's reaction to mesh traffic (`PhoenixNode`) and the
    terminal commands.
- `app/` – the program: libp2p mesh, HTTP storage service, JSON wire forms.
- `tests/` – tests of the library.
