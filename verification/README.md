# kyber_numbers

The logic of a small networked number game whose messages travel encrypted
with Kyber, written in Verus.

- `src/lib.rs`: hands of numbers (`Nums`), errors and their text.
- `src/net.rs`: the package format, the encryption marker, and encoding and
  decoding of messages; `src/net/cipher.rs` holds the calls into
  `kyber-pke` and `pqc_kyber_kyberslash`; `src/net/client.rs` and
  `src/net/server.rs` hold each side's keys and the packing, checking and
  opening of packages.
- `src/server.rs`: game rooms and players.
- `src/hashing.rs`, `src/random.rs`: the calls into `ahash` and `rand`.
- `app/`: UDP sockets, tokio tasks and channels, and JSON, around the library.
