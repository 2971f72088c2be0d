# net_wire

Borrowed, allocation-free views and caller-buffer builders for exact network wire layouts,
written in Verus: every parser, builder and accessor in `src/` carries a contract that states
its result over a mathematical model of the bytes, and Verus proves each body against it.

- `src/tcp` — TCP segments: parsing, mutation, construction, and pseudoheader checksums
  (`lemma_updated_checksum_is_valid`: a recomputed checksum always checks).
- `src/tls` — TLS records, handshakes, ClientHello/ServerHello and their extensions, with
  builder/parser round-trip lemmas.
- `src/quic` — QUIC variable-length integers, packet headers and coalesced datagrams,
  packet builders (with round-trip lemmas), RFC 9000 frames, and transport parameters
  (structural parsing, version-1 validation, handshake connection-ID checks).
- `src/internet_checksum.rs`, `src/wire.rs` — the ones'-complement sum and byte-level helpers.
- `app/` — `Display` and `std::error::Error` for copies of the error types.
- `tests/` — executable tests of the library.
