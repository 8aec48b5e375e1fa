# openpgp_serialize

Serialization of OpenPGP packets (RFC 4880), messages, certificates and
transferable secret keys, written in Verus with machine-checked contracts.

- `src/bytes.rs` — appending byte strings and big-endian integers.
- `src/header.rs` — packet tags, new and old format CTBs, body length
  encodings, and the partial body framing of streamed bodies, with proofs
  that the headers decode back to what they encode.
- `src/compression.rs` — the compression algorithms of compressed data
  packets, computed by the `flate2` and `bzip2` crates.
- `src/packet.rs` — the packet types and their serialization.
- `src/subpacket.rs` — the hashed subpackets that decide whether a
  signature may be exported.
- `src/cert.rs` — certificates: serialization, export, lengths, and the
  proof that secret key material never reaches their serialization.
- `src/tsk.rs` — the `TSK` view of a certificate that also writes secret
  keys, secret key stubs and key filters; a filter is asked about
  each written key with a secret every time the certificate is written.
- `src/reading.rs` — decoders for packets and packet sequences, and the
  proofs that messages, certificates and transferable secret keys read
  back to what was written.
- `app/lib.rs` — writing the serializations to `std::io::Write` sinks.
