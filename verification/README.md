# pam_codec

Encoder for PopCap PAM animation files (Plants vs. Zombies 2), written in
Verus. Every writer is proved to append exactly the bytes that the format
specification in `src/format.rs` gives for its input, or to stop with the
error that the specification gives, keeping what it wrote before.

- `src/types.rs`: the data model; fixed-point quantities are held as the
  integers stored in the file.
- `src/format.rs`: the byte layout, as spec functions.
- `src/encoder.rs`: the writers, including `encode_pam`.
- `src/laws.rs`: properties of the format: when encoding succeeds, what every
  file starts with, what a refused version writes, what early versions store
  of a sprite.
- `src/wire.rs`: little-endian integers, written through `byteorder`.
- `app/`: the serde model with real numbers, rounding to the stored integers,
  and encoding onto any `std::io::Write`.
