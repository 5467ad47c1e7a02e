# indtp

Inertial Navigation Data Transfer Protocol (INDTP): a binary application-layer
protocol for inertial navigation systems. A frame is a 14-byte header, a
payload (optionally a batch of timestamped samples) and a trailer whose content
the operating mode selects: nothing (`Lite`), a CRC-32 (`Verified`), a
truncated CMAC-AES-128 (`Trusted`) or an HMAC-SHA256 (`Critical`).

Layout:

- `src/` — the library, verified with Verus:
  - `codec` little-endian encoding of integers and its round-trip lemmas;
  - `flags` the flags byte and the operating mode;
  - `header` the header, its wire format, CRC, packing and validation;
  - `frame` frames over an owned buffer: construction, accessors, packing
    and parsing, with the law that a packed frame parses back unchanged;
  - `batch` writing and reading batches of timestamped samples;
  - `engines` the integrity and cryptography engine traits and their
    software implementations on top of the `crc`, `cmac`, `hmac`, `sha2`,
    `aes` and `ctr` crates;
  - `payload`, `types`, `utils` payload type identifiers, errors and keys,
    and sequence-number checking.
- `tests/` — tests of the library.
- `app/` — typed payloads (zerocopy traits and the standard sensor payloads,
  which hold floating-point readings) and an error type with `Display`.
