//! Little-endian encoding of the protocol's multi-byte integers.

use vstd::prelude::*;
use vstd::arithmetic::div_mod::lemma_fundamental_div_mod_converse;

verus! {

/// Little-endian bytes of a 16-bit value.
pub open spec fn le16(v: u16) -> Seq<u8> {
    seq![(v % 256) as u8, (v / 256) as u8]
}

/// 16-bit value of two little-endian bytes.
pub open spec fn from_le16(b0: u8, b1: u8) -> u16 {
    (b0 + 256 * b1) as u16
}

/// Little-endian bytes of a 32-bit value.
pub open spec fn le32(v: u32) -> Seq<u8> {
    seq![
        (v % 256) as u8,
        ((v / 256) % 256) as u8,
        ((v / 65536) % 256) as u8,
        (v / 16777216) as u8,
    ]
}

/// 32-bit value of four little-endian bytes.
pub open spec fn from_le32(b0: u8, b1: u8, b2: u8, b3: u8) -> u32 {
    (b0 + 256 * b1 + 65536 * b2 + 16777216 * b3) as u32
}

/// 32-bit value of the four little-endian bytes at `at` in `s`.
pub open spec fn read_le32(s: Seq<u8>, at: int) -> u32 {
    from_le32(s[at], s[at + 1], s[at + 2], s[at + 3])
}

/// 16-bit value of the two little-endian bytes at `at` in `s`.
pub open spec fn read_le16(s: Seq<u8>, at: int) -> u16 {
    from_le16(s[at], s[at + 1])
}

/// Byte order of the encodings: least significant byte first, so that
/// byte `k` weighs `256^k`, in both directions.
pub proof fn lemma_little_endian_order(a: u16, b: u32, b0: u8, b1: u8, b2: u8, b3: u8)
    ensures
        le16(a).len() == 2,
        le16(a)[0] as int + 256 * le16(a)[1] as int == a,
        le32(b).len() == 4,
        le32(b)[0] as int + 256 * le32(b)[1] as int + 65536 * le32(b)[2] as int + 16777216
            * le32(b)[3] as int == b,
        from_le16(b0, b1) == b0 as int + 256 * b1 as int,
        from_le32(b0, b1, b2, b3) == b0 as int + 256 * b1 as int + 65536 * b2 as int + 16777216
            * b3 as int,
{
    lemma_le32_roundtrip(b);
}

/// Decoding the encoding of a 16-bit value gives the value back.
pub proof fn lemma_le16_roundtrip(v: u16)
    ensures
        le16(v).len() == 2,
        from_le16(le16(v)[0], le16(v)[1]) == v,
{
}

/// Encoding the decoded value gives the two bytes back.
pub proof fn lemma_le16_bytes_roundtrip(b0: u8, b1: u8)
    ensures
        le16(from_le16(b0, b1)) == seq![b0, b1],
{
    assert(le16(from_le16(b0, b1)) =~= seq![b0, b1]);
}

/// Decoding the encoding of a 32-bit value gives the value back.
pub proof fn lemma_le32_roundtrip(v: u32)
    ensures
        le32(v).len() == 4,
        from_le32(le32(v)[0], le32(v)[1], le32(v)[2], le32(v)[3]) == v,
{
    assert(v == (v % 256) + 256 * ((v / 256) % 256) + 65536 * ((v / 65536) % 256) + 16777216 * (
    v / 16777216)) by (bit_vector);
    assert(v / 16777216 < 256) by (bit_vector);
}

/// Encoding the decoded value gives the four bytes back.
pub proof fn lemma_le32_bytes_roundtrip(b0: u8, b1: u8, b2: u8, b3: u8)
    ensures
        le32(from_le32(b0, b1, b2, b3)) == seq![b0, b1, b2, b3],
{
    let v = b0 + 256 * b1 + 65536 * b2 + 16777216 * b3;
    let q1 = b1 + 256 * b2 + 65536 * b3;
    let q2 = b2 + 256 * b3;
    lemma_fundamental_div_mod_converse(v, 256, q1, b0 as int);
    lemma_fundamental_div_mod_converse(q1, 256, q2, b1 as int);
    lemma_fundamental_div_mod_converse(q2, 256, b3 as int, b2 as int);
    lemma_fundamental_div_mod_converse(v, 65536, q2, b0 + 256 * b1);
    lemma_fundamental_div_mod_converse(v, 16777216, b3 as int, b0 + 256 * b1 + 65536 * b2);
    assert(le32(from_le32(b0, b1, b2, b3)) =~= seq![b0, b1, b2, b3]);
}

/// Little-endian bytes of `v`.
pub fn u16_to_le(v: u16) -> (bytes: [u8; 2])
    ensures
        bytes@ == le16(v),
{
    let bytes = [(v % 256) as u8, (v / 256) as u8];
    assert(bytes@ =~= le16(v));
    bytes
}

/// Value of two little-endian bytes.
pub fn u16_from_le(b0: u8, b1: u8) -> (v: u16)
    ensures
        v == from_le16(b0, b1),
{
    b0 as u16 + 256 * (b1 as u16)
}

/// Little-endian bytes of `v`.
pub fn u32_to_le(v: u32) -> (bytes: [u8; 4])
    ensures
        bytes@ == le32(v),
{
    let bytes = [
        (v % 256) as u8,
        ((v / 256) % 256) as u8,
        ((v / 65536) % 256) as u8,
        (v / 16777216) as u8,
    ];
    assert(bytes@ =~= le32(v));
    bytes
}

/// Value of four little-endian bytes.
pub fn u32_from_le(b0: u8, b1: u8, b2: u8, b3: u8) -> (v: u32)
    ensures
        v == from_le32(b0, b1, b2, b3),
{
    b0 as u32 + 256 * (b1 as u32) + 65536 * (b2 as u32) + 16777216 * (b3 as u32)
}

} // verus!
