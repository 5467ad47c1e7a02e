//! INDTP header: 14 bytes of routing, versioning and integrity metadata.

use vstd::prelude::*;

use crate::codec::{
    le16, le32, lemma_le16_bytes_roundtrip, lemma_le16_roundtrip, lemma_le32_bytes_roundtrip,
    lemma_le32_roundtrip, read_le16, read_le32, u16_from_le, u16_to_le, u32_from_le, u32_to_le,
};
use crate::engines::IntegrityEngine;
use crate::flags::{
    lemma_mode_bits_total, mode_bits, mode_from_bits, set_bit, with_mode_bits, Flags, Mode, ALL_BITS, BATCH_BIT,
    ENCRYPT_BIT, MODE_MASK_BITS, PRIORITY_BIT,
};
use crate::payload::{is_standard_type, STANDARD_PAYLOAD_RANGE};
use crate::types::Error;

verus! {

/// Protocol version encoded as `MMMMmmmm` (4 bits major, 4 bits minor).
pub const INDTP_VERSION: u8 = 0x10;

/// Size of the INDTP header in bytes.
pub const HEADER_SIZE: usize = 14;

/// Magic number signaling the start of a new frame ("INDT" in little-endian
/// byte order).
pub const PREAMBLE: u32 = 0x54444E49;

/// Number of leading header bytes covered by the header CRC.
pub const CRC_OFFSET: usize = 12;

/// Contains all necessary metadata for routing, versioning, and initial
/// integrity checking. On the wire the fields appear in declaration order,
/// multi-byte fields in little-endian byte order.
#[derive(Clone, Copy, Debug, PartialEq, Eq, Structural)]
pub struct Header {
    /// Magic number signaling the start of a new frame.
    pub preamble: u32,
    /// Protocol version encoded as `MMMMmmmm` (4 bits major, 4 bits minor).
    pub version: u8,
    /// Bitmask controlling protocol behavior and frame structure.
    pub flags: u8,
    /// Unique identifier of the source navigation node.
    pub device_id: u8,
    /// Identifier defining the structure and semantics of the payload data.
    pub payload_type: u8,
    /// Monotonically increasing value used for detecting lost packets and
    /// preventing replay attacks.
    pub sequence: u16,
    /// Size of the payload section in bytes.
    pub payload_len: u16,
    /// Cyclic Redundancy Check for header integrity.
    pub crc: u16,
}

/// The first twelve wire bytes of a header: everything the CRC covers.
pub open spec fn header_prefix(h: Header) -> Seq<u8> {
    le32(h.preamble) + seq![h.version, h.flags, h.device_id, h.payload_type] + le16(h.sequence)
        + le16(h.payload_len)
}

/// The fourteen wire bytes of a header, CRC field as stored.
pub open spec fn header_bytes(h: Header) -> Seq<u8> {
    header_prefix(h) + le16(h.crc)
}

/// The header that the first fourteen bytes of `b` encode.
pub open spec fn decode_header(b: Seq<u8>) -> Header {
    Header {
        preamble: read_le32(b, 0),
        version: b[4],
        flags: b[5],
        device_id: b[6],
        payload_type: b[7],
        sequence: read_le16(b, 8),
        payload_len: read_le16(b, 10),
        crc: read_le16(b, 12),
    }
}

/// The CRC-16 that engine `I` computes for a header.
pub open spec fn header_crc<I: IntegrityEngine>(h: Header) -> u16 {
    I::spec_crc16(header_prefix(h))
}

/// The fourteen wire bytes of a header with its CRC computed by engine `I`.
pub open spec fn packed_header<I: IntegrityEngine>(h: Header) -> Seq<u8> {
    header_prefix(h) + le16(header_crc::<I>(h))
}

/// Outcome of validating the header at the start of `b` with engine `I`.
pub open spec fn header_check<I: IntegrityEngine>(b: Seq<u8>) -> Result<(), Error> {
    if b.len() < HEADER_SIZE {
        Err(Error::BufferUnderflow)
    } else if read_le32(b, 0) != PREAMBLE {
        Err(Error::ParseError)
    } else if I::spec_crc16(b.take(CRC_OFFSET as int)) != read_le16(b, 12) {
        Err(Error::IncorrectCrc)
    } else {
        Ok(())
    }
}

/// Mode that the two low bits of a flags byte name.
pub open spec fn flags_mode(flags: u8) -> Mode {
    mode_from_bits(flags & MODE_MASK_BITS)->Some_0
}

/// Whether the given flag bit is set in a flags byte.
pub open spec fn flag_set(flags: u8, bit: u8) -> bool {
    flags & bit != 0
}

/// Flags byte after setting a mode the way the header does it (undefined
/// bits dropped, mode bits replaced).
pub open spec fn flags_after_mode(flags: u8, mode: Mode) -> u8 {
    with_mode_bits(flags & ALL_BITS, mode)
}

/// Flags byte after setting or clearing one flag the way the header does it
/// (undefined bits dropped, the flag's bit set or cleared).
pub open spec fn flags_after_set(flags: u8, bit: u8, enabled: bool) -> u8 {
    set_bit(flags & ALL_BITS, bit, enabled)
}

/// Whether a byte is one of the three single-bit flags.
pub open spec fn is_flag_bit(bit: u8) -> bool {
    bit == BATCH_BIT || bit == ENCRYPT_BIT || bit == PRIORITY_BIT
}

/// Setting a mode and reading it back gives that mode, and setting a mode
/// leaves the batching, encryption and priority flags as they were.
pub proof fn lemma_set_mode_then_mode(flags: u8, mode: Mode, bit: u8)
    requires
        is_flag_bit(bit),
    ensures
        flags_mode(flags_after_mode(flags, mode)) == mode,
        flag_set(flags_after_mode(flags, mode), bit) == flag_set(flags, bit),
{
    let mb = mode_bits(mode);
    assert(mb <= 3 ==> ((flags & 0x1fu8) & !0x03u8 | mb) & 0x03u8 == mb) by (bit_vector);
    assert((bit == 4 || bit == 8 || bit == 16) && mb <= 3 ==> ((((flags & 0x1fu8) & !0x03u8 | mb)
        & bit != 0) == (flags & bit != 0))) by (bit_vector);
}

/// Setting or clearing one flag and reading it back gives the value set;
/// the other flags and the mode are left as they were.
pub proof fn lemma_set_flag_then_read(flags: u8, bit: u8, enabled: bool, other: u8)
    requires
        is_flag_bit(bit),
        is_flag_bit(other),
        other != bit,
    ensures
        flag_set(flags_after_set(flags, bit, enabled), bit) == enabled,
        flag_set(flags_after_set(flags, bit, enabled), other) == flag_set(flags, other),
        flags_mode(flags_after_set(flags, bit, enabled)) == flags_mode(flags),
{
    let after = flags_after_set(flags, bit, enabled);
    assert((bit == 4 || bit == 8 || bit == 16) ==> (((flags & 0x1fu8) | bit) & bit != 0) && (((
    flags & 0x1fu8) & !bit) & bit == 0)) by (bit_vector);
    assert((bit == 4 || bit == 8 || bit == 16) && (other == 4 || other == 8 || other == 16) && other
        != bit ==> (((((flags & 0x1fu8) | bit) & other) != 0) == ((flags & other) != 0)) && (((((
    flags & 0x1fu8) & !bit) & other) != 0) == ((flags & other) != 0))) by (bit_vector);
    assert((bit == 4 || bit == 8 || bit == 16) ==> (((flags & 0x1fu8) | bit) & 0x03u8) == (flags
        & 0x03u8) && (((flags & 0x1fu8) & !bit) & 0x03u8) == (flags & 0x03u8)) by (bit_vector);
}

/// A header packed by engine `I` passes validation by the same engine,
/// whatever follows it, exactly when its preamble is the protocol's magic
/// number; otherwise validation reports a parse error.
pub proof fn lemma_pack_then_validate<I: IntegrityEngine>(h: Header, rest: Seq<u8>)
    ensures
        h.preamble == PREAMBLE ==> header_check::<I>(packed_header::<I>(h) + rest) is Ok,
        h.preamble != PREAMBLE ==> header_check::<I>(packed_header::<I>(h) + rest)
            == Err::<(), Error>(Error::ParseError),
{
    let b = packed_header::<I>(h) + rest;
    let packed = Header { crc: header_crc::<I>(h), ..h };
    assert(header_prefix(packed) == header_prefix(h));
    assert(packed_header::<I>(h) =~= header_bytes(packed));
    lemma_decode_header_bytes(packed);
    assert(b.take(CRC_OFFSET as int) =~= header_prefix(h));
    assert(read_le32(b, 0) == read_le32(header_bytes(packed), 0));
    assert(read_le16(b, 12) == read_le16(header_bytes(packed), 12));
}

/// Reading back the bytes of a packed header gives the header, with its CRC
/// field holding the CRC that the engine computed.
pub proof fn lemma_pack_then_decode<I: IntegrityEngine>(h: Header, rest: Seq<u8>)
    ensures
        decode_header(packed_header::<I>(h) + rest) == (Header { crc: header_crc::<I>(h), ..h }),
{
    let packed = Header { crc: header_crc::<I>(h), ..h };
    assert(packed_header::<I>(h) =~= header_bytes(packed));
    lemma_decode_header_bytes(packed);
    let b = packed_header::<I>(h) + rest;
    assert(forall|k: int| 0 <= k < HEADER_SIZE ==> b[k] == header_bytes(packed)[k]);
}

/// The byte values of a header encoding decode back to the header.
pub proof fn lemma_decode_header_bytes(h: Header)
    ensures
        header_bytes(h).len() == HEADER_SIZE,
        decode_header(header_bytes(h)) == h,
        header_prefix(h).len() == CRC_OFFSET,
        header_bytes(h).take(CRC_OFFSET as int) == header_prefix(h),
{
    lemma_le32_roundtrip(h.preamble);
    lemma_le16_roundtrip(h.sequence);
    lemma_le16_roundtrip(h.payload_len);
    lemma_le16_roundtrip(h.crc);
    assert(header_bytes(h).take(CRC_OFFSET as int) =~= header_prefix(h));
}

/// Fourteen bytes are the encoding of the header they decode to.
pub proof fn lemma_header_bytes_decode(b: Seq<u8>)
    requires
        b.len() == HEADER_SIZE,
    ensures
        header_bytes(decode_header(b)) == b,
{
    lemma_le32_bytes_roundtrip(b[0], b[1], b[2], b[3]);
    lemma_le16_bytes_roundtrip(b[8], b[9]);
    lemma_le16_bytes_roundtrip(b[10], b[11]);
    lemma_le16_bytes_roundtrip(b[12], b[13]);
    assert(header_bytes(decode_header(b)) =~= b);
}

/// Wire layout of a header: the preamble in bytes 0 to 3, then version,
/// flags, device id and payload type, then the sequence number, the payload
/// length and the CRC, multi-byte fields little-endian. Reading a header
/// takes each field from the same place.
pub proof fn lemma_header_wire_layout(h: Header, b: Seq<u8>)
    requires
        b.len() >= 14,
    ensures
        header_bytes(h).len() == 14,
        header_bytes(h)[0] as int + 256 * header_bytes(h)[1] as int + 65536 * header_bytes(h)[2] as int
            + 16777216 * header_bytes(h)[3] as int == h.preamble,
        header_bytes(h)[4] == h.version,
        header_bytes(h)[5] == h.flags,
        header_bytes(h)[6] == h.device_id,
        header_bytes(h)[7] == h.payload_type,
        header_bytes(h)[8] as int + 256 * header_bytes(h)[9] as int == h.sequence,
        header_bytes(h)[10] as int + 256 * header_bytes(h)[11] as int == h.payload_len,
        header_bytes(h)[12] as int + 256 * header_bytes(h)[13] as int == h.crc,
        decode_header(b).preamble == b[0] as int + 256 * b[1] as int + 65536 * b[2] as int
            + 16777216 * b[3] as int,
        decode_header(b).version == b[4],
        decode_header(b).flags == b[5],
        decode_header(b).device_id == b[6],
        decode_header(b).payload_type == b[7],
        decode_header(b).sequence == b[8] as int + 256 * b[9] as int,
        decode_header(b).payload_len == b[10] as int + 256 * b[11] as int,
        decode_header(b).crc == b[12] as int + 256 * b[13] as int,
{
    lemma_decode_header_bytes(h);
    let hb = header_bytes(h);
    assert(decode_header(hb) == h);
}

/// The header CRC is the engine's CRC-16 of the first twelve wire bytes of
/// the header, everything before the CRC field; a packed header keeps those
/// twelve bytes and carries that CRC little-endian in bytes 12 and 13.
pub proof fn lemma_header_crc_covers_twelve_bytes<I: IntegrityEngine>(h: Header)
    ensures
        header_bytes(h).len() == 14,
        header_crc::<I>(h) == I::spec_crc16(header_bytes(h).subrange(0, 12)),
        packed_header::<I>(h).len() == 14,
        packed_header::<I>(h).subrange(0, 12) == header_bytes(h).subrange(0, 12),
        packed_header::<I>(h)[12] as int + 256 * packed_header::<I>(h)[13] as int == I::spec_crc16(
            packed_header::<I>(h).subrange(0, 12),
        ) as int,
{
    lemma_decode_header_bytes(h);
    assert(header_bytes(h).subrange(0, 12) =~= header_prefix(h));
    let p = packed_header::<I>(h);
    assert(p.subrange(0, 12) =~= header_prefix(h));
    let c = header_crc::<I>(h);
    lemma_le16_roundtrip(c);
    assert(p[12] == le16(c)[0] && p[13] == le16(c)[1]);
}

/// Validation accepts a buffer exactly when it holds at least fourteen
/// bytes, starts with the preamble bytes `49 4E 44 54` ("INDT"), and holds
/// in bytes 12 and 13, little-endian, the engine's CRC-16 of bytes 0 to 11.
/// A buffer of the right length and preamble whose CRC field does not match
/// is refused with `IncorrectCrc`.
pub proof fn lemma_validate_checks_twelve_bytes<I: IntegrityEngine>(b: Seq<u8>)
    ensures
        header_check::<I>(b) is Ok <==> (b.len() >= 14 && b[0] == 0x49 && b[1] == 0x4E && b[2]
            == 0x44 && b[3] == 0x54 && I::spec_crc16(b.subrange(0, 12)) as int == b[12] as int
            + 256 * b[13] as int),
        (b.len() >= 14 && b[0] == 0x49 && b[1] == 0x4E && b[2] == 0x44 && b[3] == 0x54
            && I::spec_crc16(b.subrange(0, 12)) as int != b[12] as int + 256 * b[13] as int)
            ==> header_check::<I>(b) == Err::<(), Error>(Error::IncorrectCrc),
{
    if b.len() >= 14 {
        assert(b.take(CRC_OFFSET as int) =~= b.subrange(0, 12));
        lemma_le32_bytes_roundtrip(b[0], b[1], b[2], b[3]);
        assert(le32(PREAMBLE) =~= seq![0x49u8, 0x4Eu8, 0x44u8, 0x54u8]);
        if read_le32(b, 0) == PREAMBLE {
            assert(seq![b[0], b[1], b[2], b[3]] == seq![0x49u8, 0x4Eu8, 0x44u8, 0x54u8]);
            assert(seq![b[0], b[1], b[2], b[3]][0] == b[0]);
            assert(seq![b[0], b[1], b[2], b[3]][1] == b[1]);
            assert(seq![b[0], b[1], b[2], b[3]][2] == b[2]);
            assert(seq![b[0], b[1], b[2], b[3]][3] == b[3]);
        }
        assert(read_le16(b, 12) as int == b[12] as int + 256 * b[13] as int);
    }
}

/// Validation catches a change to any of the twelve bytes before the CRC
/// field: a buffer that keeps the CRC field of a packed header but whose
/// first twelve bytes have another CRC-16 is refused.
pub proof fn lemma_validate_detects_prefix_change<I: IntegrityEngine>(h: Header, b: Seq<u8>)
    requires
        b.len() >= 14,
        b[12] == packed_header::<I>(h)[12],
        b[13] == packed_header::<I>(h)[13],
        I::spec_crc16(b.subrange(0, 12)) != I::spec_crc16(packed_header::<I>(h).subrange(0, 12)),
    ensures
        header_check::<I>(b) is Err,
{
    lemma_header_crc_covers_twelve_bytes::<I>(h);
    lemma_validate_checks_twelve_bytes::<I>(b);
}

/// Copies `src` into `dst` at `at`.
pub fn copy_into(dst: &mut [u8], at: usize, src: &[u8])
    requires
        at + src@.len() <= old(dst)@.len(),
    ensures
        final(dst)@ == old(dst)@.take(at as int) + src@ + old(dst)@.skip(at + src@.len()),
{
    let mut i: usize = 0;
    let n = src.len();
    let ghost m = dst.len();
    assert(m == dst@.len());
    while i < n
        invariant
            n == src@.len(),
            m == dst@.len(),
            m <= usize::MAX,
            at + src@.len() <= dst@.len(),
            dst@.len() == old(dst)@.len(),
            i <= src@.len(),
            forall|k: int| 0 <= k < at ==> dst@[k] == old(dst)@[k],
            forall|k: int| 0 <= k < i ==> dst@[at + k] == src@[k],
            forall|k: int| at + i <= k < dst@.len() ==> dst@[k] == old(dst)@[k],
        decreases n - i,
    {
        dst[at + i] = src[i];
        i = i + 1;
    }
    assert(dst@ =~= old(dst)@.take(at as int) + src@ + old(dst)@.skip(at + src@.len()));
}

impl Header {
    /// Magic number signaling the start of a new INDTP frame.
    pub const PREAMBLE: u32 = 0x54444E49;

    /// Size of the INDTP header in bytes.
    pub const SIZE: usize = 14;

    /// Construct new INDTP header: preamble and version set, all other
    /// fields zero.
    pub fn new() -> (h: Self)
        ensures
            h == (Header {
                preamble: PREAMBLE,
                version: INDTP_VERSION,
                flags: 0,
                device_id: 0,
                payload_type: 0,
                sequence: 0,
                payload_len: 0,
                crc: 0,
            }),
    {
        Header {
            preamble: PREAMBLE,
            version: INDTP_VERSION,
            ..Header::default()
        }
    }

    /// Get protocol flags (undefined bits dropped).
    pub fn get_flags(&self) -> (flags: Flags)
        ensures
            flags@ == self.flags & ALL_BITS,
    {
        Flags::from_bits_truncate(self.flags)
    }

    /// Set protocol flags.
    pub fn set_flags(&mut self, flags: Flags)
        ensures
            *final(self) == (Header { flags: flags@, ..*old(self) }),
    {
        self.flags = flags.bits();
    }

    /// Set protocol operating mode.
    pub fn set_mode(&mut self, mode: Mode)
        ensures
            *final(self) == (Header { flags: flags_after_mode(old(self).flags, mode), ..*old(self) }),
    {
        let flags = self.get_flags().with_mode(mode);
        self.flags = flags.bits();
    }

    /// Get protocol operating mode. The two mode bits always name a mode, so
    /// this never fails.
    pub fn mode(&self) -> (mode: Result<Mode, Error>)
        ensures
            mode == Ok::<Mode, Error>(flags_mode(self.flags)),
    {
        let flags = self.get_flags();
        proof {
            lemma_mode_bits_total(self.flags);
            let b = self.flags;
            assert((b & 0x1fu8) & 0x03u8 == b & 0x03u8) by (bit_vector);
        }
        Mode::try_from(flags)
    }

    /// Check whether data aggregation is enabled for the payload.
    pub fn is_batch(&self) -> (yes: bool)
        ensures
            yes == flag_set(self.flags, BATCH_BIT),
    {
        let flags = self.get_flags();
        let b = self.flags;
        assert(((b & 0x1fu8) & 0x04u8 == 0x04u8) == (b & 0x04u8 != 0)) by (bit_vector);
        flags.contains(Flags::from_bits_retain(BATCH_BIT))
    }

    /// Enable or disable data aggregation for the payload.
    pub fn set_batch(&mut self, enabled: bool)
        ensures
            *final(self) == (Header {
                flags: flags_after_set(old(self).flags, BATCH_BIT, enabled),
                ..*old(self)
            }),
    {
        let mut flags = self.get_flags();
        flags.set(Flags::from_bits_retain(BATCH_BIT), enabled);
        self.flags = flags.bits();
    }

    /// Check whether the payload is encrypted.
    pub fn is_encrypted(&self) -> (yes: bool)
        ensures
            yes == flag_set(self.flags, ENCRYPT_BIT),
    {
        let flags = self.get_flags();
        let b = self.flags;
        assert(((b & 0x1fu8) & 0x08u8 == 0x08u8) == (b & 0x08u8 != 0)) by (bit_vector);
        flags.contains(Flags::from_bits_retain(ENCRYPT_BIT))
    }

    /// Set or unset the payload encryption flag.
    pub fn set_encrypted(&mut self, enabled: bool)
        ensures
            *final(self) == (Header {
                flags: flags_after_set(old(self).flags, ENCRYPT_BIT, enabled),
                ..*old(self)
            }),
    {
        let mut flags = self.get_flags();
        flags.set(Flags::from_bits_retain(ENCRYPT_BIT), enabled);
        self.flags = flags.bits();
    }

    /// Check whether frame handling has high priority.
    pub fn is_high_priority(&self) -> (yes: bool)
        ensures
            yes == flag_set(self.flags, PRIORITY_BIT),
    {
        let flags = self.get_flags();
        let b = self.flags;
        assert(((b & 0x1fu8) & 0x10u8 == 0x10u8) == (b & 0x10u8 != 0)) by (bit_vector);
        flags.contains(Flags::from_bits_retain(PRIORITY_BIT))
    }

    /// Set frame handling priority.
    pub fn set_priority(&mut self, high: bool)
        ensures
            *final(self) == (Header {
                flags: flags_after_set(old(self).flags, PRIORITY_BIT, high),
                ..*old(self)
            }),
    {
        let mut flags = self.get_flags();
        flags.set(Flags::from_bits_retain(PRIORITY_BIT), high);
        self.flags = flags.bits();
    }

    /// Check whether the payload type is standard (`0x00..0x80`) rather than
    /// vendor-specific.
    pub fn is_standard_payload(&self) -> (yes: bool)
        ensures
            yes == is_standard_type(self.payload_type),
    {
        STANDARD_PAYLOAD_RANGE.contains(&self.payload_type)
    }

    /// The twelve leading wire bytes of the header.
    fn prefix_bytes(&self) -> (bytes: [u8; 12])
        ensures
            bytes@ == header_prefix(*self),
    {
        let p = u32_to_le(self.preamble);
        let s = u16_to_le(self.sequence);
        let l = u16_to_le(self.payload_len);
        let bytes = [
            p[0],
            p[1],
            p[2],
            p[3],
            self.version,
            self.flags,
            self.device_id,
            self.payload_type,
            s[0],
            s[1],
            l[0],
            l[1],
        ];
        assert(bytes@ =~= header_prefix(*self));
        bytes
    }

    /// Calculating the CRC-16 of the header (its first twelve wire bytes).
    /// Never fails.
    pub fn compute_crc<I: IntegrityEngine>(&self) -> (crc: Result<u16, Error>)
        ensures
            crc == Ok::<u16, Error>(header_crc::<I>(*self)),
    {
        let prefix = self.prefix_bytes();
        Ok(I::compute_crc16(&prefix))
    }

    /// The fourteen wire bytes of the header, CRC field as stored.
    pub fn to_bytes(&self) -> (bytes: [u8; 14])
        ensures
            bytes@ == header_bytes(*self),
    {
        let p = self.prefix_bytes();
        let c = u16_to_le(self.crc);
        let bytes = [
            p[0],
            p[1],
            p[2],
            p[3],
            p[4],
            p[5],
            p[6],
            p[7],
            p[8],
            p[9],
            p[10],
            p[11],
            c[0],
            c[1],
        ];
        assert(bytes@ =~= header_bytes(*self));
        bytes
    }

    /// Size of the header in bytes.
    pub fn size(&self) -> (size: usize)
        ensures
            size == HEADER_SIZE,
    {
        HEADER_SIZE
    }

    /// Construct a header from raw bytes (the first fourteen are read).
    pub fn from_bytes(data: &[u8]) -> (h: Result<Header, Error>)
        ensures
            data@.len() < HEADER_SIZE ==> h == Err::<Header, Error>(Error::BufferUnderflow),
            data@.len() >= HEADER_SIZE ==> h == Ok::<Header, Error>(decode_header(data@)),
    {
        if data.len() < HEADER_SIZE {
            return Err(Error::BufferUnderflow);
        }
        Ok(Header {
            preamble: u32_from_le(data[0], data[1], data[2], data[3]),
            version: data[4],
            flags: data[5],
            device_id: data[6],
            payload_type: data[7],
            sequence: u16_from_le(data[8], data[9]),
            payload_len: u16_from_le(data[10], data[11]),
            crc: u16_from_le(data[12], data[13]),
        })
    }

    /// Pack header into its fourteen wire bytes, with the CRC computed by
    /// engine `I` in place of the stored one. Never fails.
    pub fn pack<I: IntegrityEngine>(&self) -> (packed: Result<[u8; HEADER_SIZE], Error>)
        ensures
            packed is Ok,
            packed matches Ok(b) ==> b@ == packed_header::<I>(*self),
    {
        let mut buffer = [0u8; HEADER_SIZE];
        let res = self.pack_into::<I>(&mut buffer);
        match res {
            Ok(()) => {
                assert(buffer@ =~= packed_header::<I>(*self));
                Ok(buffer)
            },
            Err(e) => Err(e),
        }
    }

    /// Pack header into the first fourteen bytes of `buffer`, with the CRC
    /// computed by engine `I`; the rest of the buffer is left alone.
    pub fn pack_into<I: IntegrityEngine>(&self, buffer: &mut [u8]) -> (res: Result<(), Error>)
        ensures
            old(buffer)@.len() < HEADER_SIZE ==> res == Err::<(), Error>(Error::BufferUnderflow)
                && final(buffer)@ == old(buffer)@,
            old(buffer)@.len() >= HEADER_SIZE ==> res is Ok && final(buffer)@
                == packed_header::<I>(*self) + old(buffer)@.skip(HEADER_SIZE as int),
    {
        if buffer.len() < HEADER_SIZE {
            return Err(Error::BufferUnderflow);
        }
        let bytes = self.to_bytes();
        copy_into(buffer, 0, &bytes);
        let crc = self.compute_crc::<I>()?;
        let crc_bytes = u16_to_le(crc);
        copy_into(buffer, CRC_OFFSET, &crc_bytes);
        assert(final(buffer)@ =~= packed_header::<I>(*self) + old(buffer)@.skip(HEADER_SIZE as int));
        Ok(())
    }

    /// Validate the header at the start of `buffer`: length, preamble, and
    /// CRC as computed by engine `I`.
    pub fn validate<I: IntegrityEngine>(buffer: &[u8]) -> (res: Result<(), Error>)
        ensures
            res == header_check::<I>(buffer@),
    {
        if buffer.len() < HEADER_SIZE {
            return Err(Error::BufferUnderflow);
        }
        let preamble = u32_from_le(buffer[0], buffer[1], buffer[2], buffer[3]);
        if preamble != PREAMBLE {
            return Err(Error::ParseError);
        }
        let data = vstd::slice::slice_subrange(buffer, 0, CRC_OFFSET);
        let computed_crc = I::compute_crc16(data);
        let received_crc = u16_from_le(buffer[12], buffer[13]);
        if computed_crc != received_crc {
            return Err(Error::IncorrectCrc);
        }
        Ok(())
    }
}

impl Default for Header {
    fn default() -> (h: Header)
        ensures
            h == (Header {
                preamble: 0,
                version: 0,
                flags: 0,
                device_id: 0,
                payload_type: 0,
                sequence: 0,
                payload_len: 0,
                crc: 0,
            }),
    {
        Header {
            preamble: 0,
            version: 0,
            flags: 0,
            device_id: 0,
            payload_type: 0,
            sequence: 0,
            payload_len: 0,
            crc: 0,
        }
    }
}

} // verus!
