//! INDTP frame: a fixed-size header, a variable-size payload and a
//! mode-dependent trailer, held in one byte buffer.

use vstd::prelude::*;

use crate::codec::{le16, le32, read_le32, u16_to_le, u32_from_le, u32_to_le};
use crate::engines::{CryptographyEngine, IntegrityEngine};
use crate::flags::{
    mode_trailer_len, set_bit, Flags, Mode, ALL_BITS, BATCH_BIT, ENCRYPT_BIT, PRIORITY_BIT,
};
use crate::header::{
    copy_into, decode_header, flag_set, flags_after_mode, flags_after_set, flags_mode,
    header_bytes, header_check, header_prefix, lemma_decode_header_bytes, Header, CRC_OFFSET,
    HEADER_SIZE, INDTP_VERSION, PREAMBLE,
};
use crate::types::{CryptoKeys, Error};

verus! {

/// Maximum Transmission Unit (MTU) size in bytes: a whole frame (header,
/// payload and trailer) must not exceed it.
pub const MTU_SIZE: usize = 1024;

/// Max size of frame trailer in bytes.
pub const MAX_TRAILER_SIZE: usize = 32;

/// Frame payload max size in bytes.
pub const PAYLOAD_MAX_SIZE: usize = MTU_SIZE - HEADER_SIZE - MAX_TRAILER_SIZE;

/// Abstract state of a frame: its buffer and the lengths of its payload and
/// trailer sections.
pub struct FrameView {
    /// Whole frame buffer; the frame occupies a prefix of it.
    pub bytes: Seq<u8>,
    /// Payload length in bytes.
    pub payload_len: nat,
    /// Trailer length in bytes.
    pub trailer_len: nat,
}

/// A frame's sections fit its buffer and its sizes are within the protocol's
/// limits.
pub open spec fn frame_inv(v: FrameView) -> bool {
    &&& v.payload_len <= PAYLOAD_MAX_SIZE
    &&& v.trailer_len <= MAX_TRAILER_SIZE
    &&& HEADER_SIZE + v.payload_len + v.trailer_len <= v.bytes.len()
}

/// The header that a frame's buffer starts with.
pub open spec fn frame_header(v: FrameView) -> Header {
    decode_header(v.bytes)
}

/// The frame's flags byte.
pub open spec fn frame_flags(v: FrameView) -> u8 {
    v.bytes[5]
}

/// The frame's operating mode.
pub open spec fn frame_mode(v: FrameView) -> Mode {
    flags_mode(frame_flags(v))
}

/// Payload section of a frame.
pub open spec fn frame_payload(v: FrameView) -> Seq<u8> {
    v.bytes.subrange(HEADER_SIZE as int, HEADER_SIZE + v.payload_len)
}

/// Trailer section of a frame.
pub open spec fn frame_trailer(v: FrameView) -> Seq<u8> {
    v.bytes.subrange(HEADER_SIZE + v.payload_len, HEADER_SIZE + v.payload_len + v.trailer_len)
}

/// Header and payload: the part of a frame that the trailer protects.
pub open spec fn frame_auth_data(v: FrameView) -> Seq<u8> {
    v.bytes.take(HEADER_SIZE + v.payload_len)
}

/// `s` with `data` written over it at `at`.
pub open spec fn splice(s: Seq<u8>, at: int, data: Seq<u8>) -> Seq<u8> {
    s.take(at) + data + s.skip(at + data.len())
}

/// A frame with its flags byte replaced.
pub open spec fn with_flags(v: FrameView, flags: u8) -> FrameView {
    FrameView { bytes: v.bytes.update(5, flags), ..v }
}

/// A frame with its flags byte replaced and its trailer resized to the length
/// that the new mode prescribes, or `BufferUnderflow` when the buffer cannot
/// hold header, payload and that trailer.
pub open spec fn with_flags_resized(v: FrameView, flags: u8) -> Result<FrameView, Error> {
    let trailer_len = mode_trailer_len(flags_mode(flags));
    if v.bytes.len() < HEADER_SIZE + v.payload_len + trailer_len {
        Err(Error::BufferUnderflow)
    } else {
        Ok(FrameView { bytes: v.bytes.update(5, flags), payload_len: v.payload_len, trailer_len })
    }
}

/// Trailer length in bytes that a mode prescribes, as a machine integer.
pub open spec fn trailer_len_of(mode: Mode) -> usize {
    mode_trailer_len(mode) as usize
}

/// The first twelve header bytes that constructing a frame writes.
pub open spec fn initial_prefix(device_id: u8, payload_type: u8, payload_len: nat, flags: u8) -> Seq<u8> {
    header_prefix(
        Header {
            preamble: PREAMBLE,
            version: INDTP_VERSION,
            flags,
            device_id,
            payload_type,
            sequence: 0,
            payload_len: payload_len as u16,
            crc: 0,
        },
    )
}

/// Outcome of constructing a frame over `bytes`: the payload must not exceed
/// its maximum size, the buffer must hold header, payload and the trailer
/// that the mode prescribes, and the first twelve header bytes are then
/// written (the CRC field and everything after the header are left alone).
pub open spec fn new_outcome(
    bytes: Seq<u8>,
    device_id: u8,
    payload_type: u8,
    payload_len: nat,
    flags: u8,
) -> Result<FrameView, Error> {
    let trailer_len = mode_trailer_len(flags_mode(flags));
    if payload_len > PAYLOAD_MAX_SIZE {
        Err(Error::BufferOverflow)
    } else if bytes.len() < HEADER_SIZE + payload_len + trailer_len {
        Err(Error::BufferUnderflow)
    } else {
        Ok(
            FrameView {
                bytes: initial_prefix(device_id, payload_type, payload_len, flags) + bytes.skip(
                    CRC_OFFSET as int,
                ),
                payload_len,
                trailer_len,
            },
        )
    }
}

/// The trailer content that a frame's mode calls for, computed by engines
/// `I` and `C` over `auth`: nothing for `Lite`, the little-endian CRC-32 for
/// `Verified`, the truncated CMAC for `Trusted` and the HMAC for `Critical`
/// (the last two need keys).
pub open spec fn trailer_content<I: IntegrityEngine, C: CryptographyEngine>(
    mode: Mode,
    auth: Seq<u8>,
    keys: Option<&CryptoKeys>,
) -> Result<Seq<u8>, Error> {
    match mode {
        Mode::Lite => Ok(Seq::empty()),
        Mode::Verified => Ok(le32(I::spec_crc32(auth))),
        Mode::Trusted => match keys {
            None => Err(Error::MissingKeys),
            Some(k) => C::spec_cmac(k.aes_key@, auth),
        },
        Mode::Critical => match keys {
            None => Err(Error::MissingKeys),
            Some(k) => C::spec_hmac(k.hmac_key@, auth),
        },
    }
}

/// Writing the trailer would copy content of one length into a trailer of
/// another: the frame's mode was changed after it was built.
pub open spec fn write_trailer_mismatch<I: IntegrityEngine, C: CryptographyEngine>(
    v: FrameView,
    keys: Option<&CryptoKeys>,
) -> bool {
    &&& frame_mode(v) != Mode::Lite
    &&& trailer_content::<I, C>(frame_mode(v), frame_auth_data(v), keys) is Ok
    &&& v.trailer_len != mode_trailer_len(frame_mode(v))
}

/// Outcome of writing the trailer: the state after and the result.
pub open spec fn write_trailer_outcome<I: IntegrityEngine, C: CryptographyEngine>(
    v: FrameView,
    keys: Option<&CryptoKeys>,
) -> (FrameView, Result<(), Error>) {
    if frame_mode(v) == Mode::Lite {
        (v, Ok(()))
    } else {
        match trailer_content::<I, C>(frame_mode(v), frame_auth_data(v), keys) {
            Err(e) => (v, Err(e)),
            Ok(t) => (
                FrameView { bytes: splice(v.bytes, HEADER_SIZE + v.payload_len, t), ..v },
                Ok(()),
            ),
        }
    }
}

/// A frame with the header CRC that engine `I` computes written into its
/// header.
pub open spec fn with_header_crc<I: IntegrityEngine>(v: FrameView) -> FrameView {
    FrameView {
        bytes: splice(v.bytes, CRC_OFFSET as int, le16(I::spec_crc16(v.bytes.take(CRC_OFFSET as int)))),
        ..v
    }
}

/// Total size of a frame in bytes: header, payload and trailer.
pub open spec fn frame_size(v: FrameView) -> nat {
    (HEADER_SIZE + v.payload_len + v.trailer_len) as nat
}

/// Outcome of packing a frame: header CRC first, then the trailer.
pub open spec fn pack_outcome<I: IntegrityEngine, C: CryptographyEngine>(
    v: FrameView,
    keys: Option<&CryptoKeys>,
) -> (FrameView, Result<usize, Error>) {
    let (after, res) = write_trailer_outcome::<I, C>(with_header_crc::<I>(v), keys);
    match res {
        Ok(()) => (after, Ok(frame_size(v) as usize)),
        Err(e) => (after, Err(e)),
    }
}

/// Outcome of checking a frame's trailer with engines `I` and `C`.
pub open spec fn trailer_check<I: IntegrityEngine, C: CryptographyEngine>(
    v: FrameView,
    keys: Option<&CryptoKeys>,
) -> Result<(), Error> {
    let auth = frame_auth_data(v);
    let trailer = frame_trailer(v);
    match frame_mode(v) {
        Mode::Lite => Ok(()),
        Mode::Verified => {
            if trailer.len() < 4 {
                Err(Error::ParseError)
            } else if read_le32(trailer, 0) != I::spec_crc32(auth) {
                Err(Error::IncorrectCrc)
            } else {
                Ok(())
            }
        },
        Mode::Trusted => match keys {
            None => Err(Error::MissingKeys),
            Some(k) => match C::spec_cmac(k.aes_key@, auth) {
                Err(e) => Err(e),
                Ok(tag) => if trailer != tag {
                    Err(Error::AuthFailed)
                } else {
                    Ok(())
                },
            },
        },
        Mode::Critical => match keys {
            None => Err(Error::MissingKeys),
            Some(k) => match C::spec_hmac(k.hmac_key@, auth) {
                Err(e) => Err(e),
                Ok(tag) => if trailer != tag {
                    Err(Error::AuthFailed)
                } else {
                    Ok(())
                },
            },
        },
    }
}

/// The frame that received `bytes` hold, read with its header as received:
/// the payload length comes from the header, the trailer length from the
/// mode that its flags byte names.
pub open spec fn received_frame(bytes: Seq<u8>) -> FrameView {
    let h = decode_header(bytes);
    FrameView {
        bytes,
        payload_len: h.payload_len as nat,
        trailer_len: mode_trailer_len(flags_mode(h.flags)),
    }
}

/// Outcome of parsing a frame out of `bytes`: the header must validate, its
/// flags byte must hold only defined bits, the payload must not exceed its
/// maximum size and a frame must fit the buffer with the header's payload
/// length and the mode's trailer (otherwise a parse error), and the trailer
/// must check out. The buffer, header included, is kept as received.
pub open spec fn parse_outcome<I: IntegrityEngine, C: CryptographyEngine>(
    bytes: Seq<u8>,
    keys: Option<&CryptoKeys>,
) -> Result<FrameView, Error> {
    match header_check::<I>(bytes) {
        Err(e) => Err(e),
        Ok(()) => {
            let v = received_frame(bytes);
            if decode_header(bytes).flags >= 32 {
                Err(Error::ParseError)
            } else if v.payload_len > PAYLOAD_MAX_SIZE {
                Err(Error::ParseError)
            } else if bytes.len() < HEADER_SIZE + v.payload_len + v.trailer_len {
                Err(Error::ParseError)
            } else {
                match trailer_check::<I, C>(v, keys) {
                    Err(e) => Err(e),
                    Ok(()) => Ok(v),
                }
            }
        },
    }
}

/// A frame after `set_payload_raw`: the payload section overwritten with
/// `data`, the header's payload type and payload length fields updated.
pub open spec fn set_payload_outcome(v: FrameView, data: Seq<u8>, payload_type: u8) -> FrameView {
    FrameView {
        bytes: splice(
            splice(v.bytes, HEADER_SIZE as int, data).update(7, payload_type),
            10,
            le16(data.len() as u16),
        ),
        ..v
    }
}

/// A frame whose header starts with the protocol's preamble, whose flags
/// byte holds only defined bits, whose header payload length field matches
/// its payload section, and whose trailer has the length that its mode
/// prescribes. Parsing reads the sections' lengths from the header, so only
/// such frames can be read back unchanged.
pub open spec fn frame_reparsable(v: FrameView) -> bool {
    let h = frame_header(v);
    &&& h.preamble == PREAMBLE
    &&& h.flags < 32
    &&& h.payload_len == v.payload_len
    &&& v.trailer_len == mode_trailer_len(frame_mode(v))
}

/// Packing a reparsable frame, when it succeeds and the trailer content has
/// the length of the trailer section, yields bytes that parse back into the
/// same frame.
#[verifier::rlimit(60)]
#[verifier::spinoff_prover]
proof fn lemma_packed_frame_parses<I: IntegrityEngine, C: CryptographyEngine>(
    v: FrameView,
    keys: Option<&CryptoKeys>,
)
    requires
        frame_inv(v),
        frame_reparsable(v),
        pack_outcome::<I, C>(v, keys).1 is Ok,
        frame_mode(v) != Mode::Lite ==> (trailer_content::<I, C>(
            frame_mode(v),
            frame_auth_data(with_header_crc::<I>(v)),
            keys,
        ) matches Ok(t) && t.len() == v.trailer_len),
    ensures
        parse_outcome::<I, C>(pack_outcome::<I, C>(v, keys).0.bytes, keys) == Ok::<FrameView, Error>(
            pack_outcome::<I, C>(v, keys).0,
        ),
{
    let pl = v.payload_len;
    let tl = v.trailer_len;
    let c = I::spec_crc16(v.bytes.take(CRC_OFFSET as int));
    let v1 = with_header_crc::<I>(v);
    let v2 = pack_outcome::<I, C>(v, keys).0;
    let b = v2.bytes;
    let mode = frame_mode(v);
    crate::codec::lemma_le16_roundtrip(c);
    assert(v1.bytes.len() == v.bytes.len());
    assert(forall|k: int| 0 <= k < CRC_OFFSET ==> v1.bytes[k] == v.bytes[k]);
    assert(v1.bytes[12] == le16(c)[0] && v1.bytes[13] == le16(c)[1]);
    assert(forall|k: int| HEADER_SIZE <= k < v.bytes.len() ==> v1.bytes[k] == v.bytes[k]);
    assert(frame_mode(v1) == mode);
    if mode != Mode::Lite {
        let t = trailer_content::<I, C>(mode, frame_auth_data(v1), keys)->Ok_0;
        assert(b =~= splice(v1.bytes, HEADER_SIZE + pl, t));
        assert(forall|k: int| 0 <= k < HEADER_SIZE + pl ==> b[k] == v1.bytes[k]);
        assert(frame_trailer(v2) =~= t);
    } else {
        assert(b == v1.bytes);
    }
    assert(b.len() == v.bytes.len());
    assert(forall|k: int| 0 <= k < HEADER_SIZE + pl ==> b[k] == v1.bytes[k]);
    assert(b.take(CRC_OFFSET as int) =~= v.bytes.take(CRC_OFFSET as int));
    assert(read_le32(b, 0) == read_le32(v.bytes, 0));
    assert(crate::codec::read_le16(b, 12) == c);
    assert(header_check::<I>(b) == Ok::<(), Error>(()));
    let h = decode_header(b);
    assert(h.flags == frame_flags(v));
    assert(h.payload_len == frame_header(v).payload_len);
    let v3 = received_frame(b);
    assert(v3.bytes == v2.bytes);
    assert(v3 == v2);
    assert(frame_auth_data(v2) =~= frame_auth_data(v1));
    if mode == Mode::Verified {
        let t = trailer_content::<I, C>(mode, frame_auth_data(v1), keys)->Ok_0;
        crate::codec::lemma_le32_roundtrip(I::spec_crc32(frame_auth_data(v1)));
        assert(frame_trailer(v2) == t);
    }
}

/// A frame that `Frame::new` builds with a flags byte of defined bits only is
/// reparsable.
pub proof fn lemma_new_frame_reparsable(
    bytes: Seq<u8>,
    device_id: u8,
    payload_type: u8,
    payload_len: nat,
    flags: u8,
)
    requires
        flags < 32,
        new_outcome(bytes, device_id, payload_type, payload_len, flags) is Ok,
    ensures
        frame_reparsable(new_outcome(bytes, device_id, payload_type, payload_len, flags)->Ok_0),
{
    let v = new_outcome(bytes, device_id, payload_type, payload_len, flags)->Ok_0;
    let h = Header {
        preamble: PREAMBLE,
        version: INDTP_VERSION,
        flags,
        device_id,
        payload_type,
        sequence: 0,
        payload_len: payload_len as u16,
        crc: 0,
    };
    crate::header::lemma_decode_header_bytes(h);
    let hb = crate::header::header_bytes(h);
    assert(forall|k: int| 0 <= k < CRC_OFFSET ==> v.bytes[k] == hb[k]);
    assert(decode_header(v.bytes).preamble == decode_header(hb).preamble);
    assert(decode_header(v.bytes).sequence == decode_header(hb).sequence);
    assert(decode_header(v.bytes).payload_len == decode_header(hb).payload_len);
}

/// Setting the payload keeps a frame reparsable.
pub proof fn lemma_set_payload_keeps_reparsable(v: FrameView, data: Seq<u8>, payload_type: u8)
    requires
        frame_inv(v),
        frame_reparsable(v),
        data.len() == v.payload_len,
    ensures
        frame_inv(set_payload_outcome(v, data, payload_type)),
        frame_reparsable(set_payload_outcome(v, data, payload_type)),
{
    let w = set_payload_outcome(v, data, payload_type);
    crate::codec::lemma_le16_roundtrip(data.len() as u16);
    assert(forall|k: int| 0 <= k < 7 ==> w.bytes[k] == v.bytes[k]);
    assert(w.bytes[8] == v.bytes[8] && w.bytes[9] == v.bytes[9]);
    assert(w.bytes[10] == le16(data.len() as u16)[0] && w.bytes[11] == le16(data.len() as u16)[1]);
}

/// Setting or clearing the batching, encryption or priority flag keeps a
/// frame reparsable.
pub proof fn lemma_set_flag_keeps_reparsable(v: FrameView, bit: u8, enabled: bool)
    requires
        frame_inv(v),
        frame_reparsable(v),
        crate::header::is_flag_bit(bit),
    ensures
        frame_reparsable(with_flags(v, flags_after_set(frame_flags(v), bit, enabled))),
{
    let f = frame_flags(v);
    let other = if bit == BATCH_BIT { ENCRYPT_BIT } else { BATCH_BIT };
    crate::header::lemma_set_flag_then_read(f, bit, enabled, other);
    assert((bit == 4 || bit == 8 || bit == 16) ==> set_bit(f & 0x1fu8, bit, enabled) < 32)
        by (bit_vector);
}

/// Changing the mode keeps a frame reparsable: the trailer follows the mode.
pub proof fn lemma_set_mode_keeps_reparsable(v: FrameView, mode: Mode)
    requires
        frame_inv(v),
        frame_reparsable(v),
        with_flags_resized(v, flags_after_mode(frame_flags(v), mode)) is Ok,
    ensures
        frame_reparsable(with_flags_resized(v, flags_after_mode(frame_flags(v), mode))->Ok_0),
        frame_mode(with_flags_resized(v, flags_after_mode(frame_flags(v), mode))->Ok_0) == mode,
{
    let f = frame_flags(v);
    crate::header::lemma_set_mode_then_mode(f, mode, BATCH_BIT);
    let mb = crate::flags::mode_bits(mode);
    assert(mb <= 3 ==> ((f & 0x1fu8) & !0x03u8 | mb) < 32) by (bit_vector);
}

/// A constructed frame's header carries what was asked for: preamble,
/// version, the given flags, device id and payload type, sequence number 0
/// and the given payload length, in bytes 0 to 11; the rest of the buffer is
/// kept, and the frame's sections have the given payload length and the
/// trailer length of the mode.
pub proof fn lemma_new_writes_given_fields(
    bytes: Seq<u8>,
    device_id: u8,
    payload_type: u8,
    payload_len: nat,
    flags: u8,
)
    requires
        new_outcome(bytes, device_id, payload_type, payload_len, flags) is Ok,
    ensures
        ({
            let v = new_outcome(bytes, device_id, payload_type, payload_len, flags)->Ok_0;
            &&& v.bytes.len() == bytes.len()
            &&& v.bytes[5] == flags
            &&& v.bytes[6] == device_id
            &&& v.bytes[7] == payload_type
            &&& v.bytes[8] == 0 && v.bytes[9] == 0
            &&& v.bytes[10] as int + 256 * v.bytes[11] as int == payload_len
            &&& decode_header(v.bytes).preamble == PREAMBLE
            &&& decode_header(v.bytes).version == INDTP_VERSION
            &&& decode_header(v.bytes).flags == flags
            &&& decode_header(v.bytes).device_id == device_id
            &&& decode_header(v.bytes).payload_type == payload_type
            &&& decode_header(v.bytes).sequence == 0
            &&& decode_header(v.bytes).payload_len == payload_len
            &&& v.bytes.subrange(12, bytes.len() as int) == bytes.subrange(12, bytes.len() as int)
            &&& v.payload_len == payload_len
            &&& v.trailer_len == mode_trailer_len(flags_mode(flags))
        }),
{
    let v = new_outcome(bytes, device_id, payload_type, payload_len, flags)->Ok_0;
    let h = Header {
        preamble: PREAMBLE,
        version: INDTP_VERSION,
        flags,
        device_id,
        payload_type,
        sequence: 0,
        payload_len: payload_len as u16,
        crc: 0,
    };
    crate::header::lemma_decode_header_bytes(h);
    let hb = crate::header::header_bytes(h);
    assert(forall|k: int| 0 <= k < CRC_OFFSET ==> v.bytes[k] == hb[k]);
    assert(v.bytes.subrange(12, bytes.len() as int) =~= bytes.subrange(12, bytes.len() as int));
    assert(decode_header(v.bytes).preamble == decode_header(hb).preamble);
    assert(decode_header(v.bytes).sequence == decode_header(hb).sequence);
    assert(decode_header(v.bytes).payload_len == decode_header(hb).payload_len);
    crate::codec::lemma_le16_roundtrip(payload_len as u16);
    crate::codec::lemma_le16_roundtrip(0u16);
    assert(v.bytes[10] == le16(payload_len as u16)[0] && v.bytes[11] == le16(payload_len as u16)[1]);
}

/// Setting the payload writes the given bytes into the payload section, the
/// given payload type into the header and the number of bytes into the
/// header's payload length field; every other header field, the trailer and
/// the rest of the buffer are kept.
pub proof fn lemma_set_payload_writes_given_fields(v: FrameView, data: Seq<u8>, payload_type: u8)
    requires
        frame_inv(v),
        data.len() == v.payload_len,
    ensures
        ({
            let w = set_payload_outcome(v, data, payload_type);
            let h = decode_header(v.bytes);
            let g = decode_header(w.bytes);
            &&& w.bytes.len() == v.bytes.len()
            &&& w.payload_len == v.payload_len && w.trailer_len == v.trailer_len
            &&& w.bytes[7] == payload_type
            &&& g.payload_type == payload_type
            &&& g.payload_len == data.len()
            &&& g.preamble == h.preamble && g.version == h.version && g.flags == h.flags
            &&& g.device_id == h.device_id && g.sequence == h.sequence && g.crc == h.crc
            &&& w.bytes.subrange(HEADER_SIZE as int, HEADER_SIZE + data.len()) == data
            &&& w.bytes.subrange(HEADER_SIZE + data.len(), v.bytes.len() as int) == v.bytes.subrange(
                HEADER_SIZE + data.len(),
                v.bytes.len() as int,
            )
        }),
{
    let w = set_payload_outcome(v, data, payload_type);
    crate::codec::lemma_le16_roundtrip(data.len() as u16);
    assert(forall|k: int| 0 <= k < 7 ==> w.bytes[k] == v.bytes[k]);
    assert(w.bytes[8] == v.bytes[8] && w.bytes[9] == v.bytes[9]);
    assert(w.bytes[12] == v.bytes[12] && w.bytes[13] == v.bytes[13]);
    assert(w.bytes[10] == le16(data.len() as u16)[0] && w.bytes[11] == le16(data.len() as u16)[1]);
    assert(w.bytes.subrange(HEADER_SIZE as int, HEADER_SIZE + data.len()) =~= data);
    assert(w.bytes.subrange(HEADER_SIZE + data.len(), v.bytes.len() as int) =~= v.bytes.subrange(
        HEADER_SIZE + data.len(),
        v.bytes.len() as int,
    ));
}

/// The data that a trailer protects is the whole header and the whole
/// payload: bytes 0 up to `HEADER_SIZE + payload_len`.
pub proof fn lemma_auth_data_is_header_and_payload(v: FrameView)
    requires
        frame_inv(v),
    ensures
        frame_auth_data(v).len() == HEADER_SIZE + v.payload_len,
        forall|k: int| 0 <= k < HEADER_SIZE + v.payload_len ==> #[trigger] frame_auth_data(v)[k] == v.bytes[k],
{
}

/// A frame is accepted only when its trailer matches its whole header and
/// payload (bytes 0 up to `HEADER_SIZE + payload_len`, with the payload
/// length read from the header): in `Verified` mode the four trailer bytes
/// hold, little-endian, the CRC-32 of those bytes; in `Trusted` and
/// `Critical` mode keys were given and the trailer is the engine's CMAC or
/// HMAC tag of those bytes.
pub proof fn lemma_parse_checks_whole_frame<I: IntegrityEngine, C: CryptographyEngine>(
    bytes: Seq<u8>,
    keys: Option<&CryptoKeys>,
)
    requires
        parse_outcome::<I, C>(bytes, keys) is Ok,
    ensures
        ({
            let v = parse_outcome::<I, C>(bytes, keys)->Ok_0;
            let end = HEADER_SIZE + decode_header(bytes).payload_len;
            let covered = bytes.subrange(0, end as int);
            &&& v.bytes == bytes
            &&& v.payload_len == decode_header(bytes).payload_len
            &&& end + v.trailer_len <= bytes.len()
            &&& frame_mode(v) == Mode::Verified ==> I::spec_crc32(covered) as int == bytes[end] as int
                + 256 * bytes[end + 1] as int + 65536 * bytes[end + 2] as int + 16777216 * bytes[end
                + 3] as int
            &&& frame_mode(v) == Mode::Trusted ==> keys is Some && C::spec_cmac(
                keys->Some_0.aes_key@,
                covered,
            ) == Ok::<Seq<u8>, Error>(bytes.subrange(end as int, end + 8))
            &&& frame_mode(v) == Mode::Critical ==> keys is Some && C::spec_hmac(
                keys->Some_0.hmac_key@,
                covered,
            ) == Ok::<Seq<u8>, Error>(bytes.subrange(end as int, end + 32))
        }),
{
    let v = parse_outcome::<I, C>(bytes, keys)->Ok_0;
    let end = HEADER_SIZE + decode_header(bytes).payload_len;
    assert(frame_auth_data(v) =~= bytes.subrange(0, end as int));
    assert(frame_trailer(v) =~= bytes.subrange(end as int, end + v.trailer_len));
    if frame_mode(v) == Mode::Verified {
        assert(frame_trailer(v)[0] == bytes[end]);
        assert(frame_trailer(v)[1] == bytes[end + 1]);
        assert(frame_trailer(v)[2] == bytes[end + 2]);
        assert(frame_trailer(v)[3] == bytes[end + 3]);
    }
}

/// Packing writes, in the trailer section, the trailer that the mode calls
/// for over the whole header (with its CRC) and payload as they stand after
/// packing: bytes 0 up to `HEADER_SIZE + payload_len` of the packed frame.
pub proof fn lemma_pack_covers_whole_frame<I: IntegrityEngine, C: CryptographyEngine>(
    v: FrameView,
    keys: Option<&CryptoKeys>,
)
    requires
        frame_inv(v),
        pack_outcome::<I, C>(v, keys).1 is Ok,
        frame_mode(v) != Mode::Lite ==> (trailer_content::<I, C>(
            frame_mode(v),
            frame_auth_data(with_header_crc::<I>(v)),
            keys,
        ) matches Ok(t) && t.len() == v.trailer_len),
    ensures
        ({
            let w = pack_outcome::<I, C>(v, keys).0;
            let end = HEADER_SIZE + v.payload_len;
            &&& w.bytes.len() == v.bytes.len()
            &&& frame_mode(v) != Mode::Lite ==> trailer_content::<I, C>(
                frame_mode(v),
                w.bytes.subrange(0, end as int),
                keys,
            ) == Ok::<Seq<u8>, Error>(w.bytes.subrange(end as int, end + v.trailer_len))
        }),
{
    let v1 = with_header_crc::<I>(v);
    let w = pack_outcome::<I, C>(v, keys).0;
    let end = HEADER_SIZE + v.payload_len;
    let c = I::spec_crc16(v.bytes.take(CRC_OFFSET as int));
    assert(v1.bytes.len() == v.bytes.len());
    assert(frame_flags(v1) == frame_flags(v));
    if frame_mode(v) != Mode::Lite {
        let t = trailer_content::<I, C>(frame_mode(v), frame_auth_data(v1), keys)->Ok_0;
        assert(w.bytes =~= splice(v1.bytes, end, t));
        assert(w.bytes.subrange(0, end as int) =~= frame_auth_data(v1));
        assert(w.bytes.subrange(end as int, end + v.trailer_len) =~= t);
    }
}

/// Whether two byte slices hold the same bytes.
fn bytes_equal(a: &[u8], b: &[u8]) -> (eq: bool)
    ensures
        eq == (a@ == b@),
{
    if a.len() != b.len() {
        return false;
    }
    let mut i: usize = 0;
    while i < a.len()
        invariant
            a@.len() == b@.len(),
            i <= a@.len(),
            forall|k: int| 0 <= k < i ==> a@[k] == b@[k],
        decreases a@.len() - i,
    {
        if a[i] != b[i] {
            return false;
        }
        i = i + 1;
    }
    assert(a@ =~= b@);
    true
}

/// Frame: the data exchange unit of INDTP. Every frame consists of three
/// sections: a fixed-size header, a variable-size payload, and a
/// mode-dependent trailer. The frame owns the buffer that holds them.
#[derive(Debug)]
pub struct Frame {
    /// Frame buffer.
    buffer: Vec<u8>,
    /// Payload length in bytes.
    payload_len: usize,
    /// Frame trailer length in bytes.
    trailer_len: usize,
}

impl View for Frame {
    type V = FrameView;

    closed spec fn view(&self) -> FrameView {
        FrameView {
            bytes: self.buffer@,
            payload_len: self.payload_len as nat,
            trailer_len: self.trailer_len as nat,
        }
    }
}

impl Frame {
    /// The frame's sections fit its buffer.
    pub open spec fn inv(&self) -> bool {
        frame_inv(self@)
    }

    /// Construct new INDTP frame over `buffer` and write the first twelve
    /// bytes of its header. On success the frame takes the buffer's bytes
    /// (`into_bytes` gives them back) and leaves `buffer` empty; on error
    /// `buffer` is left as it was.
    pub fn new(
        buffer: &mut Vec<u8>,
        device_id: u8,
        payload_type: u8,
        payload_len: usize,
        flags: Flags,
    ) -> (frame: Result<Frame, Error>)
        ensures
            match new_outcome(old(buffer)@, device_id, payload_type, payload_len as nat, flags@) {
                Ok(v) => frame matches Ok(f) && f@ == v && f.inv() && final(buffer)@ == Seq::<u8>::empty(),
                Err(e) => frame == Err::<Frame, Error>(e) && final(buffer)@ == old(buffer)@,
            },
    {
        if payload_len > PAYLOAD_MAX_SIZE {
            return Err(Error::BufferOverflow);
        }
        proof {
            crate::flags::lemma_mode_bits_total(flags@);
        }
        let mode = match Mode::try_from(flags) {
            Ok(mode) => mode,
            Err(_) => {
                return Err(Error::ParseError);
            },
        };
        let trailer_len = Self::trailer_len_from_mode(mode);
        let total_len = HEADER_SIZE + payload_len + trailer_len;
        if buffer.len() < total_len {
            return Err(Error::BufferUnderflow);
        }
        let header = Header {
            preamble: PREAMBLE,
            version: INDTP_VERSION,
            flags: flags.bits(),
            device_id,
            payload_type,
            sequence: 0,
            payload_len: payload_len as u16,
            crc: 0,
        };
        let bytes = header.to_bytes();
        let prefix = vstd::slice::slice_subrange(&bytes, 0, CRC_OFFSET);
        let mut owned: Vec<u8> = Vec::new();
        core::mem::swap(&mut owned, buffer);
        let ghost old_bytes = owned@;
        copy_into(owned.as_mut_slice(), 0, prefix);
        proof {
            assert(prefix@ =~= initial_prefix(device_id, payload_type, payload_len as nat, flags@));
            assert(owned@ =~= initial_prefix(device_id, payload_type, payload_len as nat, flags@)
                + old_bytes.skip(CRC_OFFSET as int));
        }
        Ok(Frame { buffer: owned, payload_len, trailer_len })
    }

    /// Construct new INDTP frame in `Lite` operating mode.
    pub fn new_lite(buffer: &mut Vec<u8>, device_id: u8, payload_type: u8, payload_len: usize) -> (frame:
        Result<Frame, Error>)
        ensures
            match new_outcome(old(buffer)@, device_id, payload_type, payload_len as nat, 0) {
                Ok(v) => frame matches Ok(f) && f@ == v && f.inv() && final(buffer)@ == Seq::<u8>::empty(),
                Err(e) => frame == Err::<Frame, Error>(e) && final(buffer)@ == old(buffer)@,
            },
    {
        let flags = Flags::new().with_mode(Mode::Lite).build();
        proof {
            assert((0u8 & !0x03u8) | 0u8 == 0u8) by (bit_vector);
        }
        Self::new(buffer, device_id, payload_type, payload_len, flags)
    }

    /// Construct new INDTP frame in `Verified` operating mode.
    pub fn new_verified(buffer: &mut Vec<u8>, device_id: u8, payload_type: u8, payload_len: usize) -> (frame:
        Result<Frame, Error>)
        ensures
            match new_outcome(old(buffer)@, device_id, payload_type, payload_len as nat, 1) {
                Ok(v) => frame matches Ok(f) && f@ == v && f.inv() && final(buffer)@ == Seq::<u8>::empty(),
                Err(e) => frame == Err::<Frame, Error>(e) && final(buffer)@ == old(buffer)@,
            },
    {
        let flags = Flags::new().with_mode(Mode::Verified).build();
        proof {
            assert((0u8 & !0x03u8) | 1u8 == 1u8) by (bit_vector);
        }
        Self::new(buffer, device_id, payload_type, payload_len, flags)
    }

    /// Construct new INDTP frame in `Trusted` operating mode.
    pub fn new_trusted(buffer: &mut Vec<u8>, device_id: u8, payload_type: u8, payload_len: usize) -> (frame:
        Result<Frame, Error>)
        ensures
            match new_outcome(old(buffer)@, device_id, payload_type, payload_len as nat, 2) {
                Ok(v) => frame matches Ok(f) && f@ == v && f.inv() && final(buffer)@ == Seq::<u8>::empty(),
                Err(e) => frame == Err::<Frame, Error>(e) && final(buffer)@ == old(buffer)@,
            },
    {
        let flags = Flags::new().with_mode(Mode::Trusted).build();
        proof {
            assert((0u8 & !0x03u8) | 2u8 == 2u8) by (bit_vector);
        }
        Self::new(buffer, device_id, payload_type, payload_len, flags)
    }

    /// Construct new INDTP frame in `Critical` operating mode.
    pub fn new_critical(buffer: &mut Vec<u8>, device_id: u8, payload_type: u8, payload_len: usize) -> (frame:
        Result<Frame, Error>)
        ensures
            match new_outcome(old(buffer)@, device_id, payload_type, payload_len as nat, 3) {
                Ok(v) => frame matches Ok(f) && f@ == v && f.inv() && final(buffer)@ == Seq::<u8>::empty(),
                Err(e) => frame == Err::<Frame, Error>(e) && final(buffer)@ == old(buffer)@,
            },
    {
        let flags = Flags::new().with_mode(Mode::Critical).build();
        proof {
            assert((0u8 & !0x03u8) | 3u8 == 3u8) by (bit_vector);
        }
        Self::new(buffer, device_id, payload_type, payload_len, flags)
    }

    /// Get the frame header.
    pub fn header(&self) -> (h: Header)
        requires
            self.inv(),
        ensures
            h == frame_header(self@),
    {
        Header {
            preamble: u32_from_le(self.buffer[0], self.buffer[1], self.buffer[2], self.buffer[3]),
            version: self.buffer[4],
            flags: self.buffer[5],
            device_id: self.buffer[6],
            payload_type: self.buffer[7],
            sequence: crate::codec::u16_from_le(self.buffer[8], self.buffer[9]),
            payload_len: crate::codec::u16_from_le(self.buffer[10], self.buffer[11]),
            crc: crate::codec::u16_from_le(self.buffer[12], self.buffer[13]),
        }
    }

    /// Overwrite the frame header with `header`, field by field. The payload
    /// and trailer sections keep their place and length.
    pub fn set_header(&mut self, header: Header)
        requires
            old(self).inv(),
        ensures
            final(self).inv(),
            final(self)@ == (FrameView {
                bytes: splice(old(self)@.bytes, 0, header_bytes(header)),
                ..old(self)@
            }),
            frame_header(final(self)@) == header,
    {
        let bytes = header.to_bytes();
        copy_into(self.buffer.as_mut_slice(), 0, &bytes);
        proof {
            lemma_decode_header_bytes(header);
            let ghost b = self.buffer@;
            assert(b.take(HEADER_SIZE as int) =~= header_bytes(header));
            assert(forall|i: int| 0 <= i < HEADER_SIZE ==> b[i] == header_bytes(header)[i]);
        }
    }

    /// Writes the flags byte of the header.
    fn write_flags_byte(&mut self, flags: u8)
        requires
            old(self).inv(),
        ensures
            final(self)@ == with_flags(old(self)@, flags),
            final(self).inv(),
    {
        self.buffer[5] = flags;
    }

    /// Get protocol flags (undefined bits dropped).
    pub fn flags(&self) -> (flags: Flags)
        requires
            self.inv(),
        ensures
            flags@ == frame_flags(self@) & ALL_BITS,
    {
        Flags::from_bits_truncate(self.buffer[5])
    }

    /// Set protocol flags. The trailer takes the length that the mode of the
    /// new flags prescribes; where the buffer cannot hold header, payload and
    /// that trailer, nothing changes and the result is `BufferUnderflow`.
    pub fn set_flags(&mut self, flags: Flags) -> (res: Result<(), Error>)
        requires
            old(self).inv(),
        ensures
            final(self).inv(),
            match with_flags_resized(old(self)@, flags@) {
                Ok(v) => res is Ok && final(self)@ == v,
                Err(e) => res == Err::<(), Error>(e) && final(self)@ == old(self)@,
            },
    {
        proof {
            crate::flags::lemma_mode_bits_total(flags@);
        }
        let mode = match Mode::try_from(flags) {
            Ok(mode) => mode,
            Err(_) => {
                return Err(Error::ParseError);
            },
        };
        let trailer_len = Self::trailer_len_from_mode(mode);
        if self.buffer.len() < HEADER_SIZE + self.payload_len + trailer_len {
            return Err(Error::BufferUnderflow);
        }
        self.write_flags_byte(flags.bits());
        self.trailer_len = trailer_len;
        Ok(())
    }

    /// Set protocol operating mode, keeping the other flags. The trailer
    /// takes the length that the mode prescribes; where the buffer cannot
    /// hold header, payload and that trailer, nothing changes and the result
    /// is `BufferUnderflow`.
    pub fn set_mode(&mut self, mode: Mode) -> (res: Result<(), Error>)
        requires
            old(self).inv(),
        ensures
            final(self).inv(),
            match with_flags_resized(
                old(self)@,
                flags_after_mode(frame_flags(old(self)@), mode),
            ) {
                Ok(v) => res is Ok && final(self)@ == v,
                Err(e) => res == Err::<(), Error>(e) && final(self)@ == old(self)@,
            },
            res is Err <==> old(self)@.bytes.len() < HEADER_SIZE + old(self)@.payload_len
                + mode_trailer_len(mode),
            res is Ok ==> frame_mode(final(self)@) == mode && final(self)@.trailer_len
                == mode_trailer_len(mode),
            res is Ok ==> forall|bit: u8|
                #![trigger flag_set(frame_flags(final(self)@), bit)]
                crate::header::is_flag_bit(bit) ==> flag_set(frame_flags(final(self)@), bit)
                    == flag_set(frame_flags(old(self)@), bit),
    {
        let flags = self.flags().with_mode(mode);
        proof {
            let f = frame_flags(self@);
            crate::header::lemma_set_mode_then_mode(f, mode, BATCH_BIT);
            assert forall|bit: u8| crate::header::is_flag_bit(bit) implies flag_set(
                flags_after_mode(f, mode),
                bit,
            ) == flag_set(f, bit) by {
                crate::header::lemma_set_mode_then_mode(f, mode, bit);
            }
        }
        self.set_flags(flags)
    }

    /// Get protocol operating mode. The two mode bits always name a mode, so
    /// this never fails.
    pub fn mode(&self) -> (mode: Result<Mode, Error>)
        requires
            self.inv(),
        ensures
            mode == Ok::<Mode, Error>(frame_mode(self@)),
    {
        self.header().mode()
    }

    /// Check whether data aggregation is enabled for the payload.
    pub fn is_batch(&self) -> (yes: bool)
        requires
            self.inv(),
        ensures
            yes == flag_set(frame_flags(self@), BATCH_BIT),
    {
        self.header().is_batch()
    }

    /// Enable or disable data aggregation for the payload.
    pub fn set_batch(&mut self, enabled: bool)
        requires
            old(self).inv(),
        ensures
            final(self)@ == with_flags(
                old(self)@,
                flags_after_set(frame_flags(old(self)@), BATCH_BIT, enabled),
            ),
            final(self).inv(),
    {
        let flags = self.flags().with_batch(enabled);
        self.write_flags_byte(flags.bits());
    }

    /// Check whether the payload is encrypted.
    pub fn is_encrypted(&self) -> (yes: bool)
        requires
            self.inv(),
        ensures
            yes == flag_set(frame_flags(self@), ENCRYPT_BIT),
    {
        self.header().is_encrypted()
    }

    /// Set or unset the payload encryption flag.
    pub fn set_encrypted(&mut self, enabled: bool)
        requires
            old(self).inv(),
        ensures
            final(self)@ == with_flags(
                old(self)@,
                flags_after_set(frame_flags(old(self)@), ENCRYPT_BIT, enabled),
            ),
            final(self).inv(),
    {
        let flags = self.flags().with_encryption(enabled);
        self.write_flags_byte(flags.bits());
    }

    /// Check whether frame handling has high priority.
    pub fn is_high_priority(&self) -> (yes: bool)
        requires
            self.inv(),
        ensures
            yes == flag_set(frame_flags(self@), PRIORITY_BIT),
    {
        self.header().is_high_priority()
    }

    /// Set frame handling priority.
    pub fn set_priority(&mut self, high: bool)
        requires
            old(self).inv(),
        ensures
            final(self)@ == with_flags(
                old(self)@,
                flags_after_set(frame_flags(old(self)@), PRIORITY_BIT, high),
            ),
            final(self).inv(),
    {
        let flags = self.flags().with_priority(high);
        self.write_flags_byte(flags.bits());
    }

    /// Get the payload section. Never fails.
    pub fn payload(&self) -> (payload: Result<&[u8], Error>)
        requires
            self.inv(),
        ensures
            payload matches Ok(p) && p@ == frame_payload(self@),
    {
        Ok(vstd::slice::slice_subrange(self.buffer.as_slice(), HEADER_SIZE, HEADER_SIZE + self.payload_len))
    }

    /// Get the trailer section. Never fails.
    pub fn trailer(&self) -> (trailer: Result<&[u8], Error>)
        requires
            self.inv(),
        ensures
            trailer matches Ok(t) && t@ == frame_trailer(self@),
    {
        Ok(
            vstd::slice::slice_subrange(
                self.buffer.as_slice(),
                HEADER_SIZE + self.payload_len,
                HEADER_SIZE + self.payload_len + self.trailer_len,
            ),
        )
    }

    /// Get the part of the frame holding the header and payload. Never fails.
    pub fn authenticated_data(&self) -> (data: Result<&[u8], Error>)
        requires
            self.inv(),
        ensures
            data matches Ok(d) && d@ == frame_auth_data(self@),
    {
        Ok(vstd::slice::slice_subrange(self.buffer.as_slice(), 0, HEADER_SIZE + self.payload_len))
    }

    /// Get the payload section for writing. Never fails.
    pub fn payload_mut(&mut self) -> (payload: Result<&mut [u8], Error>)
        requires
            old(self).inv(),
        ensures
            payload is Ok,
            (payload->Ok_0)@ == frame_payload(old(self)@),
            final(self)@.bytes == old(self)@.bytes.take(HEADER_SIZE as int) + final(payload->Ok_0)@
                + old(self)@.bytes.skip(HEADER_SIZE + old(self)@.payload_len),
            final(self)@.payload_len == old(self)@.payload_len,
            final(self)@.trailer_len == old(self)@.trailer_len,
    {
        let payload_len = self.payload_len;
        let whole = self.buffer.as_mut_slice();
        let (head, rest) = whole.split_at_mut(HEADER_SIZE);
        let (payload, tail) = rest.split_at_mut(payload_len);
        proof {
            assert(has_resolved(head));
            assert(has_resolved(tail));
            assert(final(head)@ == head@);
            assert(final(tail)@ == tail@);
        }
        Ok(payload)
    }

    /// Get the trailer section for writing. Never fails.
    pub fn trailer_mut(&mut self) -> (trailer: Result<&mut [u8], Error>)
        requires
            old(self).inv(),
        ensures
            trailer is Ok,
            (trailer->Ok_0)@ == frame_trailer(old(self)@),
            final(self)@.bytes == old(self)@.bytes.take(HEADER_SIZE + old(self)@.payload_len)
                + final(trailer->Ok_0)@ + old(self)@.bytes.skip(
                HEADER_SIZE + old(self)@.payload_len + old(self)@.trailer_len,
            ),
            final(self)@.payload_len == old(self)@.payload_len,
            final(self)@.trailer_len == old(self)@.trailer_len,
    {
        let begin = HEADER_SIZE + self.payload_len;
        let trailer_len = self.trailer_len;
        let whole = self.buffer.as_mut_slice();
        let (head, rest) = whole.split_at_mut(begin);
        let (trailer, tail) = rest.split_at_mut(trailer_len);
        proof {
            assert(has_resolved(head));
            assert(has_resolved(tail));
            assert(final(head)@ == head@);
            assert(final(tail)@ == tail@);
        }
        Ok(trailer)
    }

    /// Get frame payload length in bytes.
    pub fn payload_len(&self) -> (len: usize)
        ensures
            len == self@.payload_len,
    {
        self.payload_len
    }

    /// Get frame trailer length in bytes.
    pub fn trailer_len(&self) -> (len: usize)
        ensures
            len == self@.trailer_len,
    {
        self.trailer_len
    }

    /// Get total size of the frame in bytes: header, payload and trailer.
    pub fn size(&self) -> (size: usize)
        requires
            self.inv(),
        ensures
            size == frame_size(self@),
    {
        HEADER_SIZE + self.payload_len + self.trailer_len
    }

    /// The whole frame buffer.
    pub fn as_bytes(&self) -> (bytes: &[u8])
        ensures
            bytes@ == self@.bytes,
    {
        self.buffer.as_slice()
    }

    /// Gives the frame buffer back.
    pub fn into_bytes(self) -> (bytes: Vec<u8>)
        ensures
            bytes@ == self@.bytes,
    {
        self.buffer
    }

    /// Set the frame payload from raw bytes, and the header's payload type
    /// and length fields. The bytes must fill the payload section exactly,
    /// unless there are more than `PAYLOAD_MAX_SIZE` of them, in which case
    /// nothing changes and the result is `BufferOverflow`.
    pub fn set_payload_raw(&mut self, bytes: &[u8], payload_type: u8) -> (res: Result<(), Error>)
        requires
            old(self).inv(),
            bytes@.len() > PAYLOAD_MAX_SIZE || bytes@.len() == old(self)@.payload_len,
        ensures
            final(self).inv(),
            bytes@.len() > PAYLOAD_MAX_SIZE ==> res == Err::<(), Error>(Error::BufferOverflow)
                && final(self)@ == old(self)@,
            bytes@.len() <= PAYLOAD_MAX_SIZE ==> res is Ok && final(self)@ == set_payload_outcome(
                old(self)@,
                bytes@,
                payload_type,
            ),
    {
        let payload_len = bytes.len();
        if payload_len > PAYLOAD_MAX_SIZE {
            return Err(Error::BufferOverflow);
        }
        copy_into(self.buffer.as_mut_slice(), HEADER_SIZE, bytes);
        self.buffer[7] = payload_type;
        let len_bytes = u16_to_le(payload_len as u16);
        self.buffer[10] = len_bytes[0];
        self.buffer[11] = len_bytes[1];
        self.payload_len = payload_len;
        proof {
            let ghost v = old(self)@;
            assert(self.buffer@ =~= set_payload_outcome(v, bytes@, payload_type).bytes);
        }
        Ok(())
    }

    /// Writes `data` over the trailer section.
    fn write_trailer_bytes(&mut self, data: &[u8])
        requires
            old(self).inv(),
            data@.len() == old(self)@.trailer_len,
        ensures
            final(self).inv(),
            final(self)@ == (FrameView {
                bytes: splice(old(self)@.bytes, HEADER_SIZE + old(self)@.payload_len, data@),
                ..old(self)@
            }),
    {
        let at = HEADER_SIZE + self.payload_len;
        copy_into(self.buffer.as_mut_slice(), at, data);
    }

    /// Write the frame trailer that the mode calls for.
    fn write_trailer<I: IntegrityEngine, C: CryptographyEngine>(
        &mut self,
        keys: Option<&CryptoKeys>,
    ) -> (res: Result<(), Error>)
        requires
            old(self).inv(),
            !write_trailer_mismatch::<I, C>(old(self)@, keys),
        ensures
            final(self).inv(),
            (final(self)@, res) == write_trailer_outcome::<I, C>(old(self)@, keys),
            res is Ok && frame_mode(old(self)@) != Mode::Lite ==> (trailer_content::<I, C>(
                frame_mode(old(self)@),
                frame_auth_data(old(self)@),
                keys,
            ) matches Ok(t) && t.len() == old(self)@.trailer_len),
    {
        let mode = self.mode()?;
        let auth_data = self.authenticated_data()?;
        match mode {
            Mode::Lite => {},
            Mode::Verified => {
                let crc32 = I::compute_crc32(auth_data);
                let bytes = u32_to_le(crc32);
                self.write_trailer_bytes(&bytes);
            },
            Mode::Trusted => {
                let k = match keys {
                    Some(k) => k,
                    None => {
                        return Err(Error::MissingKeys);
                    },
                };
                let mut mac = [0u8; 8];
                C::compute_cmac(&k.aes_key, auth_data, &mut mac)?;
                self.write_trailer_bytes(&mac);
            },
            Mode::Critical => {
                let k = match keys {
                    Some(k) => k,
                    None => {
                        return Err(Error::MissingKeys);
                    },
                };
                let mut mac = [0u8; 32];
                C::compute_hmac(&k.hmac_key, auth_data, &mut mac)?;
                self.write_trailer_bytes(&mac);
            },
        }
        Ok(())
    }

    /// Validate the frame trailer against the header and payload.
    fn validate_trailer<I: IntegrityEngine, C: CryptographyEngine>(
        &self,
        keys: Option<&CryptoKeys>,
    ) -> (res: Result<(), Error>)
        requires
            self.inv(),
        ensures
            res == trailer_check::<I, C>(self@, keys),
    {
        let auth_data = self.authenticated_data()?;
        let trailer_bytes = self.trailer()?;
        let mode = self.mode()?;
        match mode {
            Mode::Lite => {},
            Mode::Verified => {
                if trailer_bytes.len() < 4 {
                    return Err(Error::ParseError);
                }
                let received_crc = u32_from_le(
                    trailer_bytes[0],
                    trailer_bytes[1],
                    trailer_bytes[2],
                    trailer_bytes[3],
                );
                let computed_crc = I::compute_crc32(auth_data);
                if received_crc != computed_crc {
                    return Err(Error::IncorrectCrc);
                }
            },
            Mode::Trusted => {
                let k = match keys {
                    Some(k) => k,
                    None => {
                        return Err(Error::MissingKeys);
                    },
                };
                let mut computed_mac = [0u8; 8];
                C::compute_cmac(&k.aes_key, auth_data, &mut computed_mac)?;
                if !bytes_equal(trailer_bytes, &computed_mac) {
                    return Err(Error::AuthFailed);
                }
            },
            Mode::Critical => {
                let k = match keys {
                    Some(k) => k,
                    None => {
                        return Err(Error::MissingKeys);
                    },
                };
                let mut computed_mac = [0u8; 32];
                C::compute_hmac(&k.hmac_key, auth_data, &mut computed_mac)?;
                if !bytes_equal(trailer_bytes, &computed_mac) {
                    return Err(Error::AuthFailed);
                }
            },
        }
        Ok(())
    }

    /// Parse a frame out of `buffer` and validate it: header preamble and
    /// CRC, flags, sizes, and the trailer that the mode calls for. The frame
    /// keeps the bytes as received, header included. On success the frame
    /// takes the buffer's bytes and leaves `buffer` empty; on error `buffer`
    /// is left as it was.
    pub fn parse<I: IntegrityEngine, C: CryptographyEngine>(
        buffer: &mut Vec<u8>,
        keys: Option<&CryptoKeys>,
    ) -> (frame: Result<Frame, Error>)
        ensures
            match parse_outcome::<I, C>(old(buffer)@, keys) {
                Ok(v) => frame matches Ok(f) && f@ == v && f.inv() && final(buffer)@ == Seq::<u8>::empty(),
                Err(e) => frame == Err::<Frame, Error>(e) && final(buffer)@ == old(buffer)@,
            },
    {
        match Header::validate::<I>(buffer.as_slice()) {
            Ok(_) => {
                let header = match Header::from_bytes(buffer.as_slice()) {
                    Ok(h) => h,
                    Err(_) => {
                        return Err(Error::ParseError);
                    },
                };
                let flags = match Flags::from_bits(header.flags) {
                    Some(f) => f,
                    None => {
                        return Err(Error::ParseError);
                    },
                };
                proof {
                    crate::flags::lemma_mode_bits_total(flags@);
                }
                let mode = match Mode::try_from(flags) {
                    Ok(mode) => mode,
                    Err(_) => {
                        return Err(Error::ParseError);
                    },
                };
                let payload_len = header.payload_len as usize;
                if payload_len > PAYLOAD_MAX_SIZE {
                    return Err(Error::ParseError);
                }
                let trailer_len = Self::trailer_len_from_mode(mode);
                if buffer.len() < HEADER_SIZE + payload_len + trailer_len {
                    return Err(Error::ParseError);
                }
                let mut owned: Vec<u8> = Vec::new();
                core::mem::swap(&mut owned, buffer);
                let frame = Frame { buffer: owned, payload_len, trailer_len };
                match frame.validate_trailer::<I, C>(keys) {
                    Ok(()) => Ok(frame),
                    Err(e) => {
                        *buffer = frame.into_bytes();
                        Err(e)
                    },
                }
            },
            Err(e) => Err(e),
        }
    }

    /// Pack the frame: write the header CRC computed by engine `I`, then the
    /// trailer that the mode calls for. Returns the total size of the frame.
    pub fn pack<I: IntegrityEngine, C: CryptographyEngine>(
        &mut self,
        keys: Option<&CryptoKeys>,
    ) -> (res: Result<usize, Error>)
        requires
            old(self).inv(),
            !write_trailer_mismatch::<I, C>(with_header_crc::<I>(old(self)@), keys),
        ensures
            final(self).inv(),
            (final(self)@, res) == pack_outcome::<I, C>(old(self)@, keys),
            res is Ok && frame_mode(old(self)@) != Mode::Lite ==> (trailer_content::<I, C>(
                frame_mode(old(self)@),
                frame_auth_data(with_header_crc::<I>(old(self)@)),
                keys,
            ) matches Ok(t) && t.len() == old(self)@.trailer_len),
            res is Ok && frame_reparsable(old(self)@) ==> parse_outcome::<I, C>(
                final(self)@.bytes,
                keys,
            ) == Ok::<FrameView, Error>(final(self)@),
    {
        let header = self.header();
        proof {
            crate::header::lemma_header_bytes_decode(self@.bytes.take(HEADER_SIZE as int));
            crate::header::lemma_decode_header_bytes(header);
            assert(decode_header(self@.bytes.take(HEADER_SIZE as int)) == header);
            assert(header_prefix(header) =~= self@.bytes.take(CRC_OFFSET as int));
        }
        let crc = header.compute_crc::<I>()?;
        let crc_bytes = u16_to_le(crc);
        copy_into(self.buffer.as_mut_slice(), CRC_OFFSET, &crc_bytes);
        let ghost crc_state = self@;
        self.write_trailer::<I, C>(keys)?;
        proof {
            if frame_reparsable(old(self)@) {
                assert(crc_state == with_header_crc::<I>(old(self)@));
                lemma_packed_frame_parses::<I, C>(old(self)@, keys);
            }
        }
        Ok(self.size())
    }

    /// Get trailer length in bytes from the operating mode.
    pub fn trailer_len_from_mode(mode: Mode) -> (len: usize)
        ensures
            len == mode_trailer_len(mode),
    {
        match mode {
            Mode::Lite => 0,
            Mode::Verified => 4,
            Mode::Trusted => 8,
            Mode::Critical => 32,
        }
    }
}

} // verus!
