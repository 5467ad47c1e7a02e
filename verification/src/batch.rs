//! Batching: several timestamped samples in one payload.
//!
//! A batched payload starts with the number `N` of samples, followed by `N`
//! records: the first carries an absolute 32-bit timestamp, each later one a
//! 16-bit delta to the previous timestamp, and every timestamp is followed by
//! the sample's data.

use vstd::prelude::*;

use crate::codec::{le16, le32, read_le16, read_le32, u16_from_le, u16_to_le, u32_from_le, u32_to_le};
use crate::frame::{frame_inv, frame_payload, Frame, FrameView};
use crate::header::{copy_into, HEADER_SIZE};
use crate::types::Error;

verus! {

/// 16-bit delta from `prev` to `t` as the batch records it: the wrapping
/// difference, truncated to 16 bits.
pub open spec fn ts_delta(prev: u32, t: u32) -> u16 {
    ((t - prev) % 65536) as u16
}

/// Bytes that record sample `x` after the samples `s`: an absolute
/// timestamp for the first sample, a delta to the previous one otherwise,
/// then the sample's data.
pub open spec fn sample_record(s: Seq<(u32, Seq<u8>)>, x: (u32, Seq<u8>)) -> Seq<u8> {
    if s.len() == 0 {
        le32(x.0) + x.1
    } else {
        le16(ts_delta(s.last().0, x.0)) + x.1
    }
}

/// Records of a sequence of samples, in order (without the leading count).
pub open spec fn batch_encoding(s: Seq<(u32, Seq<u8>)>) -> Seq<u8>
    decreases s.len(),
{
    if s.len() == 0 {
        Seq::empty()
    } else {
        batch_encoding(s.drop_last()) + sample_record(s.drop_last(), s.last())
    }
}

/// Appending a sample appends its record.
pub proof fn lemma_encoding_push(s: Seq<(u32, Seq<u8>)>, x: (u32, Seq<u8>))
    ensures
        batch_encoding(s.push(x)) == batch_encoding(s) + sample_record(s, x),
{
    assert(s.push(x).drop_last() =~= s);
}

/// Layout of a sample's record: the first sample starts with its absolute
/// timestamp in four little-endian bytes, a later one with the 16-bit
/// forward difference (modulo 2^16) to the previous timestamp in two
/// little-endian bytes; the sample's data follows.
pub proof fn lemma_sample_record_layout(s: Seq<(u32, Seq<u8>)>, x: (u32, Seq<u8>))
    ensures
        ({
            let r = sample_record(s, x);
            &&& s.len() == 0 ==> r.len() == 4 + x.1.len() && r[0] as int + 256 * r[1] as int + 65536
                * r[2] as int + 16777216 * r[3] as int == x.0 && r.subrange(4, r.len() as int)
                == x.1
            &&& s.len() > 0 ==> r.len() == 2 + x.1.len() && r[0] as int + 256 * r[1] as int == (x.0
                - s.last().0) % 65536 && r.subrange(2, r.len() as int) == x.1
        }),
{
    let r = sample_record(s, x);
    if s.len() == 0 {
        crate::codec::lemma_little_endian_order(0, x.0, 0, 0, 0, 0);
        assert(r.subrange(4, r.len() as int) =~= x.1);
    } else {
        let d = ts_delta(s.last().0, x.0);
        crate::codec::lemma_little_endian_order(d, 0, 0, 0, 0, 0);
        assert(r.subrange(2, r.len() as int) =~= x.1);
    }
}

/// Abstract state of a batch being written.
pub struct BatchView {
    /// The frame whose payload receives the records.
    pub frame: FrameView,
    /// Samples pushed so far, in order.
    pub samples: Seq<(u32, Seq<u8>)>,
    /// Bytes of records written so far (after the count byte).
    pub offset: nat,
}

/// Active batch record context: writes samples into a frame's payload. The
/// count of samples is written into the first payload byte by `finish`.
pub struct Batch {
    /// INDTP frame whose payload is written.
    frame: Frame,
    /// Total number of samples.
    sample_count: u8,
    /// Bytes of records written so far.
    offset: usize,
    /// Previous timestamp.
    prev_timestamp: u32,
    /// Samples pushed so far.
    samples: Ghost<Seq<(u32, Seq<u8>)>>,
}

impl View for Batch {
    type V = BatchView;

    closed spec fn view(&self) -> BatchView {
        BatchView { frame: self.frame@, samples: self.samples@, offset: self.offset as nat }
    }
}

/// Width of the timestamp field of the next record: 4 bytes for the first
/// sample, 2 for later ones.
pub open spec fn next_ts_size(v: BatchView) -> nat {
    if v.samples.len() == 0 {
        4
    } else {
        2
    }
}

/// Whether a next sample with `len` data bytes fits the payload (which also
/// holds the count byte).
pub open spec fn sample_fits(v: BatchView, len: nat) -> bool {
    1 + v.offset + next_ts_size(v) + len <= v.frame.payload_len
}

/// The records written so far sit right after the count byte of the payload.
pub open spec fn batch_view_inv(v: BatchView) -> bool {
    &&& frame_inv(v.frame)
    &&& v.samples.len() <= 255
    &&& v.offset == batch_encoding(v.samples).len()
    &&& v.samples.len() > 0 ==> 1 + v.offset <= v.frame.payload_len
    &&& v.samples.len() > 0 ==> frame_payload(v.frame).subrange(1, 1 + v.offset as int)
        == batch_encoding(v.samples)
}

impl Batch {
    /// The batch's records sit in its frame's payload.
    pub closed spec fn inv(&self) -> bool {
        &&& batch_view_inv(self@)
        &&& self.sample_count == self.samples@.len()
        &&& self.samples@.len() > 0 ==> self.prev_timestamp == self.samples@.last().0
        &&& self.frame.inv()
    }

    /// Construct new batch writing into `frame`.
    pub fn new(frame: Frame) -> (batch: Batch)
        requires
            frame.inv(),
        ensures
            batch.inv(),
            batch_view_inv(batch@),
            batch@ == (BatchView { frame: frame@, samples: Seq::empty(), offset: 0 }),
    {
        Batch { frame, sample_count: 0, offset: 0, prev_timestamp: 0, samples: Ghost(Seq::empty()) }
    }

    /// Push a sample into the batch: its timestamp (absolute for the first
    /// sample, a 16-bit delta for later ones) and its data. Only the bytes of
    /// the new record are written.
    #[verifier::rlimit(50)]
    #[verifier::spinoff_prover]
    pub fn push_sample(&mut self, timestamp: u32, data: &[u8]) -> (res: Result<(), Error>)
        requires
            old(self).inv(),
            1 + old(self)@.offset + next_ts_size(old(self)@) + data@.len() <= usize::MAX,
            old(self)@.samples.len() < 255 || !sample_fits(old(self)@, data@.len()),
        ensures
            final(self).inv(),
            batch_view_inv(final(self)@),
            !sample_fits(old(self)@, data@.len()) ==> res == Err::<(), Error>(Error::BufferOverflow)
                && final(self)@ == old(self)@,
            sample_fits(old(self)@, data@.len()) ==> res is Ok && final(self)@ == (BatchView {
                frame: FrameView {
                    bytes: crate::frame::splice(
                        old(self)@.frame.bytes,
                        HEADER_SIZE + 1 + old(self)@.offset,
                        sample_record(old(self)@.samples, (timestamp, data@)),
                    ),
                    ..old(self)@.frame
                },
                samples: old(self)@.samples.push((timestamp, data@)),
                offset: old(self)@.offset + sample_record(
                    old(self)@.samples,
                    (timestamp, data@),
                ).len(),
            }),
    {
        let is_first = self.sample_count == 0;
        let timestamp_size: usize = if is_first {
            4
        } else {
            2
        };
        let required_len = 1 + self.offset + timestamp_size + data.len();
        if required_len > self.frame.payload_len() {
            return Err(Error::BufferOverflow);
        }
        let ghost old_view = self@;
        let ghost record = sample_record(self.samples@, (timestamp, data@));
        let current_pos = 1 + self.offset;
        let payload = match self.frame.payload_mut() {
            Ok(p) => p,
            Err(e) => {
                return Err(e);
            },
        };
        let ghost before = payload@;
        let ghost ts_bytes: Seq<u8>;
        if is_first {
            let bytes = u32_to_le(timestamp);
            copy_into(payload, current_pos, &bytes);
            self.offset = self.offset + 4;
            proof {
                ts_bytes = bytes@;
            }
        } else {
            let delta = (timestamp.wrapping_sub(self.prev_timestamp) % 65536) as u16;
            proof {
                let d = timestamp as int - self.prev_timestamp as int;
                vstd::arithmetic::div_mod::lemma_mod_multiples_vanish(65536, d, 65536);
                assert(delta == ts_delta(self.prev_timestamp, timestamp));
            }
            let bytes = u16_to_le(delta);
            copy_into(payload, current_pos, &bytes);
            self.offset = self.offset + 2;
            proof {
                ts_bytes = bytes@;
            }
        }
        self.prev_timestamp = timestamp;
        let data_start = current_pos + timestamp_size;
        copy_into(payload, data_start, data);
        self.offset = self.offset + data.len();
        self.sample_count = self.sample_count + 1;
        proof {
            assert(record =~= ts_bytes + data@);
            assert(payload@ =~= crate::frame::splice(before, current_pos as int, record));
            assert(has_resolved(payload));
            lemma_encoding_push(old_view.samples, (timestamp, data@));
            self.samples@ = old_view.samples.push((timestamp, data@));
        }
        proof {
            let ob = old_view.frame.bytes;
            let pl = old_view.frame.payload_len;
            assert(self.frame@.bytes =~= ob.take(HEADER_SIZE as int) + crate::frame::splice(
                before,
                current_pos as int,
                record,
            ) + ob.skip(HEADER_SIZE + pl));
            assert(self.frame@.bytes =~= crate::frame::splice(ob, HEADER_SIZE + current_pos, record));
            assert(frame_payload(self.frame@) =~= crate::frame::splice(before, current_pos as int, record));
            if old_view.samples.len() > 0 {
                assert(before.subrange(1, current_pos as int) == batch_encoding(old_view.samples));
            }
            assert(frame_payload(self.frame@).subrange(1, 1 + self.offset as int) =~= batch_encoding(
                old_view.samples,
            ) + record);
        }
        Ok(())
    }

    /// Finish the batch: write the number of samples into the first payload
    /// byte (when at least one sample was pushed) and give the frame back.
    /// Nothing else in the frame changes.
    pub fn finish(self) -> (frame: Frame)
        requires
            self.inv(),
        ensures
            frame.inv(),
            self@.samples.len() > 0 ==> frame_payload(frame@) == finished_payload(self@),
            self@.samples.len() == 0 ==> frame@ == self@.frame,
            self@.samples.len() > 0 ==> frame@ == (FrameView {
                bytes: self@.frame.bytes.update(HEADER_SIZE as int, self@.samples.len() as u8),
                ..self@.frame
            }),
    {
        let mut frame = self.frame;
        if self.sample_count > 0 {
            let payload = match frame.payload_mut() {
                Ok(p) => p,
                Err(_) => {
                    return frame;
                },
            };
            payload[0] = self.sample_count;
            proof {
                assert(frame@.bytes =~= self@.frame.bytes.update(HEADER_SIZE as int, self@.samples.len() as u8));
            }
        }
        frame
    }
}

/// Samples that a batch records and reads back unchanged: each carries
/// `sample_size` bytes of data, and each timestamp lies less than 2^16 ahead
/// (modulo 2^32) of the previous one, so that its 16-bit delta is exact.
pub open spec fn samples_decodable(s: Seq<(u32, Seq<u8>)>, sample_size: nat) -> bool {
    &&& forall|i: int| 0 <= i < s.len() ==> (#[trigger] s[i]).1.len() == sample_size
    &&& forall|i: int| 1 <= i < s.len() ==> ((#[trigger] s[i]).0 - s[i - 1].0) % 4294967296 < 65536
}

/// A payload that holds the count of `s` in its first byte and the records of
/// `s` right after it.
pub open spec fn payload_holds_batch(payload: Seq<u8>, s: Seq<(u32, Seq<u8>)>) -> bool {
    &&& 1 + batch_encoding(s).len() <= payload.len()
    &&& payload[0] == s.len()
    &&& payload.subrange(1, 1 + batch_encoding(s).len() as int) == batch_encoding(s)
}

/// Iterator state after reading the first `i` samples of `s` from `payload`.
pub open spec fn iter_state_at(
    payload: Seq<u8>,
    s: Seq<(u32, Seq<u8>)>,
    sample_size: nat,
    i: int,
) -> BatchIterView {
    BatchIterView {
        payload,
        sample_count: s.len(),
        current_idx: i as nat,
        offset: 1 + batch_encoding(s.take(i)).len(),
        prev_timestamp: if i == 0 {
            0
        } else {
            s[i - 1].0
        },
        sample_size,
    }
}

/// The records of a prefix of the samples are a prefix of the records.
pub proof fn lemma_encoding_prefix(s: Seq<(u32, Seq<u8>)>, j: int)
    requires
        0 <= j <= s.len(),
    ensures
        batch_encoding(s.take(j)).len() <= batch_encoding(s).len(),
        batch_encoding(s).take(batch_encoding(s.take(j)).len() as int) == batch_encoding(s.take(j)),
    decreases s.len(),
{
    if j == s.len() {
        assert(s.take(j) =~= s);
        assert(batch_encoding(s).take(batch_encoding(s).len() as int) =~= batch_encoding(s));
    } else {
        let dl = s.drop_last();
        lemma_encoding_prefix(dl, j);
        assert(dl.take(j) =~= s.take(j));
        let e = batch_encoding(s.take(j));
        assert(batch_encoding(s) == batch_encoding(dl) + sample_record(dl, s.last()));
        assert(batch_encoding(s).take(e.len() as int) =~= batch_encoding(dl).take(e.len() as int));
    }
}

/// Adding a 16-bit delta, taken as the batch takes it, to the previous
/// timestamp restores the timestamp when it lies less than 2^16 ahead.
pub proof fn lemma_delta_restores(prev: u32, t: u32)
    requires
        (t - prev) % 4294967296 < 65536,
    ensures
        prev.wrapping_add(ts_delta(prev, t) as u32) == t,
{
    let d = (t - prev) % 4294967296;
    if t >= prev {
        assert(d == t - prev);
    } else {
        assert(d == t - prev + 4294967296);
        vstd::arithmetic::div_mod::lemma_mod_multiples_vanish(1, t - prev, 4294967296);
    }
    vstd::arithmetic::div_mod::lemma_mod_multiples_vanish(-65536, d, 65536);
    assert(d % 65536 == d);
    if t >= prev {
        assert((t - prev) % 65536 == d);
    } else {
        assert(t - prev == 65536 * (-65536) + d);
        assert((t - prev) % 65536 == d);
    }
}

/// The record of the `i`-th sample sits in the payload right after the
/// records of the samples before it.
proof fn lemma_record_in_payload(payload: Seq<u8>, s: Seq<(u32, Seq<u8>)>, i: int)
    requires
        payload_holds_batch(payload, s),
        0 <= i < s.len(),
    ensures
        batch_encoding(s.take(i + 1)) == batch_encoding(s.take(i)) + sample_record(s.take(i), s[i]),
        1 + batch_encoding(s.take(i + 1)).len() <= payload.len(),
        forall|k: int|
            0 <= k < sample_record(s.take(i), s[i]).len() ==> payload[1 + batch_encoding(s.take(i)).len() + k]
                == #[trigger] sample_record(s.take(i), s[i])[k],
{
    let ti = s.take(i);
    let ei = batch_encoding(ti);
    let rec = sample_record(ti, s[i]);
    assert(ti.push(s[i]) =~= s.take(i + 1));
    lemma_encoding_push(ti, s[i]);
    lemma_encoding_prefix(s, i + 1);
    let e = batch_encoding(s);
    let e1 = batch_encoding(s.take(i + 1));
    assert forall|k: int| 0 <= k < rec.len() implies payload[1 + ei.len() + k] == rec[k] by {
        let j = ei.len() + k;
        assert(e1[j] == rec[k]);
        assert(e.take(e1.len() as int)[j] == e[j]);
        assert(payload.subrange(1, 1 + e.len() as int)[j] == payload[1 + j]);
    }
}

/// Reading the `i`-th sample of a batch yields that sample's timestamp and
/// data, and moves the iterator to the state after `i + 1` samples.
pub proof fn lemma_iter_step_reads_sample(
    payload: Seq<u8>,
    s: Seq<(u32, Seq<u8>)>,
    sample_size: nat,
    i: int,
)
    requires
        1 <= s.len() <= 255,
        samples_decodable(s, sample_size),
        payload_holds_batch(payload, s),
        0 <= i < s.len(),
    ensures
        iter_step(iter_state_at(payload, s, sample_size, i)) == (
            iter_state_at(payload, s, sample_size, i + 1),
            Some(Ok::<(u32, Seq<u8>), Error>((s[i].0, s[i].1))),
        ),
{
    let ti = s.take(i);
    let ei = batch_encoding(ti);
    let rec = sample_record(ti, s[i]);
    lemma_record_in_payload(payload, s, i);
    let at: int = 1 + ei.len() as int;
    assert(s[i].1.len() == sample_size);
    if i == 0 {
        let tb = le32(s[0].0);
        assert(rec == tb + s[0].1);
        crate::codec::lemma_le32_roundtrip(s[0].0);
        assert(payload[at as int] == rec[0] && rec[0] == tb[0]);
        assert(payload[at + 1] == rec[1] && rec[1] == tb[1]);
        assert(payload[at + 2] == rec[2] && rec[2] == tb[2]);
        assert(payload[at + 3] == rec[3] && rec[3] == tb[3]);
        assert(read_le32(payload, at as int) == s[0].0);
        assert forall|k: int| 0 <= k < sample_size implies payload[at + 4 + k] == s[0].1[k] by {
            assert(payload[at + (4 + k)] == rec[4 + k]);
        }
        assert(payload.subrange((at + 4) as int, (at + 4 + sample_size) as int) =~= s[0].1);
    } else {
        assert(ti.last() == s[i - 1]);
        let d = ts_delta(s[i - 1].0, s[i].0);
        let db = le16(d);
        assert(rec == db + s[i].1);
        crate::codec::lemma_le16_roundtrip(d);
        assert(payload[at as int] == rec[0] && rec[0] == db[0]);
        assert(payload[at + 1] == rec[1] && rec[1] == db[1]);
        assert(read_le16(payload, at as int) == d);
        lemma_delta_restores(s[i - 1].0, s[i].0);
        assert forall|k: int| 0 <= k < sample_size implies payload[at + 2 + k] == s[i].1[k] by {
            assert(payload[at + (2 + k)] == rec[2 + k]);
        }
        assert(payload.subrange((at + 2) as int, (at + 2 + sample_size) as int) =~= s[i].1);
    }
}

/// Past the last sample the iterator yields `None` and stays put.
pub proof fn lemma_iter_step_at_end(payload: Seq<u8>, s: Seq<(u32, Seq<u8>)>, sample_size: nat)
    ensures
        iter_step(iter_state_at(payload, s, sample_size, s.len() as int)) == (
            iter_state_at(payload, s, sample_size, s.len() as int),
            None::<Result<(u32, Seq<u8>), Error>>,
        ),
{
}

/// An iterator created over a payload that holds a non-empty batch starts in
/// the state before its first sample.
pub proof fn lemma_iter_new_at_start(payload: Seq<u8>, s: Seq<(u32, Seq<u8>)>, sample_size: nat)
    requires
        1 <= s.len() <= 255,
        payload_holds_batch(payload, s),
    ensures
        iter_new_outcome(payload, sample_size) == Ok::<BatchIterView, Error>(
            iter_state_at(payload, s, sample_size, 0),
        ),
{
    lemma_encoding_prefix(s, 1);
    assert(s.take(1).drop_last() =~= Seq::<(u32, Seq<u8>)>::empty());
    assert(s.take(0) =~= Seq::<(u32, Seq<u8>)>::empty());
    assert(batch_encoding(s.take(1)).len() >= 4);
}

/// Payload of the frame that finishing a batch in state `v` gives back: the
/// count of samples written into the first payload byte.
pub open spec fn finished_payload(v: BatchView) -> Seq<u8> {
    frame_payload(
        FrameView {
            bytes: v.frame.bytes.update(HEADER_SIZE as int, v.samples.len() as u8),
            ..v.frame
        },
    )
}

/// A finished batch leaves its samples in the frame's payload: the count in
/// the first byte, the records after it.
pub proof fn lemma_finished_batch_payload(v: BatchView)
    requires
        batch_view_inv(v),
        v.samples.len() > 0,
    ensures
        payload_holds_batch(finished_payload(v), v.samples),
{
    let w = FrameView {
        bytes: v.frame.bytes.update(HEADER_SIZE as int, v.samples.len() as u8),
        ..v.frame
    };
    let p = frame_payload(v.frame);
    let q = frame_payload(w);
    assert(q =~= p.update(0, v.samples.len() as u8));
    assert(q.subrange(1, 1 + v.offset as int) =~= p.subrange(1, 1 + v.offset as int));
}

/// The samples pushed into a batch are read back, in order, by an iterator
/// over the finished frame's payload, and after the last one the iterator
/// yields `None`. This holds when every sample carries `sample_size` bytes
/// and each timestamp lies less than 2^16 ahead of the previous one.
pub proof fn lemma_batch_roundtrip(v: BatchView, sample_size: nat)
    requires
        batch_view_inv(v),
        v.samples.len() > 0,
        samples_decodable(v.samples, sample_size),
    ensures
        ({
            let payload = finished_payload(v);
            let s = v.samples;
            &&& iter_new_outcome(payload, sample_size) == Ok::<BatchIterView, Error>(
                iter_state_at(payload, s, sample_size, 0),
            )
            &&& forall|i: int|
                0 <= i < s.len() ==> #[trigger] iter_step(iter_state_at(payload, s, sample_size, i))
                    == (
                    iter_state_at(payload, s, sample_size, i + 1),
                    Some(Ok::<(u32, Seq<u8>), Error>((s[i].0, s[i].1))),
                )
            &&& iter_step(iter_state_at(payload, s, sample_size, s.len() as int)).1 is None
        }),
{
    let payload = finished_payload(v);
    let s = v.samples;
    lemma_finished_batch_payload(v);
    lemma_iter_new_at_start(payload, s, sample_size);
    assert forall|i: int| 0 <= i < s.len() implies #[trigger] iter_step(
        iter_state_at(payload, s, sample_size, i),
    ) == (
        iter_state_at(payload, s, sample_size, i + 1),
        Some(Ok::<(u32, Seq<u8>), Error>((s[i].0, s[i].1))),
    ) by {
        lemma_iter_step_reads_sample(payload, s, sample_size, i);
    }
    lemma_iter_step_at_end(payload, s, sample_size);
}

/// Abstract state of an iterator over batched samples.
pub struct BatchIterView {
    /// Payload bytes.
    pub payload: Seq<u8>,
    /// Total number of samples.
    pub sample_count: nat,
    /// Index of the next sample.
    pub current_idx: nat,
    /// Byte offset of the next record in the payload.
    pub offset: nat,
    /// Timestamp of the previous sample.
    pub prev_timestamp: u32,
    /// Size of each sample's data in bytes.
    pub sample_size: nat,
}

/// Width of the timestamp field of the record at the iterator's position.
pub open spec fn iter_ts_size(v: BatchIterView) -> nat {
    if v.current_idx == 0 {
        4
    } else {
        2
    }
}

/// One step of the iterator: the state after and the item produced. Past
/// the last sample it yields `None`; a record that does not fit the payload
/// yields a parse error and ends the iteration.
pub open spec fn iter_step(v: BatchIterView) -> (BatchIterView, Option<Result<(u32, Seq<u8>), Error>>) {
    if v.current_idx >= v.sample_count {
        (v, None)
    } else if v.offset + iter_ts_size(v) + v.sample_size > v.payload.len() {
        (BatchIterView { current_idx: v.sample_count, ..v }, Some(Err(Error::ParseError)))
    } else {
        let ts = if v.current_idx == 0 {
            read_le32(v.payload, v.offset as int)
        } else {
            v.prev_timestamp.wrapping_add(read_le16(v.payload, v.offset as int) as u32)
        };
        let data_at = v.offset + iter_ts_size(v);
        (
            BatchIterView {
                offset: data_at + v.sample_size,
                prev_timestamp: ts,
                current_idx: v.current_idx + 1,
                ..v
            },
            Some(Ok((ts, v.payload.subrange(data_at as int, (data_at + v.sample_size) as int)))),
        )
    }
}

/// Outcome of creating an iterator over `payload`: the payload must not be
/// empty, and when its first byte (the count) is not zero it must hold at
/// least a first timestamp.
pub open spec fn iter_new_outcome(payload: Seq<u8>, sample_size: nat) -> Result<BatchIterView, Error> {
    if payload.len() == 0 {
        Err(Error::ParseError)
    } else if payload[0] > 0 && payload.len() < 5 {
        Err(Error::ParseError)
    } else {
        Ok(
            BatchIterView {
                payload,
                sample_count: payload[0] as nat,
                current_idx: 0,
                offset: 1,
                prev_timestamp: 0,
                sample_size,
            },
        )
    }
}

/// Iterator over batched samples in an INDTP payload.
#[derive(Debug, PartialEq)]
pub struct BatchIterator<'a> {
    /// Reference to payload bytes.
    payload: &'a [u8],
    /// Total number of samples.
    sample_count: u8,
    /// Current sample index.
    current_idx: u8,
    /// Current byte offset in payload.
    offset: usize,
    /// Previous timestamp.
    prev_timestamp: u32,
    /// Size of sensor data per sample in bytes.
    sample_size: usize,
}

impl<'a> View for BatchIterator<'a> {
    type V = BatchIterView;

    closed spec fn view(&self) -> BatchIterView {
        BatchIterView {
            payload: self.payload@,
            sample_count: self.sample_count as nat,
            current_idx: self.current_idx as nat,
            offset: self.offset as nat,
            prev_timestamp: self.prev_timestamp,
            sample_size: self.sample_size as nat,
        }
    }
}

impl<'a> BatchIterator<'a> {
    /// The iterator has not run past the samples or the payload.
    pub open spec fn inv(&self) -> bool {
        &&& self@.current_idx <= self@.sample_count
        &&& self@.sample_count <= 255
        &&& self@.offset <= self@.payload.len()
    }

    /// Create new batch iterator over `payload`, whose samples each carry
    /// `sample_size` bytes of data.
    pub fn new(payload: &'a [u8], sample_size: usize) -> (iter: Result<Self, Error>)
        ensures
            match iter_new_outcome(payload@, sample_size as nat) {
                Ok(v) => iter matches Ok(it) && it@ == v && it.inv(),
                Err(e) => iter == Err::<Self, Error>(e),
            },
    {
        if payload.is_empty() {
            return Err(Error::ParseError);
        }
        let sample_count = payload[0];
        if sample_count > 0 && payload.len() < 5 {
            return Err(Error::ParseError);
        }
        Ok(BatchIterator {
            payload,
            sample_count,
            current_idx: 0,
            offset: 1,
            prev_timestamp: 0,
            sample_size,
        })
    }

    /// Read the next sample: its timestamp and data.
    pub fn next(&mut self) -> (item: Option<Result<(u32, &'a [u8]), Error>>)
        requires
            old(self).inv(),
        ensures
            final(self).inv(),
            final(self)@ == iter_step(old(self)@).0,
            match iter_step(old(self)@).1 {
                None => item is None,
                Some(Err(e)) => item == Some(Err::<(u32, &'a [u8]), Error>(e)),
                Some(Ok((t, d))) => item matches Some(Ok((t2, d2))) && t2 == t && d2@ == d,
            },
    {
        if self.current_idx >= self.sample_count {
            return None;
        }
        let is_first = self.current_idx == 0;
        let timestamp_size: usize = if is_first {
            4
        } else {
            2
        };
        if timestamp_size > self.payload.len() - self.offset {
            self.current_idx = self.sample_count;
            return Some(Err(Error::ParseError));
        }
        let at = self.offset;
        let data_at = at + timestamp_size;
        if self.sample_size > self.payload.len() - data_at {
            self.current_idx = self.sample_count;
            return Some(Err(Error::ParseError));
        }
        let timestamp = if is_first {
            u32_from_le(self.payload[at], self.payload[at + 1], self.payload[at + 2], self.payload[at + 3])
        } else {
            let delta = u16_from_le(self.payload[at], self.payload[at + 1]);
            self.prev_timestamp.wrapping_add(delta as u32)
        };
        let data = vstd::slice::slice_subrange(self.payload, data_at, data_at + self.sample_size);
        self.prev_timestamp = timestamp;
        self.offset = data_at + self.sample_size;
        self.current_idx = self.current_idx + 1;
        Some(Ok((timestamp, data)))
    }

    /// Number of samples left, as lower and upper bound.
    pub fn size_hint(&self) -> (hint: (usize, Option<usize>))
        requires
            self.inv(),
        ensures
            hint.0 == self@.sample_count - self@.current_idx,
            hint.1 == Some((self@.sample_count - self@.current_idx) as usize),
    {
        let remaining = (self.sample_count - self.current_idx) as usize;
        (remaining, Some(remaining))
    }
}

} // verus!
