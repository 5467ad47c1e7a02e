//! Sequence number handling.

use vstd::prelude::*;

verus! {

/// Serial-number comparison on 16-bit sequence numbers: `recv` is newer than
/// `last` when the forward distance from `last` to `recv`, taken modulo 2^16,
/// lies strictly between 0 and 2^15.
pub open spec fn seq_newer(recv: u16, last: u16) -> bool {
    let distance = (recv as int - last as int) % 65536;
    0 < distance && distance < 32768
}

/// Whether a frame with sequence number `recv_seq` is to be processed, given
/// the sequence number of the last accepted frame (`None` before the first).
pub open spec fn spec_sequence_correct(recv_seq: u16, last_seq: Option<u16>) -> bool {
    match last_seq {
        None => true,
        Some(last) => seq_newer(recv_seq, last),
    }
}

/// Validates if a received sequence number is newer than the last accepted
/// one, with wrap-around of the 16-bit counter taken into account.
///
/// Returns `true` when the packet is new and should be processed, `false`
/// when it is old, a duplicate, or a replay.
pub fn is_sequence_correct(recv_seq: u16, last_seq: Option<u16>) -> (correct: bool)
    ensures
        correct == spec_sequence_correct(recv_seq, last_seq),
{
    match last_seq {
        None => true,
        Some(last) => {
            let diff = recv_seq.wrapping_sub(last);
            diff != 0 && diff < 0x8000
        },
    }
}

/// A duplicate of the last accepted sequence number is never accepted.
pub proof fn lemma_duplicate_rejected(seq: u16)
    ensures
        !spec_sequence_correct(seq, Some(seq)),
{
}

/// Of two distinct sequence numbers at most one is newer than the other:
/// once `a` has been accepted after `b`, `b` is not accepted after `a`.
pub proof fn lemma_newer_antisymmetric(a: u16, b: u16)
    ensures
        spec_sequence_correct(a, Some(b)) ==> !spec_sequence_correct(b, Some(a)),
{
}

/// The successor of the last sequence number (with wrap-around from 65535 to
/// 0) is always accepted.
pub proof fn lemma_successor_accepted(last: u16)
    ensures
        spec_sequence_correct(last.wrapping_add(1), Some(last)),
{
}

/// Acceptance depends only on the distance between the two numbers: shifting
/// both by the same amount (modulo 2^16) does not change the outcome.
pub proof fn lemma_shift_invariant(recv: u16, last: u16, k: u16)
    ensures
        spec_sequence_correct(recv.wrapping_add(k), Some(last.wrapping_add(k)))
            == spec_sequence_correct(recv, Some(last)),
{
}

/// Exactly the sequence numbers that lie 1 to 32767 steps ahead of the last
/// accepted one, counting modulo 2^16, are accepted: `d` steps ahead is
/// accepted iff `0 < d < 2^15`. Before the first frame every number is
/// accepted.
pub proof fn lemma_accepts_exactly_half_window(last: u16, d: u16, recv: u16)
    ensures
        spec_sequence_correct(last.wrapping_add(d), Some(last)) <==> (0 < d && d < 32768),
        spec_sequence_correct(recv, None),
{
    let r = last.wrapping_add(d);
    if last as int + d as int > 65535 {
        assert(r == last as int + d as int - 65536);
        assert((r as int - last as int) == d as int - 65536);
        assert((d as int - 65536) % 65536 == d as int);
    } else {
        assert(r == last as int + d as int);
        assert((r as int - last as int) % 65536 == d as int);
    }
}

} // verus!
