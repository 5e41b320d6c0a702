//! What this side knows of the sequence numbers received from the peer.
use vstd::prelude::*;
use crate::sequence::{distance_forward, forward_distance, is_newer, lemma_forward_distance};

verus! {

/// The state reached from `(last, field)` after acknowledging sequence `s`.
pub open spec fn ack_step(last: u16, field: u32, s: u16) -> (u16, u32) {
    let pos = forward_distance(last, s);
    let neg = forward_distance(s, last);
    if pos == 0 {
        (last, field)
    } else if pos < 0x8000 {
        if pos <= 32 {
            (s, ((field << 1u32) | 1u32) << ((pos - 1) as u32))
        } else {
            (s, 0u32)
        }
    } else if neg <= 32 {
        (last, field | (1u32 << ((neg - 1) as u32)))
    } else {
        (last, field)
    }
}

/// The state reached from `(last, field)` after acknowledging each of `seqs` in order.
pub open spec fn ack_all(last: u16, field: u32, seqs: Seq<u16>) -> (u16, u32)
    decreases seqs.len(),
{
    if seqs.len() == 0 {
        (last, field)
    } else {
        let prev = ack_all(last, field, seqs.drop_last());
        ack_step(prev.0, prev.1, seqs.last())
    }
}

/// Whether bit `n` of `field` is set.
pub open spec fn bit_set(field: u32, n: u32) -> bool {
    field & (1u32 << n) != 0
}

/// The peer's sequence numbers as seen from this side.
///
/// `last_sequence_num` is the newest sequence received; bit `n` of `ack_field`
/// stands for sequence `last_sequence_num - (n + 1)`.
#[derive(Debug, Default)]
pub struct ExternalAcks {
    last_sequence_num: u16,
    ack_field: u32,
}

impl View for ExternalAcks {
    type V = (u16, u32);

    closed spec fn view(&self) -> (u16, u32) {
        (self.last_sequence_num, self.ack_field)
    }
}

impl ExternalAcks {
    /// A record that has seen nothing but sequence zero.
    pub fn new() -> (r: Self)
        ensures
            r@ == (0u16, 0u32),
    {
        ExternalAcks { last_sequence_num: 0, ack_field: 0 }
    }

    /// Records that sequence `sequence_num` was received from the peer.
    pub fn ack(&mut self, sequence_num: u16)
        ensures
            final(self)@ == ack_step(old(self)@.0, old(self)@.1, sequence_num),
    {
        let pos_diff = distance_forward(self.last_sequence_num, sequence_num);
        let neg_diff = distance_forward(sequence_num, self.last_sequence_num);
        if pos_diff == 0 {
            return;
        }
        if pos_diff < 0x8000 {
            if pos_diff <= 32 {
                let shift: u32 = (pos_diff - 1) as u32;
                self.ack_field = ((self.ack_field << 1u32) | 1u32) << shift;
            } else {
                self.ack_field = 0;
            }
            self.last_sequence_num = sequence_num;
        } else if neg_diff <= 32 {
            let shift: u32 = (neg_diff - 1) as u32;
            self.ack_field = self.ack_field | (1u32 << shift);
        }
    }

    /// The newest sequence received from the peer.
    pub fn last_acked(&self) -> (r: u16)
        ensures
            r == self@.0,
    {
        self.last_sequence_num
    }

    /// The window of the 32 sequences before `last_acked`.
    pub fn ack_field(&self) -> (r: u32)
        ensures
            r == self@.1,
    {
        self.ack_field
    }
}

/// Acknowledging the newest sequence again changes nothing.
pub proof fn lemma_ack_last_is_idempotent(last: u16, field: u32)
    ensures
        ack_step(last, field, last) == (last, field),
{
    lemma_forward_distance(last, last);
}

proof fn lemma_shift_keeps_bit(f: u32, k: u32, p: u32)
    requires
        1 <= p <= 32,
        k + p <= 31,
        f & (1u32 << k) != 0,
    ensures
        (((f << 1u32) | 1u32) << (p - 1) as u32) & (1u32 << (k + p) as u32) != 0,
{
    assert((((f << 1u32) | 1u32) << (p - 1) as u32) & (1u32 << (k + p) as u32) != 0) by (bit_vector)
        requires
            1 <= p <= 32,
            k + p <= 31,
            f & (1u32 << k) != 0,
    ;
}

proof fn lemma_shift_sets_bit(f: u32, p: u32)
    requires
        1 <= p <= 32,
    ensures
        (((f << 1u32) | 1u32) << (p - 1) as u32) & (1u32 << (p - 1) as u32) != 0,
{
    assert((((f << 1u32) | 1u32) << (p - 1) as u32) & (1u32 << (p - 1) as u32) != 0) by (bit_vector)
        requires
            1 <= p <= 32,
    ;
}

proof fn lemma_or_bits(f: u32, n: u32, k: u32)
    requires
        n < 32,
        k < 32,
    ensures
        (f | (1u32 << n)) & (1u32 << n) != 0,
        f & (1u32 << k) != 0 ==> (f | (1u32 << n)) & (1u32 << k) != 0,
{
    assert((f | (1u32 << n)) & (1u32 << n) != 0) by (bit_vector)
        requires
            n < 32,
    ;
    assert(f & (1u32 << k) != 0 ==> (f | (1u32 << n)) & (1u32 << k) != 0) by (bit_vector)
        requires
            k < 32,
            n < 32,
    ;
}

/// `x` lies in the half of the circle that starts at `base`.
pub open spec fn in_half_window(base: u16, x: u16) -> bool {
    forward_distance(base, x) < 0x8000
}

/// After any run of acknowledgements that stays within half the circle of
/// sequence numbers (together with the starting sequence), the record's last
/// sequence is the newest of the start and the inputs, and every input up to
/// 32 behind it has its bit set.
pub proof fn lemma_ack_window(base: u16, last: u16, field: u32, seqs: Seq<u16>)
    requires
        in_half_window(base, last),
        forall|i: int| 0 <= i < seqs.len() ==> in_half_window(base, #[trigger] seqs[i]),
    ensures
        ({
            let (l, f) = ack_all(last, field, seqs);
            &&& in_half_window(base, l)
            &&& l == last || exists|i: int| 0 <= i < seqs.len() && seqs[i] == l
            &&& !is_newer(l, last)
            &&& forall|i: int| 0 <= i < seqs.len() ==> !is_newer(l, #[trigger] seqs[i])
            &&& forall|i: int|
                0 <= i < seqs.len() && 0 < forward_distance(#[trigger] seqs[i], l) <= 32
                    ==> bit_set(f, (forward_distance(seqs[i], l) - 1) as u32)
        }),
    decreases seqs.len(),
{
    let (l, f) = ack_all(last, field, seqs);
    lemma_forward_distance(base, last);
    lemma_forward_distance(l, last);
    lemma_forward_distance(last, l);
    if seqs.len() == 0 {
        return;
    }
    let prev = seqs.drop_last();
    let x = seqs.last();
    lemma_ack_window(base, last, field, prev);
    let (pl, pf) = ack_all(last, field, prev);
    assert((l, f) == ack_step(pl, pf, x));
    lemma_forward_distance(base, x);
    lemma_forward_distance(base, pl);
    lemma_forward_distance(base, l);
    lemma_forward_distance(pl, x);
    lemma_forward_distance(x, pl);
    lemma_forward_distance(x, l);
    lemma_forward_distance(l, x);
    lemma_forward_distance(pl, l);
    lemma_forward_distance(l, pl);
    lemma_forward_distance(last, pl);
    lemma_forward_distance(pl, last);
    assert(in_half_window(base, x));
    // the rank of the old last is at least the rank of every earlier input
    assert forall|i: int| 0 <= i < prev.len() implies forward_distance(base, #[trigger] prev[i])
        <= forward_distance(base, pl) by {
        assert(in_half_window(base, prev[i]));
        lemma_forward_distance(base, prev[i]);
        lemma_forward_distance(pl, prev[i]);
        assert(!is_newer(pl, prev[i]));
    }
    assert(forward_distance(base, last) <= forward_distance(base, pl)) by {
        assert(!is_newer(pl, last));
    }
    if exists|i: int| 0 <= i < prev.len() && prev[i] == pl {
        let i = choose|i: int| 0 <= i < prev.len() && prev[i] == pl;
        assert(seqs[i] == pl);
    }
    assert forall|i: int| 0 <= i < seqs.len() implies !is_newer(l, #[trigger] seqs[i]) by {
        lemma_forward_distance(l, seqs[i]);
        lemma_forward_distance(base, seqs[i]);
        if i < prev.len() {
            assert(prev[i] == seqs[i]);
            assert(forward_distance(base, prev[i]) <= forward_distance(base, pl));
        }
    }
    assert forall|i: int|
        0 <= i < seqs.len() && 0 < forward_distance(#[trigger] seqs[i], l) <= 32 implies bit_set(
        f,
        (forward_distance(seqs[i], l) - 1) as u32,
    ) by {
        let s = seqs[i];
        lemma_forward_distance(s, l);
        lemma_forward_distance(s, pl);
        lemma_forward_distance(base, s);
        if i < prev.len() {
            assert(prev[i] == s);
            assert(forward_distance(base, s) <= forward_distance(base, pl));
        }
        let pos = forward_distance(pl, x);
        let neg = forward_distance(x, pl);
        if pos == 0 {
        } else if pos < 0x8000 {
            if pos <= 32 {
                if s == pl {
                    lemma_shift_sets_bit(pf, pos as u32);
                } else if i < prev.len() {
                    let k = forward_distance(s, pl) - 1;
                    assert(bit_set(pf, k as u32));
                    lemma_shift_keeps_bit(pf, k as u32, pos as u32);
                    assert((k + pos) as u32 == (forward_distance(s, l) - 1) as u32);
                }
            }
        } else if neg <= 32 {
            lemma_or_bits(pf, (neg - 1) as u32, (forward_distance(s, l) - 1) as u32);
        }
    }
}

} // verus!
