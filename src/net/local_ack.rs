//! The reliable packets this side sent and the peer has not acknowledged yet.
use vstd::prelude::*;
use crate::net::external_ack::bit_set;
use crate::sequence::{distance_forward, forward_distance};

verus! {

/// A sent sequence number with its payload.
pub type SentEntry = (u16, Seq<u8>);

/// Sequence `s` is acknowledged by the peer's `(last, field)`: it is `last`,
/// or lies up to 32 behind it with its bit set.
pub open spec fn is_acked(last: u16, field: u32, s: u16) -> bool {
    let d = forward_distance(s, last);
    d == 0 || (1 <= d <= 32 && bit_set(field, (d - 1) as u32))
}

/// Sequence `s` is known dropped by the peer's `(last, field)`: it lies up to
/// 32 behind `last` and its bit is unset.
pub open spec fn is_dropped(last: u16, field: u32, s: u16) -> bool {
    let d = forward_distance(s, last);
    1 <= d <= 32 && !bit_set(field, (d - 1) as u32)
}

/// The entries that `(last, field)` neither acknowledges nor drops, in order.
pub open spec fn still_pending(entries: Seq<SentEntry>, last: u16, field: u32) -> Seq<SentEntry>
    decreases entries.len(),
{
    if entries.len() == 0 {
        Seq::empty()
    } else {
        let prev = still_pending(entries.drop_last(), last, field);
        let e = entries.last();
        if is_acked(last, field, e.0) || is_dropped(last, field, e.0) {
            prev
        } else {
            prev.push(e)
        }
    }
}

/// The entries that `(last, field)` drops, in order.
pub open spec fn dropped_entries(entries: Seq<SentEntry>, last: u16, field: u32) -> Seq<SentEntry>
    decreases entries.len(),
{
    if entries.len() == 0 {
        Seq::empty()
    } else {
        let prev = dropped_entries(entries.drop_last(), last, field);
        let e = entries.last();
        if is_dropped(last, field, e.0) {
            prev.push(e)
        } else {
            prev
        }
    }
}

/// The payloads of reliable packets that await acknowledgement, in the order sent.
#[derive(Debug, Default)]
pub struct LocalAckRecord {
    packets: Vec<(u16, Vec<u8>)>,
}

/// The sequence number and bytes of each entry.
pub open spec fn entries_view(packets: Seq<(u16, Vec<u8>)>) -> Seq<SentEntry> {
    packets.map_values(|e: (u16, Vec<u8>)| (e.0, e.1@))
}

impl View for LocalAckRecord {
    type V = Seq<SentEntry>;

    closed spec fn view(&self) -> Seq<SentEntry> {
        entries_view(self.packets@)
    }
}

/// A copy of `bytes`.
pub fn copy_bytes(bytes: &[u8]) -> (r: Vec<u8>)
    ensures
        r@ == bytes@,
{
    let mut r: Vec<u8> = Vec::new();
    crate::wire::extend_bytes(&mut r, bytes);
    assert(r@ =~= bytes@);
    r
}

impl LocalAckRecord {
    /// An empty record.
    pub fn new() -> (r: Self)
        ensures
            r@ == Seq::<SentEntry>::empty(),
    {
        let r = LocalAckRecord { packets: Vec::new() };
        assert(r@ =~= Seq::<SentEntry>::empty());
        r
    }

    /// Whether no packet awaits acknowledgement.
    pub fn is_empty(&self) -> (r: bool)
        ensures
            r == (self@.len() == 0),
    {
        self.packets.len() == 0
    }

    /// The number of packets awaiting acknowledgement.
    pub fn len(&self) -> (r: usize)
        ensures
            r == self@.len(),
    {
        self.packets.len()
    }

    /// Records that `payload` was sent as sequence `sequence_num`.
    pub fn enqueue(&mut self, sequence_num: u16, payload: &[u8])
        ensures
            final(self)@ == old(self)@.push((sequence_num, payload@)),
    {
        let copy = copy_bytes(payload);
        self.packets.push((sequence_num, copy));
        assert(self@ =~= old(self)@.push((sequence_num, payload@)));
    }

    /// Applies the peer's acknowledgement `(last_acked, ack_field)`: forgets
    /// every acknowledged packet, and removes and returns every dropped one.
    pub fn ack(&mut self, last_acked: u16, ack_field: u32) -> (r: Vec<(u16, Vec<u8>)>)
        ensures
            final(self)@ == still_pending(old(self)@, last_acked, ack_field),
            entries_view(r@) == dropped_entries(old(self)@, last_acked, ack_field),
    {
        let mut old_packets: Vec<(u16, Vec<u8>)> = Vec::new();
        core::mem::swap(&mut self.packets, &mut old_packets);
        let ghost entries = entries_view(old_packets@);
        let mut kept: Vec<(u16, Vec<u8>)> = Vec::new();
        let mut dropped: Vec<(u16, Vec<u8>)> = Vec::new();
        let mut i: usize = 0;
        while i < old_packets.len()
            invariant
                i <= old_packets@.len(),
                entries == entries_view(old_packets@),
                entries_view(kept@) == still_pending(entries.take(i as int), last_acked, ack_field),
                entries_view(dropped@) == dropped_entries(
                    entries.take(i as int),
                    last_acked,
                    ack_field,
                ),
            decreases old_packets@.len() - i,
        {
            let seq = old_packets[i].0;
            let payload = copy_bytes(old_packets[i].1.as_slice());
            let d = distance_forward(seq, last_acked);
            assert(entries.take(i + 1).drop_last() =~= entries.take(i as int));
            assert(entries.take(i + 1).last() == (seq, payload@));
            if d == 0 {
            } else if d <= 32 {
                let shift: u32 = (d - 1) as u32;
                if ack_field & (1u32 << shift) == 0 {
                    dropped.push((seq, payload));
                    assert(entries_view(dropped@) =~= dropped_entries(
                        entries.take(i + 1),
                        last_acked,
                        ack_field,
                    ));
                }
            } else {
                kept.push((seq, payload));
                assert(entries_view(kept@) =~= still_pending(
                    entries.take(i + 1),
                    last_acked,
                    ack_field,
                ));
            }
            i = i + 1;
        }
        assert(entries.take(i as int) =~= entries);
        self.packets = kept;
        dropped
    }
}

/// Dropped-packet detection: the entries returned as dropped are exactly the
/// recorded ones whose sequence lies in the 32 sequences behind `last_acked`
/// and whose bit in `ack_field` is unset; every other unacknowledged entry
/// stays recorded.
pub proof fn lemma_dropped_exactly(entries: Seq<SentEntry>, last_acked: u16, ack_field: u32)
    ensures
        forall|e: SentEntry| #[trigger]
            dropped_entries(entries, last_acked, ack_field).contains(e) <==> (entries.contains(e)
                && is_dropped(last_acked, ack_field, e.0)),
        forall|e: SentEntry| #[trigger]
            still_pending(entries, last_acked, ack_field).contains(e) <==> (entries.contains(e)
                && !is_acked(last_acked, ack_field, e.0) && !is_dropped(last_acked, ack_field, e.0)),
    decreases entries.len(),
{
    if entries.len() > 0 {
        let prev = entries.drop_last();
        lemma_dropped_exactly(prev, last_acked, ack_field);
        assert(entries =~= prev.push(entries.last()));
        assert forall|e: SentEntry| #[trigger] entries.contains(e) <==> (prev.contains(e) || e
            == entries.last()) by {
            if entries.contains(e) {
                let k = choose|k: int| 0 <= k < entries.len() && entries[k] == e;
                if k < entries.len() - 1 {
                    assert(prev[k] == e);
                }
            }
            if prev.contains(e) {
                let k = choose|k: int| 0 <= k < prev.len() && prev[k] == e;
                assert(entries[k] == e);
            }
            if e == entries.last() {
                assert(entries[entries.len() - 1] == e);
            }
        }
        let dp = dropped_entries(prev, last_acked, ack_field);
        let sp = still_pending(prev, last_acked, ack_field);
        assert forall|e: SentEntry| #[trigger] dp.push(entries.last()).contains(e) <==> (dp.contains(e) || e
            == entries.last()) by {
            let q = dp.push(entries.last());
            if q.contains(e) {
                let k = choose|k: int| 0 <= k < q.len() && q[k] == e;
                if k < q.len() - 1 {
                    assert(dp[k] == e);
                }
            }
            if dp.contains(e) {
                let k = choose|k: int| 0 <= k < dp.len() && dp[k] == e;
                assert(q[k] == e);
            }
            if e == entries.last() {
                assert(q[q.len() - 1] == e);
            }
        }
        assert forall|e: SentEntry| #[trigger] sp.push(entries.last()).contains(e) <==> (sp.contains(e) || e
            == entries.last()) by {
            let q = sp.push(entries.last());
            if q.contains(e) {
                let k = choose|k: int| 0 <= k < q.len() && q[k] == e;
                if k < q.len() - 1 {
                    assert(sp[k] == e);
                }
            }
            if sp.contains(e) {
                let k = choose|k: int| 0 <= k < sp.len() && sp[k] == e;
                assert(q[k] == e);
            }
            if e == entries.last() {
                assert(q[q.len() - 1] == e);
            }
        }
    }
}

} // verus!
