//! A ring of congestion samples keyed by sequence number.
use vstd::prelude::*;

verus! {

/// The number of slots in the ring.
pub const SEQUENCE_BUFFER_SIZE: usize = 1024;

/// When a reliable packet was sent.
#[derive(Clone, Copy, Debug, PartialEq, Eq, Structural)]
pub struct CongestionData {
    /// The packet's sequence number.
    pub sequence_num: u16,
    /// When it was sent, in milliseconds.
    pub sending_time: u64,
}

impl CongestionData {
    /// A sample for `sequence_num` sent at `sending_time`.
    pub fn new(sequence_num: u16, sending_time: u64) -> (r: Self)
        ensures
            r == (CongestionData { sequence_num, sending_time }),
    {
        CongestionData { sequence_num, sending_time }
    }
}

/// The slot that sequence `s` goes to.
pub open spec fn slot_of(s: u16) -> int {
    s as int % SEQUENCE_BUFFER_SIZE as int
}

/// A fixed ring that keeps, for each slot, the latest sample stored there.
pub struct SequenceBuffer {
    entries: [Option<CongestionData>; 1024],
}

impl View for SequenceBuffer {
    type V = Seq<Option<CongestionData>>;

    closed spec fn view(&self) -> Seq<Option<CongestionData>> {
        self.entries@
    }
}


impl SequenceBuffer {
    /// What the ring holds for sequence `s`.
    pub open spec fn spec_get(&self, s: u16) -> Option<CongestionData> {
        match self@[slot_of(s)] {
            Some(d) => if d.sequence_num == s {
                Some(d)
            } else {
                None
            },
            None => None,
        }
    }

    /// An empty ring.
    pub fn new() -> (r: Self)
        ensures
            r@.len() == SEQUENCE_BUFFER_SIZE,
            forall|i: int| 0 <= i < SEQUENCE_BUFFER_SIZE ==> #[trigger] r@[i] is None,
    {
        SequenceBuffer { entries: [None; 1024] }
    }

    /// Stores `data` for sequence `sequence_num`, replacing what its slot held.
    pub fn insert(&mut self, data: CongestionData, sequence_num: u16)
        requires
            data.sequence_num == sequence_num,
        ensures
            final(self)@ == old(self)@.update(slot_of(sequence_num), Some(data)),
            final(self).spec_get(sequence_num) == Some(data),
    {
        let slot = sequence_num as usize % SEQUENCE_BUFFER_SIZE;
        self.entries[slot] = Some(data);
    }

    /// The sample stored for `sequence_num`, if its slot still holds it.
    pub fn get(&self, sequence_num: u16) -> (r: Option<CongestionData>)
        ensures
            r == self.spec_get(sequence_num),
    {
        let slot = sequence_num as usize % SEQUENCE_BUFFER_SIZE;
        match self.entries[slot] {
            Some(d) => if d.sequence_num == sequence_num {
                Some(d)
            } else {
                None
            },
            None => None,
        }
    }
}

} // verus!
