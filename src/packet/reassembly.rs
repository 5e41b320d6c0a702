//! Collecting the fragments of packets until each is whole.
use vstd::prelude::*;
use crate::errors::{FragmentError, LaminarError};
use crate::packet::processed::concat;
use crate::wire::extend_bytes;

verus! {

/// A packet in reassembly: its sequence, its fragment count, and the
/// fragments received so far, by id.
pub type PartialPacket = (u16, u8, Seq<Option<Seq<u8>>>);

/// Every fragment has arrived.
pub open spec fn is_complete(parts: Seq<Option<Seq<u8>>>) -> bool {
    forall|k: int| 0 <= k < parts.len() ==> #[trigger] parts[k] is Some
}

/// The fragments joined in id order.
pub open spec fn joined(parts: Seq<Option<Seq<u8>>>) -> Seq<u8> {
    concat(parts.map_values(|p: Option<Seq<u8>>| p->0))
}

/// The first position in `sets` of a packet with sequence `s`, if any.
pub open spec fn position_of(sets: Seq<PartialPacket>, s: u16) -> Option<int> {
    if exists|i: int| 0 <= i < sets.len() && #[trigger] sets[i].0 == s {
        Some(
            choose|i: int|
                0 <= i < sets.len() && #[trigger] sets[i].0 == s && forall|j: int|
                    0 <= j < i ==> #[trigger] sets[j].0 != s,
        )
    } else {
        None
    }
}

/// The reassembly state after fragment `id` of `num_fragments` of packet
/// `s`, carrying `chunk`, arrives; and what that arrival yields.
pub open spec fn add_step(
    sets: Seq<PartialPacket>,
    s: u16,
    id: u8,
    num_fragments: u8,
    chunk: Seq<u8>,
) -> (Seq<PartialPacket>, Result<Option<Seq<u8>>, LaminarError>) {
    let bad = Err(LaminarError::FragmentError(FragmentError::PacketHeaderNotFound));
    if num_fragments == 0 || id >= num_fragments {
        (sets, bad)
    } else {
        match position_of(sets, s) {
            None => {
                let parts = Seq::new(num_fragments as nat, |k: int| None::<Seq<u8>>).update(
                    id as int,
                    Some(chunk),
                );
                if is_complete(parts) {
                    (sets, Ok(Some(joined(parts))))
                } else {
                    (sets.push((s, num_fragments, parts)), Ok(None))
                }
            },
            Some(i) => {
                if sets[i].1 != num_fragments || id >= sets[i].2.len() {
                    (sets, bad)
                } else {
                    let parts = sets[i].2.update(id as int, Some(chunk));
                    if is_complete(parts) {
                        (sets.remove(i), Ok(Some(joined(parts))))
                    } else {
                        (sets.update(i, (s, num_fragments, parts)), Ok(None))
                    }
                }
            },
        }
    }
}

struct FragmentSet {
    sequence_num: u16,
    num_fragments: u8,
    parts: Vec<Option<Vec<u8>>>,
}

spec fn parts_view(parts: Seq<Option<Vec<u8>>>) -> Seq<Option<Seq<u8>>> {
    parts.map_values(
        |p: Option<Vec<u8>>|
            match p {
                Some(v) => Some(v@),
                None => None,
            },
    )
}

spec fn set_view(f: FragmentSet) -> PartialPacket {
    (f.sequence_num, f.num_fragments, parts_view(f.parts@))
}

/// The packets whose fragments are being collected.
pub struct Reassembly {
    sets: Vec<FragmentSet>,
}

impl View for Reassembly {
    type V = Seq<PartialPacket>;

    closed spec fn view(&self) -> Seq<PartialPacket> {
        self.sets@.map_values(|f: FragmentSet| set_view(f))
    }
}

impl Reassembly {
    /// Nothing in reassembly.
    pub fn new() -> (r: Self)
        ensures
            r@ == Seq::<PartialPacket>::empty(),
    {
        let r = Reassembly { sets: Vec::new() };
        assert(r@ =~= Seq::<PartialPacket>::empty());
        r
    }

    /// The number of packets in reassembly.
    pub fn len(&self) -> (r: usize)
        ensures
            r == self@.len(),
    {
        self.sets.len()
    }

    /// Takes fragment `id` of `num_fragments` of packet `sequence_num`. Returns
    /// the whole payload once every fragment of that packet has arrived.
    pub fn add(&mut self, sequence_num: u16, id: u8, num_fragments: u8, chunk: &[u8]) -> (r: Result<
        Option<Vec<u8>>,
        LaminarError,
    >)
        ensures
            final(self)@ == add_step(old(self)@, sequence_num, id, num_fragments, chunk@).0,
            match r {
                Ok(Some(v)) => add_step(old(self)@, sequence_num, id, num_fragments, chunk@).1
                    == Ok::<Option<Seq<u8>>, LaminarError>(Some(v@)),
                Ok(None) => add_step(old(self)@, sequence_num, id, num_fragments, chunk@).1
                    == Ok::<Option<Seq<u8>>, LaminarError>(None),
                Err(e) => add_step(old(self)@, sequence_num, id, num_fragments, chunk@).1
                    == Err::<Option<Seq<u8>>, LaminarError>(e),
            },
    {
        let ghost sets = self@;
        if num_fragments == 0 || id >= num_fragments {
            return Err(LaminarError::FragmentError(FragmentError::PacketHeaderNotFound));
        }
        let mut chunk_copy: Vec<u8> = Vec::new();
        extend_bytes(&mut chunk_copy, chunk);
        // find the packet's set
        let mut i: usize = 0;
        while i < self.sets.len() && self.sets[i].sequence_num != sequence_num
            invariant
                i <= self.sets@.len(),
                sets == self@,
                forall|j: int| 0 <= j < i ==> #[trigger] sets[j].0 != sequence_num,
            decreases self.sets@.len() - i,
        {
            i = i + 1;
        }
        if i == self.sets.len() {
            proof {
                assert(!exists|j: int| 0 <= j < sets.len() && #[trigger] sets[j].0 == sequence_num);
            }
            let mut parts: Vec<Option<Vec<u8>>> = Vec::new();
            let mut k: u8 = 0;
            while k < num_fragments
                invariant
                    k <= num_fragments,
                    parts@.len() == k,
                    forall|m: int| 0 <= m < k ==> #[trigger] parts@[m] is None,
                decreases num_fragments - k,
            {
                parts.push(None);
                k = k + 1;
            }
            parts.set(id as usize, Some(chunk_copy));
            let ghost pv = Seq::new(num_fragments as nat, |k: int| None::<Seq<u8>>).update(
                id as int,
                Some(chunk@),
            );
            assert(parts_view(parts@) =~= pv);
            let set = FragmentSet { sequence_num, num_fragments, parts };
            let (complete, joined) = Self::try_join(&set.parts);
            if complete {
                Ok(Some(joined))
            } else {
                self.sets.push(set);
                assert(self@ =~= sets.push((sequence_num, num_fragments, pv)));
                Ok(None)
            }
        } else {
            proof {
                let p = position_of(sets, sequence_num);
                assert(sets[i as int].0 == sequence_num);
                let c = p->0;
                assert(c == i) by {
                    if c < i {
                        assert(sets[c].0 != sequence_num);
                    }
                    if c > i {
                        assert(sets[i as int].0 != sequence_num);
                    }
                };
            }
            if self.sets[i].num_fragments != num_fragments || id as usize >= self.sets[i].parts.len() {
                return Err(LaminarError::FragmentError(FragmentError::PacketHeaderNotFound));
            }
            let mut set = self.sets.remove(i);
            assert(self@ =~= sets.remove(i as int));
            set.parts.set(id as usize, Some(chunk_copy));
            let ghost pv = sets[i as int].2.update(id as int, Some(chunk@));
            assert(parts_view(set.parts@) =~= pv);
            let (complete, joined) = Self::try_join(&set.parts);
            if complete {
                Ok(Some(joined))
            } else {
                self.sets.insert(i, set);
                assert(self@ =~= sets.update(i as int, (sequence_num, num_fragments, pv)));
                Ok(None)
            }
        }
    }

    /// Whether every part is present and, if so, the parts joined in order.
    fn try_join(parts: &Vec<Option<Vec<u8>>>) -> (r: (bool, Vec<u8>))
        ensures
            r.0 == is_complete(parts_view(parts@)),
            r.0 ==> r.1@ == joined(parts_view(parts@)),
    {
        let ghost pv = parts_view(parts@);
        let ghost bodies = pv.map_values(|p: Option<Seq<u8>>| p->0);
        let mut out: Vec<u8> = Vec::new();
        let mut k: usize = 0;
        while k < parts.len()
            invariant
                k <= parts@.len(),
                pv == parts_view(parts@),
                bodies == pv.map_values(|p: Option<Seq<u8>>| p->0),
                forall|m: int| 0 <= m < k ==> #[trigger] pv[m] is Some,
                out@ == concat(bodies.take(k as int)),
            decreases parts@.len() - k,
        {
            match &parts[k] {
                Some(v) => {
                    extend_bytes(&mut out, v.as_slice());
                    assert(bodies.take(k + 1).drop_last() =~= bodies.take(k as int));
                },
                None => {
                    return (false, out);
                },
            }
            k = k + 1;
        }
        assert(bodies.take(k as int) =~= bodies);
        (true, out)
    }
}

} // verus!
