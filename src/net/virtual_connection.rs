//! The state this side keeps for one peer, and how datagrams move it.
use vstd::prelude::*;
use crate::address::SocketAddress;
use crate::config::SocketConfig;
use crate::errors::{LaminarError, PacketError};
use crate::net::delivery_method::DeliveryMethod;
use crate::net::external_ack::{ExternalAcks, ack_step};
use crate::net::local_ack::{LocalAckRecord, SentEntry, copy_bytes, dropped_entries, still_pending};
use crate::net::quality::RttMeasurer;
use crate::packet::Packet;
use crate::packet::headers::{Cursor, HeaderReader};
use crate::packet::headers::fragment::FragmentHeader;
use crate::packet::headers::reliable::ReliableHeader;
use crate::packet::headers::standard::StandardHeader;
use crate::packet::packet_type::PacketType;
use crate::packet::processed::{ProcessedPacket, datagrams, fragment_count, total_fragments_needed, views};
use crate::packet::reassembly::{PartialPacket, Reassembly, add_step};
use crate::protocol_version::{local_crc32, valid_version};
use crate::sequence_buffer::{CongestionData, SequenceBuffer};

verus! {

/// The payloads of the entries.
pub open spec fn payloads_of(entries: Seq<SentEntry>) -> Seq<Seq<u8>> {
    entries.map_values(|e: SentEntry| e.1)
}

/// The bytes in front of the payload of a datagram with standard header `h`.
pub open spec fn header_len(h: StandardHeader) -> nat {
    (if h.packet_type == PacketType::Fragment {
        10nat
    } else {
        8nat
    }) + (if h.delivery_method == DeliveryMethod::ReliableUnordered {
        6nat
    } else {
        0nat
    })
}

/// Whether this transport handles delivery method `m` on arrival.
pub open spec fn is_supported(m: DeliveryMethod) -> bool {
    m == DeliveryMethod::UnreliableUnordered || m == DeliveryMethod::ReliableUnordered
}

/// Why a datagram is refused before any state but the arrival time changes,
/// if it is.
pub open spec fn refusal(bytes: Seq<u8>) -> Option<LaminarError> {
    match StandardHeader::spec_read(bytes) {
        Err(e) => Some(e),
        Ok(h) => if h.protocol_version != local_crc32() {
            Some(LaminarError::ProtocolVersionMismatch)
        } else if !is_supported(h.delivery_method) {
            Some(LaminarError::UnsupportedDeliveryMethod)
        } else if bytes.len() < header_len(h) {
            Some(LaminarError::ReceivedDataTooShort)
        } else {
            None
        },
    }
}

/// What taking datagram `payload` at `now` does to connection `pre`, giving
/// `post` and result `r`.
pub open spec fn incoming_spec(
    pre: VirtualConnection,
    post: VirtualConnection,
    payload: Seq<u8>,
    now: u64,
    r: Result<Option<Packet>, LaminarError>,
) -> bool {
    &&& post.spec_last_packet_time() == now
    &&& post.spec_remote_address() == pre.spec_remote_address()
    &&& post.spec_sequence_num() == pre.spec_sequence_num()
    &&& post.spec_max_packet_size() == pre.spec_max_packet_size()
    &&& refusal(payload) is Some ==> r == Err::<Option<Packet>, LaminarError>(
        refusal(payload)->0,
    ) && post.spec_external_acks() == pre.spec_external_acks()
        && post.spec_local_acks() == pre.spec_local_acks()
        && post.spec_dropped() == pre.spec_dropped()
        && post.spec_reassembly() == pre.spec_reassembly()
    &&& refusal(payload) is None ==> ({
        let h = StandardHeader::spec_read(payload)->Ok_0;
        let body = payload.skip(header_len(h) as int);
        &&& h.delivery_method == DeliveryMethod::ReliableUnordered ==> ({
            let rel = ReliableHeader::spec_read(
                payload.skip(header_len(h) as int - 6),
            )->Ok_0;
            &&& post.spec_external_acks() == ack_step(
                pre.spec_external_acks().0,
                pre.spec_external_acks().1,
                h.sequence_num,
            )
            &&& post.spec_local_acks() == still_pending(
                pre.spec_local_acks(),
                rel.last_acked,
                rel.ack_field,
            )
            &&& post.spec_dropped() == pre.spec_dropped() + payloads_of(
                dropped_entries(pre.spec_local_acks(), rel.last_acked, rel.ack_field),
            )
            &&& post.spec_rtt() == pre.spec_rtt_measurer().spec_rtt(
                pre.spec_congestion(rel.last_acked),
                now,
            )
        })
        &&& h.delivery_method != DeliveryMethod::ReliableUnordered ==> {
            &&& post.spec_external_acks() == pre.spec_external_acks()
            &&& post.spec_local_acks() == pre.spec_local_acks()
            &&& post.spec_dropped() == pre.spec_dropped()
        }
        &&& h.packet_type != PacketType::Fragment ==> {
            &&& post.spec_reassembly() == pre.spec_reassembly()
            &&& r is Ok && r->Ok_0 is Some
            &&& r->Ok_0->Some_0.spec_address() == pre.spec_remote_address()
            &&& r->Ok_0->Some_0.spec_payload() == body
            &&& r->Ok_0->Some_0.spec_delivery_method() == h.delivery_method
        }
        &&& h.packet_type == PacketType::Fragment ==> {
            let f = FragmentHeader::spec_read(payload.skip(8))->Ok_0;
            let step = add_step(
                pre.spec_reassembly(),
                h.sequence_num,
                f.id,
                f.num_fragments,
                body,
            );
            &&& post.spec_reassembly() == step.0
            &&& match step.1 {
                Err(e) => r == Err::<Option<Packet>, LaminarError>(e),
                Ok(None) => r == Ok::<Option<Packet>, LaminarError>(None),
                Ok(Some(whole)) => {
                    &&& r is Ok && r->Ok_0 is Some
                    &&& r->Ok_0->Some_0.spec_address() == pre.spec_remote_address()
                    &&& r->Ok_0->Some_0.spec_payload() == whole
                    &&& r->Ok_0->Some_0.spec_delivery_method() == h.delivery_method
                },
            }
        }
    })
}

/// What preparing `packet` at `now` does to connection `pre`, giving `post`
/// and result `r`.
pub open spec fn outgoing_spec(
    pre: VirtualConnection,
    post: VirtualConnection,
    packet: Packet,
    now: u64,
    r: Result<ProcessedPacket, LaminarError>,
) -> bool {
    &&& post.spec_last_packet_time() == pre.spec_last_packet_time()
    &&& post.spec_remote_address() == pre.spec_remote_address()
    &&& post.spec_max_packet_size() == pre.spec_max_packet_size()
    &&& post.spec_external_acks() == pre.spec_external_acks()
    &&& post.spec_dropped() == pre.spec_dropped()
    &&& post.spec_reassembly() == pre.spec_reassembly()
    &&& post.spec_rtt() == pre.spec_rtt()
    &&& packet.spec_payload().len() > pre.spec_max_packet_size() ==> {
        &&& r == Err::<ProcessedPacket, LaminarError>(
            LaminarError::PacketError(PacketError::ExceededMaxPacketSize),
        )
        &&& post.spec_sequence_num() == pre.spec_sequence_num()
        &&& post.spec_local_acks() == pre.spec_local_acks()
        &&& forall|s: u16| #[trigger] post.spec_congestion(s) == pre.spec_congestion(s)
    }
    &&& packet.spec_payload().len() <= pre.spec_max_packet_size() ==> {
        let seq = pre.spec_sequence_num();
        let reliable = packet.spec_delivery_method() == DeliveryMethod::ReliableUnordered;
        &&& r is Ok
        &&& r->Ok_0.spec_sequence_num() == seq
        &&& r->Ok_0.spec_packet() == packet
        &&& r->Ok_0.spec_reliability() == if reliable {
            Some(
                ReliableHeader {
                    last_acked: pre.spec_external_acks().0,
                    ack_field: pre.spec_external_acks().1,
                },
            )
        } else {
            None
        }
        &&& post.spec_sequence_num() == (seq + 1) % 0x10000
        &&& post.spec_local_acks() == if reliable {
            pre.spec_local_acks().push((seq, packet.spec_payload()))
        } else {
            pre.spec_local_acks()
        }
        &&& reliable ==> post.spec_congestion(seq) == Some(
            CongestionData { sequence_num: seq, sending_time: now },
        )
        &&& !reliable ==> forall|s: u16| #[trigger] post.spec_congestion(s)
            == pre.spec_congestion(s)
    }
}

/// The connection state of one peer.
pub struct VirtualConnection {
    last_packet_time: u64,
    remote_address: SocketAddress,
    max_packet_size_bytes: usize,
    sequence_num: u16,
    local_acks: LocalAckRecord,
    external_acks: ExternalAcks,
    dropped_packets: Vec<Vec<u8>>,
    rtt_measurer: RttMeasurer,
    congestion_data: SequenceBuffer,
    rtt: i128,
    reassembly: Reassembly,
}

impl VirtualConnection {
    /// When a datagram last arrived, in milliseconds.
    pub closed spec fn spec_last_packet_time(&self) -> u64 {
        self.last_packet_time
    }

    /// The peer.
    pub closed spec fn spec_remote_address(&self) -> SocketAddress {
        self.remote_address
    }

    /// The largest payload accepted for sending.
    pub closed spec fn spec_max_packet_size(&self) -> nat {
        self.max_packet_size_bytes as nat
    }

    /// The sequence number the next outgoing packet gets.
    pub closed spec fn spec_sequence_num(&self) -> u16 {
        self.sequence_num
    }

    /// The reliable packets sent and not yet acknowledged or dropped.
    pub closed spec fn spec_local_acks(&self) -> Seq<SentEntry> {
        self.local_acks@
    }

    /// What this side has received from the peer: `(last, field)`.
    pub closed spec fn spec_external_acks(&self) -> (u16, u32) {
        self.external_acks@
    }

    /// The payloads found dropped and not yet drained.
    pub closed spec fn spec_dropped(&self) -> Seq<Seq<u8>> {
        views(self.dropped_packets@)
    }

    /// The round-trip measurer.
    pub closed spec fn spec_rtt_measurer(&self) -> RttMeasurer {
        self.rtt_measurer
    }

    /// The congestion sample the connection keeps for sequence `s`, if any.
    pub closed spec fn spec_congestion(&self, s: u16) -> Option<CongestionData> {
        self.congestion_data.spec_get(s)
    }

    /// The last round-trip estimate, in hundredths of a millisecond.
    pub closed spec fn spec_rtt(&self) -> i128 {
        self.rtt
    }

    /// The packets whose fragments are being collected.
    pub closed spec fn spec_reassembly(&self) -> Seq<PartialPacket> {
        self.reassembly@
    }

    /// A fresh connection to `remote_address`, created at `now` (milliseconds).
    pub fn new(remote_address: SocketAddress, config: &SocketConfig, now: u64) -> (r: Self)
        ensures
            r.spec_last_packet_time() == now,
            r.spec_remote_address() == remote_address,
            r.spec_max_packet_size() == config.spec_max_packet_size_bytes(),
            r.spec_sequence_num() == 0,
            r.spec_local_acks() == Seq::<SentEntry>::empty(),
            r.spec_external_acks() == (0u16, 0u32),
            r.spec_dropped() == Seq::<Seq<u8>>::empty(),
            r.spec_reassembly() == Seq::<PartialPacket>::empty(),
            r.spec_rtt() == 0,
            r.spec_rtt_measurer() == RttMeasurer::new_spec(config),
            forall|s: u16| #[trigger] r.spec_congestion(s) is None,
    {
        let r = VirtualConnection {
            last_packet_time: now,
            remote_address,
            max_packet_size_bytes: config.max_packet_size_bytes(),
            sequence_num: 0,
            local_acks: LocalAckRecord::new(),
            external_acks: ExternalAcks::new(),
            dropped_packets: Vec::new(),
            rtt_measurer: RttMeasurer::new(config),
            congestion_data: SequenceBuffer::new(),
            rtt: 0,
            reassembly: Reassembly::new(),
        };
        assert(views(r.dropped_packets@) =~= Seq::<Seq<u8>>::empty());
        assert forall|s: u16| #[trigger] r.spec_congestion(s) is None by {
            assert(r.congestion_data@[crate::sequence_buffer::slot_of(s)] is None);
        }
        r
    }

    /// Takes one datagram from the peer, received at `now` (milliseconds).
    /// Returns the packet it completes, if any.
    pub fn process_incoming(&mut self, payload: &[u8], now: u64) -> (r: Result<
        Option<Packet>,
        LaminarError,
    >)
        ensures
            incoming_spec(*old(self), *final(self), payload@, now, r),
    {
        self.last_packet_time = now;
        let mut cursor = Cursor::new(payload);
        let standard_header = match StandardHeader::read(&mut cursor) {
            Ok(h) => h,
            Err(e) => return Err(e),
        };
        if !valid_version(standard_header.protocol_version()) {
            return Err(LaminarError::ProtocolVersionMismatch);
        }
        let delivery_method = standard_header.delivery_method();
        let reliable = match delivery_method {
            DeliveryMethod::UnreliableUnordered => false,
            DeliveryMethod::ReliableUnordered => true,
            _ => return Err(LaminarError::UnsupportedDeliveryMethod),
        };
        let is_fragment = standard_header.packet_type() == PacketType::Fragment;
        let needed: usize = if is_fragment {
            10
        } else {
            8
        } + if reliable {
            6
        } else {
            0
        };
        if payload.len() < needed {
            return Err(LaminarError::ReceivedDataTooShort);
        }
        let ghost bytes = payload@;
        assert(cursor.rest() == bytes.skip(8));
        let mut fragment_header = FragmentHeader::new(0, 0);
        if is_fragment {
            match FragmentHeader::read(&mut cursor) {
                Ok(f) => {
                    fragment_header = f;
                },
                Err(e) => return Err(e),
            }
            assert(cursor.rest() =~= bytes.skip(10));
        }
        if reliable {
            let ghost before = cursor.rest();
            let reliable_header = match ReliableHeader::read(&mut cursor) {
                Ok(h) => h,
                Err(e) => return Err(e),
            };
            assert(cursor.rest() =~= bytes.skip(header_len(standard_header) as int));
            self.process_acks(standard_header.sequence_num(), reliable_header, now);
        }
        assert(cursor.rest() =~= bytes.skip(header_len(standard_header) as int));
        let mut body: Vec<u8> = Vec::new();
        cursor.read_to_end(&mut body);
        assert(body@ =~= bytes.skip(header_len(standard_header) as int));
        if is_fragment {
            match self.reassembly.add(
                standard_header.sequence_num(),
                fragment_header.id(),
                fragment_header.fragment_count(),
                body.as_slice(),
            ) {
                Ok(Some(whole)) => Ok(Some(Packet::new(self.remote_address, whole, delivery_method))),
                Ok(None) => Ok(None),
                Err(e) => Err(e),
            }
        } else {
            Ok(Some(Packet::new(self.remote_address, body, delivery_method)))
        }
    }

    /// Applies the acknowledgements a reliable datagram with sequence `sequence_num` carries.
    fn process_acks(&mut self, sequence_num: u16, reliable_header: ReliableHeader, now: u64)
        ensures
            final(self).last_packet_time == old(self).last_packet_time,
            final(self).remote_address == old(self).remote_address,
            final(self).sequence_num == old(self).sequence_num,
            final(self).max_packet_size_bytes == old(self).max_packet_size_bytes,
            final(self).reassembly == old(self).reassembly,
            final(self).rtt_measurer == old(self).rtt_measurer,
            final(self).external_acks@ == ack_step(
                old(self).external_acks@.0,
                old(self).external_acks@.1,
                sequence_num,
            ),
            final(self).local_acks@ == still_pending(
                old(self).local_acks@,
                reliable_header.last_acked,
                reliable_header.ack_field,
            ),
            final(self).spec_dropped() == old(self).spec_dropped() + payloads_of(
                dropped_entries(
                    old(self).local_acks@,
                    reliable_header.last_acked,
                    reliable_header.ack_field,
                ),
            ),
            final(self).rtt == old(self).rtt_measurer.spec_rtt(
                old(self).congestion_data.spec_get(reliable_header.last_acked),
                now,
            ),
            final(self).congestion_data@ == old(self).congestion_data@,
    {
        self.external_acks.ack(sequence_num);
        let sample = self.congestion_data.get(reliable_header.last_acked());
        self.rtt = self.rtt_measurer.get_rtt(sample, now);
        let dropped = self.local_acks.ack(reliable_header.last_acked(), reliable_header.ack_field());
        let ghost found = payloads_of(crate::net::local_ack::entries_view(dropped@));
        let mut copies: Vec<Vec<u8>> = Vec::new();
        let mut i: usize = 0;
        while i < dropped.len()
            invariant
                i <= dropped@.len(),
                found == payloads_of(crate::net::local_ack::entries_view(dropped@)),
                found.len() == dropped@.len(),
                copies@.len() == i,
                views(copies@) == found.take(i as int),
            decreases dropped@.len() - i,
        {
            let copy = copy_bytes(dropped[i].1.as_slice());
            assert(crate::net::local_ack::entries_view(dropped@)[i as int] == (dropped@[i as int].0, dropped@[i as int].1@));
            assert(found[i as int] == dropped@[i as int].1@);
            let ghost prev = copies@;
            copies.push(copy);
            assert forall|k: int| 0 <= k < i + 1 implies #[trigger] views(copies@)[k] == found.take(i + 1)[k] by {
                if k < i {
                    assert(copies@[k] == prev[k]);
                    assert(views(prev)[k] == found.take(i as int)[k]);
                }
            }
            assert(views(copies@) =~= found.take(i + 1));
            i = i + 1;
        }
        assert(found.take(i as int) =~= found);
        let ghost start = self.dropped_packets@;
        let ghost added = copies@;
        self.dropped_packets.append(&mut copies);
        assert(views(self.dropped_packets@) =~= views(start) + views(added));
    }

    /// Prepares `packet` to be sent at `now` (milliseconds): gives it the next
    /// sequence number and, when reliable, records it for acknowledgement and
    /// attaches what this side has received from the peer.
    pub fn process_outgoing(&mut self, packet: Packet, now: u64) -> (r: Result<
        ProcessedPacket,
        LaminarError,
    >)
        ensures
            outgoing_spec(*old(self), *final(self), packet, now, r),
    {
        if packet.payload().len() > self.max_packet_size_bytes {
            return Err(LaminarError::PacketError(PacketError::ExceededMaxPacketSize));
        }
        let reliability_header = match packet.delivery_method() {
            DeliveryMethod::ReliableUnordered => {
                self.congestion_data.insert(
                    CongestionData::new(self.sequence_num, now),
                    self.sequence_num,
                );
                self.local_acks.enqueue(self.sequence_num, packet.payload());
                Some(
                    ReliableHeader::new(
                        self.external_acks.last_acked(),
                        self.external_acks.ack_field(),
                    ),
                )
            },
            _ => None,
        };
        let processed = ProcessedPacket::new(self.sequence_num, packet, reliability_header);
        self.sequence_num = self.sequence_num.wrapping_add(1);
        Ok(processed)
    }

    /// Prepares `packet` to be sent at `now` and returns every datagram to send
    /// to the peer: first the payloads found dropped since the last send, then
    /// the packet's own datagrams with fragments of `fragment_size` bytes.
    /// Fails, changing nothing, when the payload exceeds the maximum packet
    /// size or needs more than `max_fragments` fragments.
    pub fn send_datagrams(
        &mut self,
        packet: Packet,
        fragment_size: u16,
        max_fragments: u8,
        now: u64,
    ) -> (r: Result<Vec<Vec<u8>>, LaminarError>)
        requires
            fragment_size > 0,
        ensures
            ({
                let len = packet.spec_payload().len();
                let seq = old(self).spec_sequence_num();
                let reliable = packet.spec_delivery_method() == DeliveryMethod::ReliableUnordered;
                let reliability = if reliable {
                    Some(
                        ReliableHeader {
                            last_acked: old(self).spec_external_acks().0,
                            ack_field: old(self).spec_external_acks().1,
                        },
                    )
                } else {
                    None
                };
                &&& final(self).spec_last_packet_time() == old(self).spec_last_packet_time()
                &&& final(self).spec_remote_address() == old(self).spec_remote_address()
                &&& final(self).spec_max_packet_size() == old(self).spec_max_packet_size()
                &&& final(self).spec_external_acks() == old(self).spec_external_acks()
                &&& final(self).spec_reassembly() == old(self).spec_reassembly()
                &&& len > old(self).spec_max_packet_size() ==> r == Err::<Vec<Vec<u8>>, LaminarError>(
                    LaminarError::PacketError(PacketError::ExceededMaxPacketSize),
                )
                &&& len <= old(self).spec_max_packet_size() && fragment_count(len, fragment_size as nat)
                    > max_fragments ==> r == Err::<Vec<Vec<u8>>, LaminarError>(
                    LaminarError::PacketError(PacketError::ExceededMaxFragments),
                )
                &&& r is Err ==> {
                    &&& final(self).spec_sequence_num() == seq
                    &&& final(self).spec_local_acks() == old(self).spec_local_acks()
                    &&& final(self).spec_dropped() == old(self).spec_dropped()
                }
                &&& len <= old(self).spec_max_packet_size() && fragment_count(len, fragment_size as nat)
                    <= max_fragments ==> {
                    &&& r is Ok
                    &&& views(r->Ok_0@) == old(self).spec_dropped() + datagrams(
                        seq,
                        packet.spec_delivery_method(),
                        reliability,
                        packet.spec_payload(),
                        fragment_size as nat,
                    )
                    &&& final(self).spec_dropped() == Seq::<Seq<u8>>::empty()
                    &&& final(self).spec_sequence_num() == (seq + 1) % 0x10000
                    &&& final(self).spec_local_acks() == if reliable {
                        old(self).spec_local_acks().push((seq, packet.spec_payload()))
                    } else {
                        old(self).spec_local_acks()
                    }
                    &&& reliable ==> final(self).spec_congestion(seq) == Some(
                        CongestionData { sequence_num: seq, sending_time: now },
                    )
                }
            }),
    {
        if packet.payload().len() > self.max_packet_size_bytes {
            return Err(LaminarError::PacketError(PacketError::ExceededMaxPacketSize));
        }
        if total_fragments_needed(packet.payload().len(), fragment_size) > max_fragments as usize {
            return Err(LaminarError::PacketError(PacketError::ExceededMaxFragments));
        }
        let processed = match self.process_outgoing(packet, now) {
            Ok(p) => p,
            Err(e) => return Err(e),
        };
        let mut out = self.drain_dropped_packets();
        let mut own = match processed.fragments(fragment_size, max_fragments) {
            Ok(d) => d,
            Err(e) => return Err(e),
        };
        let ghost first = out@;
        let ghost second = own@;
        out.append(&mut own);
        assert(views(out@) =~= views(first) + views(second));
        Ok(out)
    }

    /// How long ago, at `now` (milliseconds), the last datagram arrived; zero
    /// if `now` lies before it.
    pub fn time_since_last_packet(&self, now: u64) -> (r: u64)
        ensures
            r == if now >= self.spec_last_packet_time() {
                now - self.spec_last_packet_time()
            } else {
                0
            },
    {
        now.saturating_sub(self.last_packet_time)
    }

    /// The peer's address.
    pub fn remote_address(&self) -> (r: SocketAddress)
        ensures
            r == self.spec_remote_address(),
    {
        self.remote_address
    }

    /// The last round-trip estimate, in hundredths of a millisecond.
    pub fn rtt(&self) -> (r: i128)
        ensures
            r == self.spec_rtt(),
    {
        self.rtt
    }

    /// Whether any payload was found dropped and not drained yet.
    pub fn has_dropped_packets(&self) -> (r: bool)
        ensures
            r == (self.spec_dropped().len() > 0),
    {
        self.dropped_packets.len() > 0
    }

    /// Removes and returns the payloads found dropped, in the order found.
    pub fn drain_dropped_packets(&mut self) -> (r: Vec<Vec<u8>>)
        ensures
            views(r@) == old(self).spec_dropped(),
            final(self).spec_dropped() == Seq::<Seq<u8>>::empty(),
            final(self).spec_last_packet_time() == old(self).spec_last_packet_time(),
            final(self).spec_remote_address() == old(self).spec_remote_address(),
            final(self).spec_max_packet_size() == old(self).spec_max_packet_size(),
            final(self).spec_sequence_num() == old(self).spec_sequence_num(),
            final(self).spec_local_acks() == old(self).spec_local_acks(),
            final(self).spec_external_acks() == old(self).spec_external_acks(),
            final(self).spec_reassembly() == old(self).spec_reassembly(),
            final(self).spec_rtt() == old(self).spec_rtt(),
            forall|s: u16| #[trigger] final(self).spec_congestion(s) == old(self).spec_congestion(s),
    {
        let mut drained: Vec<Vec<u8>> = Vec::new();
        core::mem::swap(&mut self.dropped_packets, &mut drained);
        assert(views(self.dropped_packets@) =~= Seq::<Seq<u8>>::empty());
        drained
    }
}

} // verus!
