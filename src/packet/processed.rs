//! A packet ready to go out: its datagrams, fragmented where the payload is large.
use vstd::prelude::*;
use crate::address::SocketAddress;
use crate::errors::{LaminarError, PacketError};
use crate::packet::Packet;
use crate::packet::headers::HeaderWriter;
use crate::packet::headers::fragment::FragmentHeader;
use crate::packet::headers::reliable::ReliableHeader;
use crate::packet::headers::standard::StandardHeader;
use crate::packet::packet_type::PacketType;
use crate::protocol_version::local_crc32;
use crate::net::delivery_method::DeliveryMethod;
use crate::wire::extend_bytes;

verus! {

/// The number of fragments of at most `fragment_size` bytes that `len` bytes need.
pub open spec fn fragment_count(len: nat, fragment_size: nat) -> nat
    recommends
        fragment_size > 0,
{
    ((len + fragment_size - 1) / fragment_size as int) as nat
}

/// The bytes of fragment `i` of `payload`.
pub open spec fn fragment_chunk(payload: Seq<u8>, fragment_size: nat, i: nat) -> Seq<u8> {
    let start = i * fragment_size;
    let end = if start + fragment_size <= payload.len() {
        start + fragment_size
    } else {
        payload.len()
    };
    payload.subrange(start as int, end as int)
}

/// The contents of each buffer in `buffers`.
pub open spec fn views(buffers: Seq<Vec<u8>>) -> Seq<Seq<u8>> {
    buffers.map_values(|b: Vec<u8>| b@)
}

/// The encoding of an optional reliable header.
pub open spec fn reliability_bytes(reliability: Option<ReliableHeader>) -> Seq<u8> {
    match reliability {
        Some(h) => h.spec_bytes(),
        None => Seq::empty(),
    }
}

/// The local standard header of a datagram.
pub open spec fn local_standard_header(
    delivery_method: DeliveryMethod,
    packet_type: PacketType,
    sequence_num: u16,
) -> StandardHeader {
    StandardHeader { protocol_version: local_crc32(), packet_type, delivery_method, sequence_num }
}

/// The datagrams that carry `payload` as packet `sequence_num`, split into
/// fragments of `fragment_size` bytes when it does not fit in one.
pub open spec fn datagrams(
    sequence_num: u16,
    delivery_method: DeliveryMethod,
    reliability: Option<ReliableHeader>,
    payload: Seq<u8>,
    fragment_size: nat,
) -> Seq<Seq<u8>> {
    let n = fragment_count(payload.len(), fragment_size);
    if n <= 1 {
        seq![
            local_standard_header(delivery_method, PacketType::Packet, sequence_num).spec_bytes()
                + reliability_bytes(reliability) + payload,
        ]
    } else {
        Seq::new(
            n,
            |i: int|
                local_standard_header(
                    delivery_method,
                    PacketType::Fragment,
                    sequence_num,
                ).spec_bytes() + (FragmentHeader { id: i as u8, num_fragments: n as u8 }).spec_bytes()
                    + reliability_bytes(reliability) + fragment_chunk(
                    payload,
                    fragment_size,
                    i as nat,
                ),
        )
    }
}

/// A packet with its sequence number and, for reliable delivery, the
/// acknowledgements to send along.
pub struct ProcessedPacket {
    sequence_num: u16,
    packet: Packet,
    reliability: Option<ReliableHeader>,
}

impl ProcessedPacket {
    /// The sequence number the packet goes out with.
    pub closed spec fn spec_sequence_num(&self) -> u16 {
        self.sequence_num
    }

    /// The packet itself.
    pub closed spec fn spec_packet(&self) -> Packet {
        self.packet
    }

    /// The reliable header to send along, if any.
    pub closed spec fn spec_reliability(&self) -> Option<ReliableHeader> {
        self.reliability
    }

    /// The datagrams of this packet with fragments of `fragment_size` bytes.
    pub open spec fn spec_datagrams(&self, fragment_size: nat) -> Seq<Seq<u8>> {
        datagrams(
            self.spec_sequence_num(),
            self.spec_packet().spec_delivery_method(),
            self.spec_reliability(),
            self.spec_packet().spec_payload(),
            fragment_size,
        )
    }

    /// Bundles `packet` with its sequence number and optional reliable header.
    pub fn new(sequence_num: u16, packet: Packet, reliability: Option<ReliableHeader>) -> (r: Self)
        ensures
            r.spec_sequence_num() == sequence_num,
            r.spec_packet() == packet,
            r.spec_reliability() == reliability,
    {
        ProcessedPacket { sequence_num, packet, reliability }
    }

    /// The peer the packet goes to.
    pub fn address(&self) -> (r: SocketAddress)
        ensures
            r == self.spec_packet().spec_address(),
    {
        self.packet.address()
    }

    /// The sequence number the packet goes out with.
    pub fn sequence_num(&self) -> (r: u16)
        ensures
            r == self.spec_sequence_num(),
    {
        self.sequence_num
    }

    /// The datagrams to send, in fragment order. Fails when the payload needs
    /// more than `max_fragments` fragments of `fragment_size` bytes.
    pub fn fragments(&self, fragment_size: u16, max_fragments: u8) -> (r: Result<
        Vec<Vec<u8>>,
        LaminarError,
    >)
        requires
            fragment_size > 0,
        ensures
            fragment_count(self.spec_packet().spec_payload().len(), fragment_size as nat)
                > max_fragments ==> r == Err::<Vec<Vec<u8>>, LaminarError>(
                LaminarError::PacketError(PacketError::ExceededMaxFragments),
            ),
            fragment_count(self.spec_packet().spec_payload().len(), fragment_size as nat)
                <= max_fragments ==> r is Ok && views(r->Ok_0@) == self.spec_datagrams(
                fragment_size as nat,
            ),
    {
        let payload = self.packet.payload();
        let num_fragments = total_fragments_needed(payload.len(), fragment_size);
        if num_fragments > max_fragments as usize {
            return Err(LaminarError::PacketError(PacketError::ExceededMaxFragments));
        }
        let mut out: Vec<Vec<u8>> = Vec::new();
        if num_fragments <= 1 {
            out.push(self.serialize_unfragmented());
            assert(views(out@) =~= self.spec_datagrams(fragment_size as nat));
        } else {
            self.serialize_fragmented(&mut out, num_fragments as u8, fragment_size);
        }
        Ok(out)
    }

    /// The one datagram of a packet that needs no fragmenting.
    fn serialize_unfragmented(&self) -> (r: Vec<u8>)
        ensures
            r@ == local_standard_header(
                self.spec_packet().spec_delivery_method(),
                PacketType::Packet,
                self.spec_sequence_num(),
            ).spec_bytes() + reliability_bytes(self.spec_reliability())
                + self.spec_packet().spec_payload(),
    {
        let standard_header = StandardHeader::new(
            self.packet.delivery_method(),
            PacketType::Packet,
            self.sequence_num,
        );
        let mut buffer: Vec<u8> = Vec::new();
        standard_header.write(&mut buffer);
        match self.reliability {
            Some(h) => h.write(&mut buffer),
            None => {},
        }
        extend_bytes(&mut buffer, self.packet.payload());
        buffer
    }

    /// Appends the `num_fragments` datagrams of a fragmented packet to `out`.
    fn serialize_fragmented(&self, out: &mut Vec<Vec<u8>>, num_fragments: u8, fragment_size: u16)
        requires
            old(out)@.len() == 0,
            fragment_size > 0,
            num_fragments > 1,
            num_fragments == fragment_count(
                self.spec_packet().spec_payload().len(),
                fragment_size as nat,
            ),
        ensures
            views(final(out)@) == self.spec_datagrams(fragment_size as nat),
    {
        let ghost spec_out = self.spec_datagrams(fragment_size as nat);
        let payload = self.packet.payload();
        let standard_header = StandardHeader::new(
            self.packet.delivery_method(),
            PacketType::Fragment,
            self.sequence_num,
        );
        proof {
            lemma_fragment_bounds(payload@.len(), fragment_size as nat, num_fragments as nat);
        }
        let mut fragment_id: u8 = 0;
        while fragment_id < num_fragments
            invariant
                fragment_id <= num_fragments,
                num_fragments > 1,
                fragment_size > 0,
                payload@ == self.spec_packet().spec_payload(),
                spec_out == self.spec_datagrams(fragment_size as nat),
                spec_out.len() == num_fragments,
                num_fragments == fragment_count(payload@.len(), fragment_size as nat),
                (num_fragments - 1) * fragment_size < payload@.len(),
                payload@.len() <= num_fragments * fragment_size,
                standard_header == local_standard_header(
                    self.spec_packet().spec_delivery_method(),
                    PacketType::Fragment,
                    self.spec_sequence_num(),
                ),
                out@.len() == fragment_id,
                forall|k: int| 0 <= k < fragment_id ==> #[trigger] out@[k]@ == spec_out[k],
            decreases num_fragments - fragment_id,
        {
            let fragment_header = FragmentHeader::new(fragment_id, num_fragments);
            let mut buffer: Vec<u8> = Vec::new();
            standard_header.write(&mut buffer);
            fragment_header.write(&mut buffer);
            match self.reliability {
                Some(h) => h.write(&mut buffer),
                None => {},
            }
            proof {
                lemma_chunk_in_range(
                    payload@.len(),
                    fragment_size as nat,
                    num_fragments as nat,
                    fragment_id as nat,
                );
            }
            let start: usize = fragment_id as usize * fragment_size as usize;
            let mut end: usize = start + fragment_size as usize;
            if end > payload.len() {
                end = payload.len();
            }
            let chunk = crate::packet::headers::slice_range(payload, start, end);
            assert(chunk@ == fragment_chunk(payload@, fragment_size as nat, fragment_id as nat));
            extend_bytes(&mut buffer, chunk);
            assert(buffer@ =~= spec_out[fragment_id as int]);
            out.push(buffer);
            fragment_id = fragment_id + 1;
        }
        assert(views(out@) =~= spec_out);
    }
}

/// The number of fragments of at most `fragment_size` bytes that a payload
/// of `payload_length` bytes needs, rounded up.
pub fn total_fragments_needed(payload_length: usize, fragment_size: u16) -> (r: usize)
    requires
        fragment_size > 0,
    ensures
        r == fragment_count(payload_length as nat, fragment_size as nat),
{
    let whole = payload_length / fragment_size as usize;
    let remainder: usize = if payload_length % fragment_size as usize > 0 {
        1
    } else {
        0
    };
    proof {
        lemma_ceil_div(payload_length as nat, fragment_size as nat);
    }
    whole + remainder
}

/// Rounding up the quotient is the quotient plus one when there is a remainder.
proof fn lemma_ceil_div(len: nat, size: nat)
    requires
        size > 0,
    ensures
        fragment_count(len, size) == len as int / size as int + (if len as int % size as int > 0 {
            1int
        } else {
            0int
        }),
        fragment_count(len, size) <= len,
{
    let l = len as int;
    let s = size as int;
    let q: int = l / s;
    let m: int = l % s;
    vstd::arithmetic::div_mod::lemma_fundamental_div_mod(l, s);
    vstd::arithmetic::div_mod::lemma_mod_bound(l, s);
    let c: int = l + s - 1;
    if m > 0 {
        assert(c == (q + 1) * s + (m - 1)) by (nonlinear_arith)
            requires
                l == s * q + m,
                c == l + s - 1,
        ;
        vstd::arithmetic::div_mod::lemma_fundamental_div_mod_converse(c, s, q + 1, m - 1);
        assert(q + 1 <= l) by (nonlinear_arith)
            requires
                l == s * q + m,
                m > 0,
                s >= 1,
                q >= 0,
        ;
    } else {
        assert(c == q * s + (s - 1)) by (nonlinear_arith)
            requires
                l == s * q + m,
                m == 0,
                c == l + s - 1,
        ;
        vstd::arithmetic::div_mod::lemma_fundamental_div_mod_converse(c, s, q, s - 1);
        assert(q <= l) by (nonlinear_arith)
            requires
                l == s * q,
                s >= 1,
                q >= 0,
        ;
    }
}

/// The fragment count `n` of `len` bytes covers them, with the last fragment non-empty.
proof fn lemma_fragment_bounds(len: nat, size: nat, n: nat)
    requires
        size > 0,
        n == fragment_count(len, size),
    ensures
        len <= n * size,
        n > 0 ==> (n - 1) * size < len,
{
    let s = size as int;
    let c: int = len + s - 1;
    vstd::arithmetic::div_mod::lemma_fundamental_div_mod(c, s);
    vstd::arithmetic::div_mod::lemma_mod_bound(c, s);
    let q: int = c / s;
    let m: int = c % s;
    assert(n == q);
    assert(len <= n * s && (n > 0 ==> (n - 1) * s < len)) by (nonlinear_arith)
        requires
            c == s * q + m,
            0 <= m < s,
            c == len + s - 1,
            n == q,
    ;
}

/// Fragment `i` of a payload split into `n` fragments starts inside it.
proof fn lemma_chunk_in_range(len: nat, size: nat, n: nat, i: nat)
    requires
        size > 0,
        i < n,
        (n - 1) * size < len,
        len <= n * size,
        n <= 255,
        size <= 0xffff,
    ensures
        i * size < len,
        i * size + size <= 0x1000000,
{
    assert(i * size <= (n - 1) * size) by (nonlinear_arith)
        requires
            i <= n - 1,
            size > 0,
    ;
    assert(i * size + size <= 0x1000000) by (nonlinear_arith)
        requires
            i + 1 <= 255,
            size <= 0xffff,
    ;
}

/// The pieces joined in order.
pub open spec fn concat(pieces: Seq<Seq<u8>>) -> Seq<u8>
    decreases pieces.len(),
{
    if pieces.len() == 0 {
        Seq::empty()
    } else {
        concat(pieces.drop_last()) + pieces.last()
    }
}

/// The number of header bytes in front of the payload in each datagram.
pub open spec fn datagram_header_len(
    reliability: Option<ReliableHeader>,
    payload_len: nat,
    fragment_size: nat,
) -> nat {
    if fragment_count(payload_len, fragment_size) <= 1 {
        8 + reliability_bytes(reliability).len()
    } else {
        10 + reliability_bytes(reliability).len()
    }
}

/// The first `k` fragments of a payload, joined, are its first `k * size` bytes.
proof fn lemma_concat_chunks(payload: Seq<u8>, size: nat, k: nat)
    requires
        size > 0,
        k <= fragment_count(payload.len(), size),
    ensures
        concat(Seq::new(k, |i: int| fragment_chunk(payload, size, i as nat))) == payload.subrange(
            0,
            if k * size <= payload.len() {
                (k * size) as int
            } else {
                payload.len() as int
            },
        ),
    decreases k,
{
    let n = fragment_count(payload.len(), size);
    lemma_fragment_bounds(payload.len(), size, n);
    let pieces = Seq::new(k, |i: int| fragment_chunk(payload, size, i as nat));
    if k == 0 {
        assert(payload.subrange(0, 0) =~= Seq::<u8>::empty());
    } else {
        let j = (k - 1) as nat;
        lemma_concat_chunks(payload, size, j);
        assert(pieces.drop_last() =~= Seq::new(j, |i: int| fragment_chunk(payload, size, i as nat)));
        assert(j * size <= (n - 1) * size) by (nonlinear_arith)
            requires
                j <= n - 1,
        ;
        assert(k * size == j * size + size) by (nonlinear_arith)
            requires
                k == j + 1,
        ;
        let end = if k * size <= payload.len() {
            (k * size) as int
        } else {
            payload.len() as int
        };
        assert(payload.subrange(0, (j * size) as int) + payload.subrange((j * size) as int, end)
            =~= payload.subrange(0, end));
    }
}

/// Splitting into datagrams and joining what follows the headers, in fragment
/// order, gives the payload back, whenever the payload fits in the fragments
/// allowed.
pub proof fn lemma_fragmentation_round_trip(
    sequence_num: u16,
    delivery_method: DeliveryMethod,
    reliability: Option<ReliableHeader>,
    payload: Seq<u8>,
    fragment_size: nat,
    max_fragments: u8,
)
    requires
        fragment_size >= 1,
        fragment_count(payload.len(), fragment_size) <= max_fragments,
    ensures
        ({
            let h = datagram_header_len(reliability, payload.len(), fragment_size);
            concat(
                datagrams(sequence_num, delivery_method, reliability, payload, fragment_size).map_values(
                    |d: Seq<u8>| d.skip(h as int),
                ),
            ) == payload
        }),
{
    let n = fragment_count(payload.len(), fragment_size);
    let h = datagram_header_len(reliability, payload.len(), fragment_size);
    let d = datagrams(sequence_num, delivery_method, reliability, payload, fragment_size);
    let bodies = d.map_values(|x: Seq<u8>| x.skip(h as int));
    lemma_fragment_bounds(payload.len(), fragment_size, n);
    if n <= 1 {
        let only = local_standard_header(delivery_method, PacketType::Packet, sequence_num).spec_bytes()
            + reliability_bytes(reliability) + payload;
        assert(only.skip(h as int) =~= payload);
        assert(bodies.drop_last() =~= Seq::<Seq<u8>>::empty());
        assert(concat(bodies) == concat(bodies.drop_last()) + bodies.last());
    } else {
        let chunks = Seq::new(n, |i: int| fragment_chunk(payload, fragment_size, i as nat));
        assert forall|i: int| 0 <= i < n implies #[trigger] bodies[i] == chunks[i] by {
            let hdr = local_standard_header(
                delivery_method,
                PacketType::Fragment,
                sequence_num,
            ).spec_bytes() + (FragmentHeader { id: i as u8, num_fragments: n as u8 }).spec_bytes()
                + reliability_bytes(reliability);
            assert(d[i] == hdr + fragment_chunk(payload, fragment_size, i as nat));
            assert(d[i].skip(h as int) =~= fragment_chunk(payload, fragment_size, i as nat));
        }
        assert(bodies =~= chunks);
        lemma_concat_chunks(payload, fragment_size, n);
        assert(payload.subrange(0, payload.len() as int) =~= payload);
    }
}

} // verus!
