//! The framed headers that prefix every datagram, and a cursor to read them.
use vstd::prelude::*;
use crate::errors::LaminarError;
use crate::net::delivery_method::lemma_delivery_method_round_trip;
use crate::packet::packet_type::lemma_packet_type_round_trip;
use crate::wire::{extend_bytes, lemma_u16_round_trip, lemma_u32_round_trip, u16_bytes, u32_bytes};
use self::fragment::FragmentHeader;
use self::reliable::ReliableHeader;
use self::standard::StandardHeader;

pub mod acked;
pub mod fragment;
pub mod heart_beat;
pub mod reliable;
pub mod standard;

verus! {

/// A read position within a byte slice.
pub struct Cursor<'a> {
    bytes: &'a [u8],
    position: usize,
}

impl<'a> Cursor<'a> {
    /// All the bytes the cursor reads from.
    pub closed spec fn data(&self) -> Seq<u8> {
        self.bytes@
    }

    /// The current read position.
    pub closed spec fn pos(&self) -> nat {
        self.position as nat
    }

    /// The bytes from the read position on.
    pub open spec fn rest(&self) -> Seq<u8> {
        if self.pos() <= self.data().len() {
            self.data().subrange(self.pos() as int, self.data().len() as int)
        } else {
            Seq::empty()
        }
    }

    /// A cursor at the start of `bytes`.
    pub fn new(bytes: &'a [u8]) -> (r: Self)
        ensures
            r.data() == bytes@,
            r.pos() == 0,
            r.rest() == bytes@,
    {
        let r = Cursor { bytes, position: 0 };
        assert(r.rest() =~= bytes@);
        r
    }

    /// The current read position.
    pub fn position(&self) -> (r: usize)
        ensures
            r == self.pos(),
    {
        self.position
    }

    /// The number of bytes left from the read position on.
    pub fn remaining_len(&self) -> (r: usize)
        ensures
            r == self.rest().len(),
    {
        if self.position <= self.bytes.len() {
            self.bytes.len() - self.position
        } else {
            0
        }
    }

    /// Takes the next `n` bytes, or nothing if fewer are left.
    pub fn take(&mut self, n: usize) -> (r: Option<&'a [u8]>)
        ensures
            final(self).data() == old(self).data(),
            r is Some <==> old(self).pos() + n <= old(self).data().len(),
            n > 0 ==> (r is Some <==> n <= old(self).rest().len()),
            r is Some ==> r->0@ == old(self).rest().take(n as int) && final(self).pos() == old(
                self,
            ).pos() + n && final(self).rest() == old(self).rest().skip(n as int),
            r is None ==> final(self).pos() == old(self).pos(),
    {
        if self.position <= self.bytes.len() && n <= self.bytes.len() - self.position {
            let start = self.position;
            let taken = slice_range(self.bytes, start, start + n);
            self.position = start + n;
            assert(taken@ =~= old(self).rest().take(n as int));
            assert(self.rest() =~= old(self).rest().skip(n as int));
            Some(taken)
        } else {
            None
        }
    }

    /// Appends every byte from the read position on to `buffer`, and moves to the end.
    pub fn read_to_end(&mut self, buffer: &mut Vec<u8>) -> (r: usize)
        ensures
            final(self).data() == old(self).data(),
            final(self).rest().len() == 0,
            final(buffer)@ == old(buffer)@ + old(self).rest(),
            r == old(self).rest().len(),
    {
        let n = self.remaining_len();
        match self.take(n) {
            Some(rest) => {
                extend_bytes(buffer, rest);
                n
            },
            None => 0,
        }
    }
}

/// The bytes `bytes[start..end]`.
pub fn slice_range<'b>(bytes: &'b [u8], start: usize, end: usize) -> (r: &'b [u8])
    requires
        start <= end <= bytes@.len(),
    ensures
        r@ == bytes@.subrange(start as int, end as int),
{
    vstd::slice::slice_subrange(bytes, start, end)
}

/// A header that can be written to a buffer.
pub trait HeaderWriter {
    /// The bytes that encode this header.
    spec fn spec_bytes(&self) -> Seq<u8>;

    /// Appends the encoding of this header to `buffer`.
    fn write(&self, buffer: &mut Vec<u8>)
        ensures
            final(buffer)@ == old(buffer)@ + self.spec_bytes(),
    ;
}

/// A header that can be read from the front of a byte sequence.
pub trait HeaderReader: Sized {
    /// The number of bytes the header takes.
    spec fn spec_size() -> nat;

    /// What reading the header from the front of `bytes` gives.
    spec fn spec_read(bytes: Seq<u8>) -> Result<Self, LaminarError>;

    /// Reads the header at the cursor, and moves past it on success.
    fn read(rdr: &mut Cursor) -> (r: Result<Self, LaminarError>)
        ensures
            r == Self::spec_read(old(rdr).rest()),
            final(rdr).data() == old(rdr).data(),
            r is Ok ==> final(rdr).rest() == old(rdr).rest().skip(Self::spec_size() as int),
    ;

    /// The number of bytes the header takes.
    fn size(&self) -> (r: usize)
        ensures
            r == Self::spec_size(),
    ;
}

/// Decoding what was encoded gives the headers back: a standard header, a
/// fragment header and a reliable header written one after another in front of
/// a payload are each read back unchanged, and the payload follows them.
pub proof fn lemma_header_round_trip(
    standard: StandardHeader,
    fragment: FragmentHeader,
    reliable: ReliableHeader,
    payload: Seq<u8>,
)
    ensures
        ({
            let bytes = standard.spec_bytes() + fragment.spec_bytes() + reliable.spec_bytes()
                + payload;
            &&& StandardHeader::spec_read(bytes) == Ok::<StandardHeader, LaminarError>(standard)
            &&& FragmentHeader::spec_read(bytes.skip(8)) == Ok::<FragmentHeader, LaminarError>(
                fragment,
            )
            &&& ReliableHeader::spec_read(bytes.skip(10)) == Ok::<ReliableHeader, LaminarError>(
                reliable,
            )
            &&& bytes.skip(16) == payload
        }),
{
    let bytes = standard.spec_bytes() + fragment.spec_bytes() + reliable.spec_bytes() + payload;
    lemma_u32_round_trip(standard.protocol_version);
    lemma_u16_round_trip(standard.sequence_num);
    lemma_u16_round_trip(reliable.last_acked);
    lemma_u32_round_trip(reliable.ack_field);
    lemma_packet_type_round_trip(standard.packet_type);
    lemma_delivery_method_round_trip(standard.delivery_method);
    assert(bytes.skip(16) =~= payload);
    assert(bytes.skip(8).len() >= 2);
    assert(bytes.skip(8)[0] == fragment.id);
    assert(bytes.skip(8)[1] == fragment.num_fragments);
    let rb = bytes.skip(10);
    assert(rb[0] == u16_bytes(reliable.last_acked)[0]);
    assert(rb[1] == u16_bytes(reliable.last_acked)[1]);
    assert(rb[2] == u32_bytes(reliable.ack_field)[0]);
    assert(rb[3] == u32_bytes(reliable.ack_field)[1]);
    assert(rb[4] == u32_bytes(reliable.ack_field)[2]);
    assert(rb[5] == u32_bytes(reliable.ack_field)[3]);
    assert(bytes[5] == crate::net::delivery_method::delivery_method_id(standard.delivery_method));
    assert(bytes[4] == crate::packet::packet_type::packet_type_id(standard.packet_type));
}

} // verus!
