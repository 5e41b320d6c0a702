//! A standard header followed by the sender's sequence and its acknowledgements.
use vstd::prelude::*;
use super::{Cursor, HeaderReader, HeaderWriter};
use super::standard::StandardHeader;
use crate::errors::LaminarError;
use crate::wire::{be_u16, be_u32, read_u16, read_u32, u16_bytes, u32_bytes, write_u16, write_u32};

verus! {

/// The encoded size of an acked packet header.
pub const ACKED_HEADER_SIZE: usize = 16;

/// Reliability information following a standard header.
#[derive(Copy, Clone, Debug, PartialEq, Eq, Structural)]
pub struct AckedPacketHeader {
    /// The standard header in front.
    pub standard_header: StandardHeader,
    /// The sender's sequence number for this packet.
    pub sequence_num: u16,
    /// The newest sequence number received from the peer.
    pub last_acked: u16,
    /// Bit `n` is set when sequence `last_acked - (n + 1)` was received.
    pub ack_field: u32,
}

impl AckedPacketHeader {
    /// The sender's sequence becomes `sequence_num`, the peer's newest sequence `last_acked`,
    /// and `ack_field` marks which of the 32 sequences before it were received.
    pub fn new(standard_header: StandardHeader, sequence_num: u16, last_acked: u16, ack_field: u32) -> (r: Self)
        ensures
            r == (AckedPacketHeader { standard_header, sequence_num, last_acked, ack_field }),
    {
        AckedPacketHeader { standard_header, sequence_num, last_acked, ack_field }
    }

    /// The header with a default standard header and all numbers zero.
    pub fn default() -> (r: Self)
        ensures
            r == (AckedPacketHeader {
                standard_header: r.standard_header,
                sequence_num: 0,
                last_acked: 0,
                ack_field: 0,
            }),
            r.standard_header.sequence_num == 0,
    {
        AckedPacketHeader::new(StandardHeader::default(), 0, 0, 0)
    }

    /// The sender's sequence number.
    pub fn sequence_num(&self) -> (r: u16)
        ensures
            r == self.sequence_num,
    {
        self.sequence_num
    }

    /// The newest sequence number received from the peer.
    pub fn last_acked(&self) -> (r: u16)
        ensures
            r == self.last_acked,
    {
        self.last_acked
    }

    /// The window of the 32 sequences before `last_acked`.
    pub fn ack_field(&self) -> (r: u32)
        ensures
            r == self.ack_field,
    {
        self.ack_field
    }
}

impl HeaderWriter for AckedPacketHeader {
    open spec fn spec_bytes(&self) -> Seq<u8> {
        self.standard_header.spec_bytes() + u16_bytes(self.sequence_num) + u16_bytes(
            self.last_acked,
        ) + u32_bytes(self.ack_field)
    }

    fn write(&self, buffer: &mut Vec<u8>) {
        self.standard_header.write(buffer);
        write_u16(buffer, self.sequence_num);
        write_u16(buffer, self.last_acked);
        write_u32(buffer, self.ack_field);
        assert(buffer@ =~= old(buffer)@ + self.spec_bytes());
    }
}

impl HeaderReader for AckedPacketHeader {
    open spec fn spec_size() -> nat {
        16
    }

    open spec fn spec_read(bytes: Seq<u8>) -> Result<Self, LaminarError> {
        match StandardHeader::spec_read(bytes) {
            Err(e) => Err(e),
            Ok(standard_header) => if bytes.len() < 16 {
                Err(LaminarError::ReceivedDataTooShort)
            } else {
                Ok(
                    AckedPacketHeader {
                        standard_header,
                        sequence_num: be_u16(bytes[8], bytes[9]),
                        last_acked: be_u16(bytes[10], bytes[11]),
                        ack_field: be_u32(bytes[12], bytes[13], bytes[14], bytes[15]),
                    },
                )
            },
        }
    }

    fn read(rdr: &mut Cursor) -> (r: Result<Self, LaminarError>) {
        let ghost rest = rdr.rest();
        let standard_header = match StandardHeader::read(rdr) {
            Ok(h) => h,
            Err(e) => return Err(e),
        };
        match rdr.take(8) {
            Some(b) => {
                assert(b@ =~= rest.subrange(8, 16));
                Ok(
                    AckedPacketHeader {
                        standard_header,
                        sequence_num: read_u16(b, 0),
                        last_acked: read_u16(b, 2),
                        ack_field: read_u32(b, 4),
                    },
                )
            },
            None => Err(LaminarError::ReceivedDataTooShort),
        }
    }

    fn size(&self) -> (r: usize) {
        ACKED_HEADER_SIZE
    }
}

} // verus!
