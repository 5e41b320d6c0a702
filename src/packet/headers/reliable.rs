//! The header that carries this side's acknowledgements of the peer's packets.
use vstd::prelude::*;
use super::{Cursor, HeaderReader, HeaderWriter};
use crate::errors::LaminarError;
use crate::wire::{be_u16, be_u32, read_u16, read_u32, u16_bytes, u32_bytes, write_u16, write_u32};

verus! {

/// The encoded size of a reliable header.
pub const RELIABLE_HEADER_SIZE: usize = 6;

/// Acknowledgement information carried by reliable packets.
#[derive(Copy, Clone, Debug, PartialEq, Eq, Structural, Default)]
pub struct ReliableHeader {
    /// The newest sequence number received from the peer.
    pub last_acked: u16,
    /// Bit `n` is set when sequence `last_acked - (n + 1)` was received.
    pub ack_field: u32,
}

impl ReliableHeader {
    /// A header acknowledging `last_acked` and the window `ack_field` behind it.
    pub fn new(last_acked: u16, ack_field: u32) -> (r: Self)
        ensures
            r.last_acked == last_acked,
            r.ack_field == ack_field,
    {
        ReliableHeader { last_acked, ack_field }
    }

    /// The newest sequence number received from the peer.
    pub fn last_acked(&self) -> (r: u16)
        ensures
            r == self.last_acked,
    {
        self.last_acked
    }

    /// The window of the 32 sequences before `last_acked`.
    pub fn ack_field(&self) -> (r: u32)
        ensures
            r == self.ack_field,
    {
        self.ack_field
    }
}

impl HeaderWriter for ReliableHeader {
    open spec fn spec_bytes(&self) -> Seq<u8> {
        u16_bytes(self.last_acked) + u32_bytes(self.ack_field)
    }

    fn write(&self, buffer: &mut Vec<u8>) {
        write_u16(buffer, self.last_acked);
        write_u32(buffer, self.ack_field);
        assert(buffer@ =~= old(buffer)@ + self.spec_bytes());
    }
}

impl HeaderReader for ReliableHeader {
    open spec fn spec_size() -> nat {
        6
    }

    open spec fn spec_read(bytes: Seq<u8>) -> Result<Self, LaminarError> {
        if bytes.len() < 6 {
            Err(LaminarError::ReceivedDataTooShort)
        } else {
            Ok(
                ReliableHeader {
                    last_acked: be_u16(bytes[0], bytes[1]),
                    ack_field: be_u32(bytes[2], bytes[3], bytes[4], bytes[5]),
                },
            )
        }
    }

    fn read(rdr: &mut Cursor) -> (r: Result<Self, LaminarError>) {
        match rdr.take(RELIABLE_HEADER_SIZE) {
            Some(b) => Ok(ReliableHeader { last_acked: read_u16(b, 0), ack_field: read_u32(b, 2) }),
            None => Err(LaminarError::ReceivedDataTooShort),
        }
    }

    fn size(&self) -> (r: usize) {
        RELIABLE_HEADER_SIZE
    }
}

} // verus!
