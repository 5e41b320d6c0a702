//! The header of a heartbeat, which only keeps a connection alive.
use vstd::prelude::*;
use super::{Cursor, HeaderReader, HeaderWriter};
use crate::errors::LaminarError;
use crate::packet::packet_type::{PacketType, packet_type_id};
use crate::protocol_version::{get_crc32, local_crc32};
use crate::wire::{u32_bytes, write_u32};

verus! {

/// The encoded size of a heartbeat header.
pub const HEART_BEAT_HEADER_SIZE: usize = 5;

/// The header of a heartbeat packet.
#[derive(Copy, Clone, Debug, PartialEq, Eq, Structural)]
pub struct HeartBeatHeader {
    /// Always `PacketType::HeartBeat`.
    pub packet_type_id: PacketType,
}

impl HeartBeatHeader {
    /// A heartbeat header.
    pub fn new() -> (r: Self)
        ensures
            r.packet_type_id == PacketType::HeartBeat,
    {
        HeartBeatHeader { packet_type_id: PacketType::HeartBeat }
    }
}

impl HeaderWriter for HeartBeatHeader {
    open spec fn spec_bytes(&self) -> Seq<u8> {
        u32_bytes(local_crc32()) + seq![packet_type_id(self.packet_type_id)]
    }

    fn write(&self, buffer: &mut Vec<u8>) {
        write_u32(buffer, get_crc32());
        buffer.push(PacketType::get_id(self.packet_type_id));
        assert(buffer@ =~= old(buffer)@ + self.spec_bytes());
    }
}

impl HeaderReader for HeartBeatHeader {
    open spec fn spec_size() -> nat {
        5
    }

    open spec fn spec_read(bytes: Seq<u8>) -> Result<Self, LaminarError> {
        if bytes.len() < 5 {
            Err(LaminarError::ReceivedDataTooShort)
        } else {
            Ok(HeartBeatHeader { packet_type_id: PacketType::HeartBeat })
        }
    }

    fn read(rdr: &mut Cursor) -> (r: Result<Self, LaminarError>) {
        match rdr.take(HEART_BEAT_HEADER_SIZE) {
            Some(_) => Ok(HeartBeatHeader { packet_type_id: PacketType::HeartBeat }),
            None => Err(LaminarError::ReceivedDataTooShort),
        }
    }

    fn size(&self) -> (r: usize) {
        HEART_BEAT_HEADER_SIZE
    }
}

} // verus!
