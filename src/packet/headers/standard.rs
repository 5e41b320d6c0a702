//! The header that starts every datagram.
use vstd::prelude::*;
use super::{Cursor, HeaderReader, HeaderWriter};
use crate::errors::LaminarError;
use crate::net::delivery_method::{DeliveryMethod, delivery_method_id, delivery_method_of};
use crate::packet::packet_type::{PacketType, packet_type_id, packet_type_of};
use crate::protocol_version::{get_crc32, local_crc32};
use crate::wire::{be_u16, be_u32, read_u16, read_u32, u16_bytes, u32_bytes, write_u16, write_u32};

verus! {

/// The encoded size of a standard header.
pub const STANDARD_HEADER_SIZE: usize = 8;

/// The basic information every datagram carries.
#[derive(Copy, Clone, Debug, PartialEq, Eq, Structural)]
pub struct StandardHeader {
    /// The CRC32 of the sender's protocol version.
    pub protocol_version: u32,
    /// What kind of datagram this is.
    pub packet_type: PacketType,
    /// How the packet is to be delivered.
    pub delivery_method: DeliveryMethod,
    /// The sender's sequence number for this packet.
    pub sequence_num: u16,
}

impl StandardHeader {
    /// A header of the local protocol version.
    pub fn new(delivery_method: DeliveryMethod, packet_type: PacketType, sequence_num: u16) -> (r: Self)
        ensures
            r == (StandardHeader {
                protocol_version: local_crc32(),
                packet_type,
                delivery_method,
                sequence_num,
            }),
    {
        StandardHeader { protocol_version: get_crc32(), packet_type, delivery_method, sequence_num }
    }

    /// The header of an unfragmented, unreliable packet with sequence zero.
    pub fn default() -> (r: Self)
        ensures
            r == (StandardHeader {
                protocol_version: local_crc32(),
                packet_type: PacketType::Packet,
                delivery_method: DeliveryMethod::UnreliableUnordered,
                sequence_num: 0,
            }),
    {
        StandardHeader::new(DeliveryMethod::UnreliableUnordered, PacketType::Packet, 0)
    }

    /// The CRC32 of the sender's protocol version.
    pub fn protocol_version(&self) -> (r: u32)
        ensures
            r == self.protocol_version,
    {
        self.protocol_version
    }

    /// The kind of datagram.
    pub fn packet_type(&self) -> (r: PacketType)
        ensures
            r == self.packet_type,
    {
        self.packet_type
    }

    /// How the packet is to be delivered.
    pub fn delivery_method(&self) -> (r: DeliveryMethod)
        ensures
            r == self.delivery_method,
    {
        self.delivery_method
    }

    /// The sender's sequence number.
    pub fn sequence_num(&self) -> (r: u16)
        ensures
            r == self.sequence_num,
    {
        self.sequence_num
    }
}

impl HeaderWriter for StandardHeader {
    open spec fn spec_bytes(&self) -> Seq<u8> {
        u32_bytes(self.protocol_version) + seq![
            packet_type_id(self.packet_type),
            delivery_method_id(self.delivery_method),
        ] + u16_bytes(self.sequence_num)
    }

    fn write(&self, buffer: &mut Vec<u8>) {
        write_u32(buffer, self.protocol_version);
        buffer.push(PacketType::get_id(self.packet_type));
        buffer.push(DeliveryMethod::get_delivery_method_id(self.delivery_method));
        write_u16(buffer, self.sequence_num);
        assert(buffer@ =~= old(buffer)@ + self.spec_bytes());
    }
}

impl HeaderReader for StandardHeader {
    open spec fn spec_size() -> nat {
        8
    }

    open spec fn spec_read(bytes: Seq<u8>) -> Result<Self, LaminarError> {
        if bytes.len() < 8 {
            Err(LaminarError::ReceivedDataTooShort)
        } else {
            match delivery_method_of(bytes[5]) {
                None => Err(LaminarError::UnsupportedDeliveryMethod),
                Some(m) => Ok(
                    StandardHeader {
                        protocol_version: be_u32(bytes[0], bytes[1], bytes[2], bytes[3]),
                        packet_type: packet_type_of(bytes[4]),
                        delivery_method: m,
                        sequence_num: be_u16(bytes[6], bytes[7]),
                    },
                ),
            }
        }
    }

    fn read(rdr: &mut Cursor) -> (r: Result<Self, LaminarError>) {
        match rdr.take(STANDARD_HEADER_SIZE) {
            Some(b) => {
                match DeliveryMethod::get_delivery_method_from_id(b[5]) {
                    Some(delivery_method) => Ok(
                        StandardHeader {
                            protocol_version: read_u32(b, 0),
                            packet_type: PacketType::get_packet_type(b[4]),
                            delivery_method,
                            sequence_num: read_u16(b, 6),
                        },
                    ),
                    None => Err(LaminarError::UnsupportedDeliveryMethod),
                }
            },
            None => Err(LaminarError::ReceivedDataTooShort),
        }
    }

    fn size(&self) -> (r: usize) {
        STANDARD_HEADER_SIZE
    }
}

} // verus!
