//! The kind of a datagram, as its second header byte names it.
use vstd::prelude::*;

verus! {

/// Identifies the kind of a datagram.
#[derive(Copy, Clone, Debug, PartialEq, Eq, Structural)]
pub enum PacketType {
    /// A full packet that is not fragmented.
    Packet,
    /// A fragment of a larger packet.
    Fragment,
    /// A heartbeat that keeps a connection alive.
    HeartBeat,
    /// A packet that ends a connection.
    Disconnect,
    /// A type byte this protocol does not know.
    Unknown,
}

/// The wire identifier of each packet type.
pub open spec fn packet_type_id(t: PacketType) -> u8 {
    match t {
        PacketType::Packet => 0,
        PacketType::Fragment => 1,
        PacketType::HeartBeat => 2,
        PacketType::Disconnect => 3,
        PacketType::Unknown => 255,
    }
}

/// The packet type a wire identifier stands for.
pub open spec fn packet_type_of(id: u8) -> PacketType {
    if id == 0 {
        PacketType::Packet
    } else if id == 1 {
        PacketType::Fragment
    } else if id == 2 {
        PacketType::HeartBeat
    } else if id == 3 {
        PacketType::Disconnect
    } else {
        PacketType::Unknown
    }
}

impl PacketType {
    /// The wire identifier of `packet_type`.
    pub fn get_id(packet_type: PacketType) -> (r: u8)
        ensures
            r == packet_type_id(packet_type),
    {
        match packet_type {
            PacketType::Packet => 0,
            PacketType::Fragment => 1,
            PacketType::HeartBeat => 2,
            PacketType::Disconnect => 3,
            PacketType::Unknown => 255,
        }
    }

    /// The packet type that `packet_type_id` identifies; `Unknown` for any other value.
    pub fn get_packet_type(packet_type_id: u8) -> (r: PacketType)
        ensures
            r == packet_type_of(packet_type_id),
    {
        match packet_type_id {
            0 => PacketType::Packet,
            1 => PacketType::Fragment,
            2 => PacketType::HeartBeat,
            3 => PacketType::Disconnect,
            _ => PacketType::Unknown,
        }
    }
}

/// Each packet type survives the trip through its identifier.
pub proof fn lemma_packet_type_round_trip(t: PacketType)
    ensures
        packet_type_of(packet_type_id(t)) == t,
{
}

} // verus!
