//! The errors the transport reports.
use vstd::prelude::*;

verus! {

/// Errors which could occur with constructing or parsing fragment contents.
#[derive(Debug, Clone, Copy, PartialEq, Eq, Structural)]
pub enum FragmentError {
    /// A packet header was not found in the packet.
    PacketHeaderNotFound,
}

/// Errors that could occur with reading or writing packet contents.
#[derive(Debug, Clone, Copy, PartialEq, Eq, Structural)]
pub enum PacketError {
    /// The payload is larger than the configured maximum packet size.
    ExceededMaxPacketSize,
    /// The payload would need more fragments than the configured maximum.
    ExceededMaxFragments,
}

/// Every error the transport's logic reports.
#[derive(Debug, Clone, Copy, PartialEq, Eq, Structural)]
pub enum LaminarError {
    /// Error relating to receiving or parsing a fragment.
    FragmentError(FragmentError),
    /// Error relating to sending or receiving a packet.
    PacketError(PacketError),
    /// A packet was handed over before the event loop took the outbound channel.
    PollingNotStarted,
    /// The received protocol checksum differs from the local one.
    ProtocolVersionMismatch,
    /// The received data is shorter than the headers it declares.
    ReceivedDataTooShort,
    /// The datagram names a delivery method this transport does not handle.
    UnsupportedDeliveryMethod,
}

impl LaminarError {
    /// A short human-readable description of the error.
    pub fn describe(&self) -> (r: &'static str) {
        match self {
            LaminarError::FragmentError(_) => "Something went wrong with receiving/parsing fragments.",
            LaminarError::PacketError(PacketError::ExceededMaxPacketSize) => "The packet size was bigger than the max allowed size.",
            LaminarError::PacketError(PacketError::ExceededMaxFragments) => "The packet needs more fragments than allowed.",
            LaminarError::PollingNotStarted => "Trying to send a packet without first starting the event loop.",
            LaminarError::ProtocolVersionMismatch => "The protocol versions do not match.",
            LaminarError::ReceivedDataTooShort => "The received data did not have any length.",
            LaminarError::UnsupportedDeliveryMethod => "The delivery method is not supported.",
        }
    }
}

} // verus!
