//! What the transport reports to its user.
use vstd::prelude::*;
use crate::address::SocketAddress;
use crate::packet::Packet;

verus! {

/// An event the transport hands to its consumer.
#[derive(Debug, Clone, PartialEq, Eq)]
pub enum SocketEvent {
    /// A packet arrived.
    Packet(Packet),
    /// The connection to this peer was silent too long and was removed.
    TimeOut(SocketAddress),
}

} // verus!
