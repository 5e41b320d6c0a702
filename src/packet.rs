//! Packets, their headers and their serialized form.
use vstd::prelude::*;
use crate::address::SocketAddress;
use crate::net::delivery_method::DeliveryMethod;

pub mod headers;
pub mod packet_type;
pub mod processed;
pub mod reassembly;

verus! {

/// A payload together with the peer it came from or goes to, and how it is delivered.
#[derive(Clone, PartialEq, Eq, Debug)]
pub struct Packet {
    address: SocketAddress,
    payload: Vec<u8>,
    delivery_method: DeliveryMethod,
}

impl Packet {
    /// The peer the packet came from or goes to.
    pub closed spec fn spec_address(&self) -> SocketAddress {
        self.address
    }

    /// The packet's payload.
    pub closed spec fn spec_payload(&self) -> Seq<u8> {
        self.payload@
    }

    /// How the packet is delivered.
    pub closed spec fn spec_delivery_method(&self) -> DeliveryMethod {
        self.delivery_method
    }

    /// An unreliable packet: it may be dropped, duplicated or reordered.
    pub fn unreliable(address: SocketAddress, payload: Vec<u8>) -> (r: Packet)
        ensures
            r.spec_address() == address,
            r.spec_payload() == payload@,
            r.spec_delivery_method() == DeliveryMethod::UnreliableUnordered,
    {
        Packet::new(address, payload, DeliveryMethod::UnreliableUnordered)
    }

    /// A reliable packet: drops are detected, order is not kept.
    pub fn reliable_unordered(address: SocketAddress, payload: Vec<u8>) -> (r: Packet)
        ensures
            r.spec_address() == address,
            r.spec_payload() == payload@,
            r.spec_delivery_method() == DeliveryMethod::ReliableUnordered,
    {
        Packet::new(address, payload, DeliveryMethod::ReliableUnordered)
    }

    /// A packet for `address` carrying `payload`, delivered by `delivery_method`.
    pub fn new(address: SocketAddress, payload: Vec<u8>, delivery_method: DeliveryMethod) -> (r: Self)
        ensures
            r.spec_address() == address,
            r.spec_payload() == payload@,
            r.spec_delivery_method() == delivery_method,
    {
        Packet { address, payload, delivery_method }
    }

    /// The payload.
    pub fn payload(&self) -> (r: &[u8])
        ensures
            r@ == self.spec_payload(),
    {
        self.payload.as_slice()
    }

    /// The peer the packet came from or goes to.
    pub fn address(&self) -> (r: SocketAddress)
        ensures
            r == self.spec_address(),
    {
        self.address
    }

    /// How the packet is delivered.
    pub fn delivery_method(&self) -> (r: DeliveryMethod)
        ensures
            r == self.spec_delivery_method(),
    {
        self.delivery_method
    }
}

} // verus!
