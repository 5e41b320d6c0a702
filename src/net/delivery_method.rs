//! How a packet is to be delivered.
use vstd::prelude::*;

verus! {

/// The reliability and ordering a packet asks for.
#[derive(Copy, Clone, Debug, PartialEq, Eq, Hash, Structural)]
pub enum DeliveryMethod {
    /// May be dropped, duplicated or reordered.
    UnreliableUnordered,
    /// Drops are detected, order is not kept.
    ReliableUnordered,
    /// Reserved: unreliable, with old packets discarded.
    UnreliableSequenced,
    /// Reserved: reliable, with old packets discarded.
    ReliableSequenced,
    /// Reserved: reliable and in order.
    ReliableOrdered,
}

/// The wire identifier of each delivery method.
pub open spec fn delivery_method_id(m: DeliveryMethod) -> u8 {
    match m {
        DeliveryMethod::UnreliableUnordered => 0,
        DeliveryMethod::ReliableUnordered => 1,
        DeliveryMethod::UnreliableSequenced => 2,
        DeliveryMethod::ReliableSequenced => 3,
        DeliveryMethod::ReliableOrdered => 4,
    }
}

/// The delivery method a wire identifier stands for, if any.
pub open spec fn delivery_method_of(id: u8) -> Option<DeliveryMethod> {
    if id == 0 {
        Some(DeliveryMethod::UnreliableUnordered)
    } else if id == 1 {
        Some(DeliveryMethod::ReliableUnordered)
    } else if id == 2 {
        Some(DeliveryMethod::UnreliableSequenced)
    } else if id == 3 {
        Some(DeliveryMethod::ReliableSequenced)
    } else if id == 4 {
        Some(DeliveryMethod::ReliableOrdered)
    } else {
        None
    }
}

impl DeliveryMethod {
    /// The wire identifier of `delivery_method`.
    pub fn get_delivery_method_id(delivery_method: DeliveryMethod) -> (r: u8)
        ensures
            r == delivery_method_id(delivery_method),
    {
        match delivery_method {
            DeliveryMethod::UnreliableUnordered => 0,
            DeliveryMethod::ReliableUnordered => 1,
            DeliveryMethod::UnreliableSequenced => 2,
            DeliveryMethod::ReliableSequenced => 3,
            DeliveryMethod::ReliableOrdered => 4,
        }
    }

    /// The delivery method that `delivery_method_id` identifies, or `None` for an unknown value.
    pub fn get_delivery_method_from_id(delivery_method_id: u8) -> (r: Option<DeliveryMethod>)
        ensures
            r == delivery_method_of(delivery_method_id),
    {
        match delivery_method_id {
            0 => Some(DeliveryMethod::UnreliableUnordered),
            1 => Some(DeliveryMethod::ReliableUnordered),
            2 => Some(DeliveryMethod::UnreliableSequenced),
            3 => Some(DeliveryMethod::ReliableSequenced),
            4 => Some(DeliveryMethod::ReliableOrdered),
            _ => None,
        }
    }
}

/// Each delivery method survives the trip through its identifier.
pub proof fn lemma_delivery_method_round_trip(m: DeliveryMethod)
    ensures
        delivery_method_of(delivery_method_id(m)) == Some(m),
{
}

} // verus!
