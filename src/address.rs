//! The address of a peer, as plain values.
use vstd::prelude::*;

verus! {

/// An IP address and port. A version 4 address keeps its 32 bits in the low
/// bits of `ip`.
#[derive(Copy, Clone, Debug, PartialEq, Eq, Hash, Structural)]
pub struct SocketAddress {
    /// The address bits.
    pub ip: u128,
    /// The port.
    pub port: u16,
    /// Whether this is a version 6 address.
    pub is_ipv6: bool,
}

impl SocketAddress {
    /// The version 4 address `a.b.c.d:port`.
    pub fn v4(a: u8, b: u8, c: u8, d: u8, port: u16) -> (r: Self)
        ensures
            r.ip == a as int * 0x1000000 + b as int * 0x10000 + c as int * 0x100 + d as int,
            r.port == port,
            !r.is_ipv6,
    {
        let ip: u128 = a as u128 * 0x1000000 + b as u128 * 0x10000 + c as u128 * 0x100 + d as u128;
        SocketAddress { ip, port, is_ipv6: false }
    }

    /// The version 6 address with bits `ip` and port `port`.
    pub fn v6(ip: u128, port: u16) -> (r: Self)
        ensures
            r == (SocketAddress { ip, port, is_ipv6: true }),
    {
        SocketAddress { ip, port, is_ipv6: true }
    }
}

} // verus!
