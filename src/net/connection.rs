//! The registry of virtual connections, keyed by peer address.
use vstd::prelude::*;
use crate::address::SocketAddress;
use crate::config::SocketConfig;
use crate::net::local_ack::SentEntry;
use crate::net::events::SocketEvent;
use crate::net::virtual_connection::VirtualConnection;
use crate::packet::reassembly::PartialPacket;

verus! {

/// The first position in `conns` of a connection to `address`, if any.
pub open spec fn position_of(conns: Seq<VirtualConnection>, address: SocketAddress) -> Option<int> {
    if exists|i: int| 0 <= i < conns.len() && #[trigger] conns[i].spec_remote_address() == address {
        Some(
            choose|i: int|
                0 <= i < conns.len() && #[trigger] conns[i].spec_remote_address() == address
                    && forall|j: int|
                    0 <= j < i ==> #[trigger] conns[j].spec_remote_address() != address,
        )
    } else {
        None
    }
}

/// How long connection `c` has been silent at `now`.
pub open spec fn idle_time(c: VirtualConnection, now: u64) -> int {
    if now >= c.spec_last_packet_time() {
        now - c.spec_last_packet_time()
    } else {
        0
    }
}

/// The addresses of the connections silent for at least `max_idle_time` at `now`, in order.
pub open spec fn idle_addresses(conns: Seq<VirtualConnection>, max_idle_time: u64, now: u64) -> Seq<
    SocketAddress,
>
    decreases conns.len(),
{
    if conns.len() == 0 {
        Seq::empty()
    } else {
        let prev = idle_addresses(conns.drop_last(), max_idle_time, now);
        if idle_time(conns.last(), now) >= max_idle_time {
            prev.push(conns.last().spec_remote_address())
        } else {
            prev
        }
    }
}

/// The connections silent for less than `max_idle_time` at `now`, in order.
pub open spec fn active_part(conns: Seq<VirtualConnection>, max_idle_time: u64, now: u64) -> Seq<
    VirtualConnection,
>
    decreases conns.len(),
{
    if conns.len() == 0 {
        Seq::empty()
    } else {
        let prev = active_part(conns.drop_last(), max_idle_time, now);
        if idle_time(conns.last(), now) >= max_idle_time {
            prev
        } else {
            prev.push(conns.last())
        }
    }
}

/// A connection as `VirtualConnection::new` makes it for `address` at `now`.
pub open spec fn is_fresh(
    c: VirtualConnection,
    address: SocketAddress,
    config: SocketConfig,
    now: u64,
) -> bool {
    &&& c.spec_remote_address() == address
    &&& c.spec_last_packet_time() == now
    &&& c.spec_max_packet_size() == config.spec_max_packet_size_bytes()
    &&& c.spec_sequence_num() == 0
    &&& c.spec_local_acks() == Seq::<SentEntry>::empty()
    &&& c.spec_external_acks() == (0u16, 0u32)
    &&& c.spec_dropped() == Seq::<Seq<u8>>::empty()
    &&& c.spec_reassembly() == Seq::<PartialPacket>::empty()
}

/// The connections this side keeps, one per peer that was heard from or sent to.
pub struct ActiveConnections {
    connections: Vec<VirtualConnection>,
}

impl View for ActiveConnections {
    type V = Seq<VirtualConnection>;

    closed spec fn view(&self) -> Seq<VirtualConnection> {
        self.connections@
    }
}

impl ActiveConnections {
    /// No connections.
    pub fn new() -> (r: Self)
        ensures
            r@ == Seq::<VirtualConnection>::empty(),
    {
        ActiveConnections { connections: Vec::new() }
    }

    /// The position of the connection to `address`, if there is one.
    fn find(&self, address: SocketAddress) -> (r: Option<usize>)
        ensures
            match r {
                Some(i) => i < self@.len() && position_of(self@, address) == Some(i as int),
                None => position_of(self@, address) is None,
            },
    {
        let mut i: usize = 0;
        while i < self.connections.len() && self.connections[i].remote_address() != address
            invariant
                i <= self@.len(),
                forall|j: int| 0 <= j < i ==> #[trigger] self@[j].spec_remote_address() != address,
            decreases self@.len() - i,
        {
            i = i + 1;
        }
        if i < self.connections.len() {
            proof {
                let c = position_of(self@, address)->0;
                assert(self@[i as int].spec_remote_address() == address);
                assert(c == i) by {
                    if c < i {
                        assert(self@[c].spec_remote_address() != address);
                    }
                    if c > i {
                        assert(self@[i as int].spec_remote_address() != address);
                    }
                };
            }
            Some(i)
        } else {
            None
        }
    }

    /// Whether a connection to `address` is kept.
    pub fn contains_connection(&self, address: SocketAddress) -> (r: bool)
        ensures
            r == (position_of(self@, address) is Some),
    {
        self.find(address).is_some()
    }

    /// The connection to `address`, created at `now` with `config` if there is none yet.
    pub fn get_or_insert_connection(
        &mut self,
        address: SocketAddress,
        config: &SocketConfig,
        now: u64,
    ) -> (r: &mut VirtualConnection)
        ensures
            match position_of(old(self)@, address) {
                Some(i) => {
                    &&& *r == old(self)@[i]
                    &&& final(self)@ == old(self)@.update(i, *final(r))
                },
                None => {
                    &&& is_fresh(*r, address, *config, now)
                    &&& final(self)@ == old(self)@.push(*final(r))
                },
            },
    {
        match self.find(address) {
            Some(i) => &mut self.connections[i],
            None => {
                self.connections.push(VirtualConnection::new(address, config, now));
                let last = self.connections.len() - 1;
                &mut self.connections[last]
            },
        }
    }

    /// Removes the connection to `address`, returning it with its address.
    pub fn remove_connection(&mut self, address: SocketAddress) -> (r: Option<
        (SocketAddress, VirtualConnection),
    >)
        ensures
            match position_of(old(self)@, address) {
                Some(i) => {
                    &&& r == Some((address, old(self)@[i]))
                    &&& final(self)@ == old(self)@.remove(i)
                },
                None => {
                    &&& r is None
                    &&& final(self)@ == old(self)@
                },
            },
    {
        match self.find(address) {
            Some(i) => {
                let c = self.connections.remove(i);
                Some((address, c))
            },
            None => None,
        }
    }

    /// The addresses of the connections silent for at least `max_idle_time`
    /// milliseconds at `now`.
    pub fn idle_connections(&self, max_idle_time: u64, now: u64) -> (r: Vec<SocketAddress>)
        ensures
            r@ == idle_addresses(self@, max_idle_time, now),
    {
        let mut out: Vec<SocketAddress> = Vec::new();
        let mut i: usize = 0;
        while i < self.connections.len()
            invariant
                i <= self@.len(),
                out@ == idle_addresses(self@.take(i as int), max_idle_time, now),
            decreases self@.len() - i,
        {
            assert(self@.take(i + 1).drop_last() =~= self@.take(i as int));
            let c = &self.connections[i];
            if c.time_since_last_packet(now) >= max_idle_time {
                out.push(c.remote_address());
            }
            i = i + 1;
        }
        assert(self@.take(i as int) =~= self@);
        out
    }

    /// Removes every connection silent for at least `max_idle_time`
    /// milliseconds at `now`, and returns their addresses, in order.
    pub fn take_idle_connections(&mut self, max_idle_time: u64, now: u64) -> (r: Vec<SocketAddress>)
        ensures
            r@ == idle_addresses(old(self)@, max_idle_time, now),
            final(self)@ == active_part(old(self)@, max_idle_time, now),
    {
        let mut rest: Vec<VirtualConnection> = Vec::new();
        core::mem::swap(&mut self.connections, &mut rest);
        let ghost conns = rest@;
        assert(conns.len() == rest.len());
        let mut idle: Vec<SocketAddress> = Vec::new();
        let mut kept: Vec<VirtualConnection> = Vec::new();
        let mut i: usize = 0;
        while rest.len() > 0
            invariant
                i <= conns.len(),
                conns.len() <= usize::MAX,
                rest@ == conns.skip(i as int),
                idle@ == idle_addresses(conns.take(i as int), max_idle_time, now),
                kept@ == active_part(conns.take(i as int), max_idle_time, now),
            decreases rest@.len(),
        {
            let c = rest.remove(0);
            assert(c == conns[i as int]);
            assert(conns.take(i + 1).drop_last() =~= conns.take(i as int));
            assert(rest@ =~= conns.skip(i + 1));
            if c.time_since_last_packet(now) >= max_idle_time {
                idle.push(c.remote_address());
            } else {
                kept.push(c);
            }
            i = i + 1;
        }
        assert(conns.take(i as int) =~= conns);
        self.connections = kept;
        idle
    }

    /// Removes every connection silent for at least `max_idle_time`
    /// milliseconds at `now`, and reports one `TimeOut` for each, in order.
    pub fn handle_idle_clients(&mut self, max_idle_time: u64, now: u64) -> (r: Vec<SocketEvent>)
        ensures
            final(self)@ == active_part(old(self)@, max_idle_time, now),
            r@.len() == idle_addresses(old(self)@, max_idle_time, now).len(),
            forall|i: int|
                0 <= i < r@.len() ==> #[trigger] r@[i] == SocketEvent::TimeOut(
                    idle_addresses(old(self)@, max_idle_time, now)[i],
                ),
    {
        let addresses = self.take_idle_connections(max_idle_time, now);
        let mut events: Vec<SocketEvent> = Vec::new();
        let mut i: usize = 0;
        while i < addresses.len()
            invariant
                i <= addresses@.len(),
                events@.len() == i,
                forall|k: int| 0 <= k < i ==> #[trigger] events@[k] == SocketEvent::TimeOut(addresses@[k]),
            decreases addresses@.len() - i,
        {
            events.push(SocketEvent::TimeOut(addresses[i]));
            i = i + 1;
        }
        events
    }

    /// The number of connections.
    pub fn count(&self) -> (r: usize)
        ensures
            r == self@.len(),
    {
        self.connections.len()
    }
}

} // verus!
