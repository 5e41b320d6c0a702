//! The transport's settings.
use vstd::prelude::*;

verus! {

/// Settings of a socket and of the virtual connections it keeps.
///
/// Durations are in milliseconds.
#[derive(Clone, Copy, Debug, PartialEq, Eq, Structural)]
pub struct SocketConfig {
    /// Payload bytes per fragment.
    pub fragment_size_bytes: u16,
    /// How long a connection may stay silent before it is removed.
    pub idle_connection_timeout: u64,
    /// The largest number of fragments a packet may be split into.
    pub max_fragments: u8,
    /// The size of the buffer datagrams are received into.
    pub receive_buffer_size_bytes: usize,
    /// How many readiness events are read from the poller at once.
    pub socket_event_buffer_size: usize,
    /// How long one poll may block, if bounded.
    pub socket_polling_timeout: Option<u64>,
    /// The round-trip time above which the connection counts as slow.
    pub rtt_max_value: u16,
    /// The weight of each round-trip sample, in percent.
    pub rtt_smoothing_factor: u8,
}

impl SocketConfig {
    /// The largest payload a packet may carry: every fragment full.
    pub open spec fn spec_max_packet_size_bytes(&self) -> nat {
        self.max_fragments as nat * self.fragment_size_bytes as nat
    }

    /// Payload bytes per fragment.
    pub fn fragment_size_bytes(&self) -> (r: u16)
        ensures
            r == self.fragment_size_bytes,
    {
        self.fragment_size_bytes
    }

    /// How long a connection may stay silent, in milliseconds.
    pub fn idle_connection_timeout(&self) -> (r: u64)
        ensures
            r == self.idle_connection_timeout,
    {
        self.idle_connection_timeout
    }

    /// The largest number of fragments per packet.
    pub fn max_fragments(&self) -> (r: u8)
        ensures
            r == self.max_fragments,
    {
        self.max_fragments
    }

    /// The largest payload a packet may carry: `max_fragments * fragment_size_bytes`.
    pub fn max_packet_size_bytes(&self) -> (r: usize)
        ensures
            r == self.spec_max_packet_size_bytes(),
    {
        assert(self.max_fragments as nat * self.fragment_size_bytes as nat <= 255 * 65535) by (
        nonlinear_arith)
            requires
                self.max_fragments <= 255,
                self.fragment_size_bytes <= 65535,
        ;
        self.max_fragments as usize * self.fragment_size_bytes as usize
    }

    /// The size of the receive buffer.
    pub fn receive_buffer_size_bytes(&self) -> (r: usize)
        ensures
            r == self.receive_buffer_size_bytes,
    {
        self.receive_buffer_size_bytes
    }

    /// How many readiness events are read at once.
    pub fn socket_event_buffer_size(&self) -> (r: usize)
        ensures
            r == self.socket_event_buffer_size,
    {
        self.socket_event_buffer_size
    }

    /// How long one poll may block, in milliseconds, if bounded.
    pub fn socket_polling_timeout(&self) -> (r: Option<u64>)
        ensures
            r == self.socket_polling_timeout,
    {
        self.socket_polling_timeout
    }

    /// The round-trip time above which the connection counts as slow, in milliseconds.
    pub fn rtt_max_value(&self) -> (r: u16)
        ensures
            r == self.rtt_max_value,
    {
        self.rtt_max_value
    }

    /// The weight of each round-trip sample, in percent.
    pub fn rtt_smoothing_factor(&self) -> (r: u8)
        ensures
            r == self.rtt_smoothing_factor,
    {
        self.rtt_smoothing_factor
    }
}

impl Default for SocketConfig {
    fn default() -> (r: Self)
        ensures
            r == (SocketConfig {
                fragment_size_bytes: 1450,
                idle_connection_timeout: 5000,
                max_fragments: 16,
                receive_buffer_size_bytes: 1500,
                socket_event_buffer_size: 1024,
                socket_polling_timeout: Some(100),
                rtt_max_value: 250,
                rtt_smoothing_factor: 10,
            }),
    {
        SocketConfig {
            fragment_size_bytes: 1450,
            idle_connection_timeout: 5000,
            max_fragments: 16,
            receive_buffer_size_bytes: 1500,
            socket_event_buffer_size: 1024,
            socket_polling_timeout: Some(100),
            rtt_max_value: 250,
            rtt_smoothing_factor: 10,
        }
    }
}

} // verus!
