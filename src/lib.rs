//! A semi-reliable transport over datagrams for real-time multiplayer games.
//!
//! The library holds the transport's logic: circular sequence arithmetic,
//! the acknowledgement records of both sides, the framed header codec, the
//! fragmenting serializer, and the per-peer virtual connection state machine.
//! Socket readiness, channels and threads are left to the caller, which hands
//! the library plain values (bytes, addresses, millisecond timestamps).
pub mod address;
pub mod config;
pub mod error;
pub mod errors;
pub mod net;
pub mod packet;
pub mod protocol_version;
pub mod sequence;
pub mod sequence_buffer;
pub mod wire;

pub use self::address::SocketAddress;
pub use self::config::SocketConfig;
pub use self::net::delivery_method::DeliveryMethod;
pub use self::net::events::SocketEvent;
pub use self::packet::Packet;
