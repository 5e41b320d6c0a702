//! Per-peer bookkeeping: delivery methods, acknowledgement records and virtual connections.
pub mod connection;
pub mod delivery_method;
pub mod events;
pub mod external_ack;
pub mod local_ack;
pub mod quality;
pub mod virtual_connection;
