use laminar::error::NetworkError;
use laminar::errors::{FragmentError, LaminarError, PacketError};
use laminar::packet::reassembly::Reassembly;
use laminar::{SocketAddress, SocketConfig};

#[test]
fn network_error_keeps_its_kind() {
    let error = NetworkError::new(LaminarError::ProtocolVersionMismatch);
    assert_eq!(*error.kind(), LaminarError::ProtocolVersionMismatch);
    let converted: NetworkError = LaminarError::ReceivedDataTooShort.into();
    assert_eq!(*converted.kind(), LaminarError::ReceivedDataTooShort);
}

#[test]
fn errors_describe_themselves() {
    assert_eq!(
        LaminarError::PacketError(PacketError::ExceededMaxPacketSize).describe(),
        "The packet size was bigger than the max allowed size."
    );
    assert_eq!(LaminarError::PollingNotStarted.describe(), "Trying to send a packet without first starting the event loop.");
}

#[test]
fn malformed_fragment_headers_are_refused() {
    let mut reassembly = Reassembly::new();
    let bad = Err(LaminarError::FragmentError(FragmentError::PacketHeaderNotFound));
    assert_eq!(reassembly.add(1, 3, 3, b"x"), bad);
    assert_eq!(reassembly.add(1, 0, 0, b"x"), bad);
    assert_eq!(reassembly.add(1, 0, 2, b"ab"), Ok(None));
    // the same packet cannot change its fragment count
    assert_eq!(reassembly.add(1, 1, 3, b"cd"), bad);
    assert_eq!(reassembly.add(1, 1, 2, b"cd"), Ok(Some(b"abcd".to_vec())));
    assert_eq!(reassembly.len(), 0);
}

#[test]
fn a_single_fragment_is_whole_at_once() {
    let mut reassembly = Reassembly::new();
    assert_eq!(reassembly.add(9, 0, 1, b"one"), Ok(Some(b"one".to_vec())));
    assert_eq!(reassembly.len(), 0);
}

#[test]
fn default_configuration() {
    let config = SocketConfig::default();
    assert_eq!(config.fragment_size_bytes(), 1450);
    assert_eq!(config.max_fragments(), 16);
    assert_eq!(config.max_packet_size_bytes(), 23200);
    assert_eq!(config.idle_connection_timeout(), 5000);
    assert_eq!(config.receive_buffer_size_bytes(), 1500);
    assert_eq!(config.socket_event_buffer_size(), 1024);
    assert_eq!(config.socket_polling_timeout(), Some(100));
    assert_eq!(config.rtt_max_value(), 250);
    assert_eq!(config.rtt_smoothing_factor(), 10);
}

#[test]
fn version_four_addresses() {
    let address = SocketAddress::v4(127, 0, 0, 1, 12345);
    assert_eq!(address.ip, 0x7f00_0001);
    assert_eq!(address.port, 12345);
    assert!(!address.is_ipv6);
}
