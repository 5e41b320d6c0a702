use laminar::address::SocketAddress;
use laminar::config::SocketConfig;
use laminar::errors::{LaminarError, PacketError};
use laminar::net::delivery_method::DeliveryMethod;
use laminar::net::local_ack::LocalAckRecord;
use laminar::net::virtual_connection::VirtualConnection;
use laminar::packet::headers::fragment::FragmentHeader;
use laminar::packet::headers::reliable::ReliableHeader;
use laminar::packet::headers::standard::StandardHeader;
use laminar::packet::headers::{Cursor, HeaderReader, HeaderWriter};
use laminar::packet::packet_type::PacketType;
use laminar::packet::Packet;
use laminar::protocol_version::get_crc32;

fn peer() -> SocketAddress {
    SocketAddress::v4(127, 0, 0, 1, 20000)
}

fn datagram(method: DeliveryMethod, sequence: u16, reliable: Option<ReliableHeader>, payload: &[u8]) -> Vec<u8> {
    let mut bytes = Vec::new();
    StandardHeader::new(method, PacketType::Packet, sequence).write(&mut bytes);
    if let Some(h) = reliable {
        h.write(&mut bytes);
    }
    bytes.extend_from_slice(payload);
    bytes
}

#[test]
fn unreliable_hello_arrives_as_a_packet() {
    let mut connection = VirtualConnection::new(peer(), &SocketConfig::default(), 0);
    let bytes = datagram(DeliveryMethod::UnreliableUnordered, 0, None, b"hello");
    let packet = connection.process_incoming(&bytes, 10).unwrap().unwrap();
    assert_eq!(packet.address(), peer());
    assert_eq!(packet.payload(), b"hello");
    assert_eq!(packet.delivery_method(), DeliveryMethod::UnreliableUnordered);
    assert_eq!(connection.time_since_last_packet(15), 5);
}

#[test]
fn payload_of_exactly_the_maximum_size_is_accepted() {
    let config = SocketConfig::default();
    let mut connection = VirtualConnection::new(peer(), &config, 0);
    let max = config.max_packet_size_bytes();
    assert_eq!(max, 16 * 1450);
    assert!(connection.process_outgoing(Packet::unreliable(peer(), vec![7; max]), 0).is_ok());
    assert_eq!(
        connection.process_outgoing(Packet::unreliable(peer(), vec![7; max + 1]), 0).err(),
        Some(LaminarError::PacketError(PacketError::ExceededMaxPacketSize))
    );
}

#[test]
fn reliable_payload_of_four_thousand_bytes_goes_out_in_three_fragments() {
    let config = SocketConfig::default();
    let mut connection = VirtualConnection::new(peer(), &config, 0);
    let packet = Packet::reliable_unordered(peer(), vec![1; 4000]);
    let datagrams = connection
        .send_datagrams(packet, config.fragment_size_bytes(), config.max_fragments(), 0)
        .unwrap();
    assert_eq!(datagrams.len(), 3);
    for (index, d) in datagrams.iter().enumerate() {
        let mut cursor = Cursor::new(d.as_slice());
        let standard = StandardHeader::read(&mut cursor).unwrap();
        assert_eq!(standard.packet_type(), PacketType::Fragment);
        let fragment = FragmentHeader::read(&mut cursor).unwrap();
        assert_eq!(fragment.id(), index as u8);
        assert_eq!(fragment.fragment_count(), 3);
    }
}

#[test]
fn reliable_payload_of_thirty_thousand_bytes_is_refused() {
    let config = SocketConfig::default();
    let mut connection = VirtualConnection::new(peer(), &config, 0);
    let packet = Packet::reliable_unordered(peer(), vec![1; 30000]);
    assert_eq!(
        connection.process_outgoing(packet, 0).err(),
        Some(LaminarError::PacketError(PacketError::ExceededMaxPacketSize))
    );
}

#[test]
fn acks_of_the_peer_reveal_dropped_packets() {
    let mut record = LocalAckRecord::new();
    record.enqueue(100, b"p100");
    record.enqueue(101, b"p101");
    let dropped = record.ack(101, 0b01);
    assert!(dropped.is_empty());
    assert!(record.is_empty());

    record.enqueue(102, b"p102");
    record.enqueue(103, b"p103");
    record.enqueue(104, b"p104");
    let dropped = record.ack(104, 0b100);
    let sequences: Vec<u16> = dropped.iter().map(|(s, _)| *s).collect();
    assert!(sequences.contains(&103));
    assert_eq!(sequences, vec![102, 103]);
    assert_eq!(dropped[1].1, b"p103".to_vec());
    assert!(record.is_empty());
}

#[test]
fn dropped_payloads_are_drained_from_the_connection() {
    let config = SocketConfig::default();
    let mut connection = VirtualConnection::new(peer(), &config, 0);
    for i in 0..3u8 {
        connection.process_outgoing(Packet::reliable_unordered(peer(), vec![i]), 0).unwrap();
    }
    // the peer has seen sequence 2 and sequence 0, not 1
    let bytes = datagram(DeliveryMethod::ReliableUnordered, 0, Some(ReliableHeader::new(2, 0b10)), b"x");
    connection.process_incoming(&bytes, 5).unwrap();
    assert!(connection.has_dropped_packets());
    assert_eq!(connection.drain_dropped_packets(), vec![vec![1u8]]);
    assert!(!connection.has_dropped_packets());
}

#[test]
fn sequence_seven_decodes_and_a_flipped_checksum_is_refused() {
    let mut connection = VirtualConnection::new(peer(), &SocketConfig::default(), 0);
    let bytes = datagram(DeliveryMethod::UnreliableUnordered, 7, None, b"data");
    let mut cursor = Cursor::new(bytes.as_slice());
    let header = StandardHeader::read(&mut cursor).unwrap();
    assert_eq!(header.protocol_version(), get_crc32());
    assert_eq!(header.sequence_num(), 7);
    assert!(connection.process_incoming(&bytes, 0).is_ok());
    for bit in 0..32 {
        let mut flipped = bytes.clone();
        flipped[bit / 8] ^= 1 << (bit % 8);
        assert_eq!(connection.process_incoming(&flipped, 0).err(), Some(LaminarError::ProtocolVersionMismatch));
    }
}

#[test]
fn truncated_and_empty_datagrams_are_refused() {
    let mut connection = VirtualConnection::new(peer(), &SocketConfig::default(), 0);
    assert_eq!(connection.process_incoming(&[], 0).err(), Some(LaminarError::ReceivedDataTooShort));
    let bytes = datagram(DeliveryMethod::ReliableUnordered, 1, None, b"");
    assert_eq!(connection.process_incoming(&bytes, 0).err(), Some(LaminarError::ReceivedDataTooShort));
}

#[test]
fn reserved_delivery_methods_are_refused_on_arrival() {
    let mut connection = VirtualConnection::new(peer(), &SocketConfig::default(), 0);
    let bytes = datagram(DeliveryMethod::ReliableOrdered, 1, None, b"abc");
    assert_eq!(connection.process_incoming(&bytes, 0).err(), Some(LaminarError::UnsupportedDeliveryMethod));
}

#[test]
fn fragments_are_reassembled_in_id_order() {
    let config = SocketConfig::default();
    let mut sender = VirtualConnection::new(peer(), &config, 0);
    let payload: Vec<u8> = (0..30u8).collect();
    let datagrams = sender
        .send_datagrams(Packet::unreliable(peer(), payload.clone()), 8, 16, 0)
        .unwrap();
    assert_eq!(datagrams.len(), 4);
    let mut receiver = VirtualConnection::new(peer(), &config, 0);
    assert_eq!(receiver.process_incoming(&datagrams[2], 0).unwrap(), None);
    assert_eq!(receiver.process_incoming(&datagrams[0], 0).unwrap(), None);
    assert_eq!(receiver.process_incoming(&datagrams[3], 0).unwrap(), None);
    let whole = receiver.process_incoming(&datagrams[1], 0).unwrap().unwrap();
    assert_eq!(whole.payload(), payload.as_slice());
}

#[test]
fn reliable_incoming_updates_the_external_acks() {
    let config = SocketConfig::default();
    let mut connection = VirtualConnection::new(peer(), &config, 0);
    for s in [3u16, 1, 2] {
        let bytes = datagram(DeliveryMethod::ReliableUnordered, s, Some(ReliableHeader::new(0, 0)), b"");
        connection.process_incoming(&bytes, 0).unwrap();
    }
    let processed = connection.process_outgoing(Packet::reliable_unordered(peer(), vec![9]), 0).unwrap();
    let datagrams = processed.fragments(config.fragment_size_bytes(), config.max_fragments()).unwrap();
    let mut cursor = Cursor::new(datagrams[0].as_slice());
    StandardHeader::read(&mut cursor).unwrap();
    let reliable = ReliableHeader::read(&mut cursor).unwrap();
    assert_eq!(reliable.last_acked(), 3);
    assert_eq!(reliable.ack_field(), 0b111);
}
