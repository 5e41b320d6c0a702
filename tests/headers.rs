use laminar::net::delivery_method::DeliveryMethod;
use laminar::packet::headers::acked::AckedPacketHeader;
use laminar::packet::headers::fragment::FragmentHeader;
use laminar::packet::headers::heart_beat::HeartBeatHeader;
use laminar::packet::headers::reliable::ReliableHeader;
use laminar::packet::headers::standard::StandardHeader;
use laminar::packet::headers::{Cursor, HeaderReader, HeaderWriter};
use laminar::packet::packet_type::PacketType;
use laminar::protocol_version;
use laminar::errors::LaminarError;

#[test]
pub fn serializes_deserialize_acked_header_test() {
    let packet_header = AckedPacketHeader::new(StandardHeader::default(), 1, 1, 5421);
    let mut buffer = Vec::with_capacity((packet_header.size() + 1) as usize);

    let _ = packet_header.write(&mut buffer);

    let mut cursor = Cursor::new(buffer.as_slice());

    match AckedPacketHeader::read(&mut cursor) {
        Ok(packet_deserialized) => {
            assert_eq!(packet_deserialized.sequence_num(), 1);
            assert_eq!(packet_deserialized.last_acked(), 1);
            assert_eq!(packet_deserialized.ack_field(), 5421);
        }
        Err(e) => println!("{:?}", e),
    }
}

#[test]
pub fn acked_header_size_test() {
    // a standard header (8 bytes), the sequence (2), the last acked sequence (2) and the ack field (4)
    assert_eq!(AckedPacketHeader::default().size(), 16);
}

#[test]
pub fn serializes_deserialize_fragment_header_test() {
    let fragment = FragmentHeader::new(1, 3);
    let mut buffer = Vec::with_capacity(fragment.size() + 1);
    fragment.write(&mut buffer);

    let mut cursor = Cursor::new(buffer.as_slice());
    let fragment_deserialized = FragmentHeader::read(&mut cursor).unwrap();

    assert_eq!(fragment_deserialized.id(), 1);
    assert_eq!(fragment_deserialized.fragment_count(), 3);
}

#[test]
pub fn fragment_header_size_test() {
    assert_eq!(FragmentHeader::default().size(), 2);
}

#[test]
pub fn heart_beat_header_size_test() {
    assert_eq!(HeartBeatHeader::new().size(), 5);
}

#[test]
pub fn heart_beat_header_starts_with_the_protocol_checksum() {
    let mut buffer = Vec::new();
    HeartBeatHeader::new().write(&mut buffer);
    assert_eq!(buffer[..4], protocol_version::get_crc32().to_be_bytes());
    assert_eq!(buffer[4], 2);
}

#[test]
pub fn serialize_deserialize_reliable_header_test() {
    let packet_header = ReliableHeader::new(1, 5421);
    let mut buffer = Vec::with_capacity(packet_header.size() + 1);

    let _ = packet_header.write(&mut buffer);

    let mut cursor = Cursor::new(buffer.as_slice());

    match ReliableHeader::read(&mut cursor) {
        Ok(packet_deserialized) => {
            assert_eq!(packet_deserialized.last_acked(), 1);
            assert_eq!(packet_deserialized.ack_field(), 5421);
        }
        Err(e) => println!("{:?}", e),
    }
}

#[test]
pub fn reliable_header_size_test() {
    // the last acked sequence (2 bytes) and the ack field (4)
    assert_eq!(ReliableHeader::default().size(), 6);
}

#[test]
pub fn serializes_deserialize_packet_header_test() {
    let packet_header = StandardHeader::default();
    let mut buffer = Vec::with_capacity(packet_header.size() + 1);

    let _ = packet_header.write(&mut buffer);

    let mut cursor = Cursor::new(buffer.as_slice());
    let packet_header = StandardHeader::read(&mut cursor).unwrap();
    assert!(protocol_version::valid_version(packet_header.protocol_version()));
    assert_eq!(packet_header.packet_type(), PacketType::Packet);
    assert_eq!(packet_header.delivery_method(), DeliveryMethod::UnreliableUnordered);
}

#[test]
pub fn standard_header_size_test() {
    assert_eq!(StandardHeader::default().size(), 8);
}

#[test]
fn standard_header_is_big_endian() {
    let header = StandardHeader::new(DeliveryMethod::ReliableUnordered, PacketType::Fragment, 0x0102);
    let mut buffer = Vec::new();
    header.write(&mut buffer);
    let crc = protocol_version::get_crc32().to_be_bytes();
    assert_eq!(buffer, vec![crc[0], crc[1], crc[2], crc[3], 1, 1, 0x01, 0x02]);
}

#[test]
fn header_triple_round_trip() {
    let standard = StandardHeader::new(DeliveryMethod::ReliableUnordered, PacketType::Fragment, 65000);
    let fragment = FragmentHeader::new(4, 9);
    let reliable = ReliableHeader::new(12345, 0xdead_beef);
    let mut buffer = Vec::new();
    standard.write(&mut buffer);
    fragment.write(&mut buffer);
    reliable.write(&mut buffer);
    buffer.extend_from_slice(b"tail");

    let mut cursor = Cursor::new(buffer.as_slice());
    assert_eq!(StandardHeader::read(&mut cursor).unwrap(), standard);
    assert_eq!(FragmentHeader::read(&mut cursor).unwrap(), fragment);
    assert_eq!(ReliableHeader::read(&mut cursor).unwrap(), reliable);
    let mut rest = Vec::new();
    cursor.read_to_end(&mut rest);
    assert_eq!(rest, b"tail".to_vec());
}

#[test]
fn short_input_is_rejected() {
    let bytes = [0u8; 7];
    let mut cursor = Cursor::new(&bytes);
    assert_eq!(StandardHeader::read(&mut cursor), Err(LaminarError::ReceivedDataTooShort));
    let one = [0u8; 1];
    let mut cursor = Cursor::new(&one);
    assert_eq!(FragmentHeader::read(&mut cursor), Err(LaminarError::ReceivedDataTooShort));
}

#[test]
fn unknown_delivery_method_is_rejected() {
    let bytes = [0u8, 0, 0, 0, 0, 9, 0, 0];
    let mut cursor = Cursor::new(&bytes);
    assert_eq!(StandardHeader::read(&mut cursor), Err(LaminarError::UnsupportedDeliveryMethod));
}

#[test]
fn packet_type_ids() {
    assert_eq!(PacketType::get_id(PacketType::Packet), 0);
    assert_eq!(PacketType::get_id(PacketType::Fragment), 1);
    assert_eq!(PacketType::get_id(PacketType::HeartBeat), 2);
    assert_eq!(PacketType::get_id(PacketType::Disconnect), 3);
    assert_eq!(PacketType::get_id(PacketType::Unknown), 255);
    assert_eq!(PacketType::get_packet_type(1), PacketType::Fragment);
    assert_eq!(PacketType::get_packet_type(77), PacketType::Unknown);
}

#[test]
fn delivery_method_ids() {
    assert_eq!(DeliveryMethod::get_delivery_method_id(DeliveryMethod::ReliableOrdered), 4);
    assert_eq!(DeliveryMethod::get_delivery_method_from_id(1), Some(DeliveryMethod::ReliableUnordered));
    assert_eq!(DeliveryMethod::get_delivery_method_from_id(5), None);
}
