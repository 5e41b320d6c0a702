use laminar::address::SocketAddress;
use laminar::errors::{LaminarError, PacketError};
use laminar::packet::headers::fragment::FragmentHeader;
use laminar::packet::headers::reliable::ReliableHeader;
use laminar::packet::headers::standard::StandardHeader;
use laminar::packet::headers::{Cursor, HeaderReader};
use laminar::packet::processed::{total_fragments_needed, ProcessedPacket};
use laminar::packet::Packet;

fn create_processed(payload: Vec<u8>, reliability: Option<ReliableHeader>) -> ProcessedPacket {
    let address = SocketAddress::v4(127, 0, 0, 1, 9000);
    let packet = Packet::unreliable(address, payload);
    let sequence_num = 0;
    ProcessedPacket::new(sequence_num, packet, reliability)
}

#[test]
pub fn test_processed_no_fragmentation_no_reliability() {
    let payload = "hello!".as_bytes().to_owned();
    let processed = create_processed(payload.clone(), None);

    let serialized: Vec<Vec<u8>> = processed.fragments(1024, 10).unwrap();

    assert_eq!(serialized.len(), 1);

    let message = serialized[0].as_slice();

    let mut cursor = Cursor::new(message);

    // message must have standard header
    let standard_header = StandardHeader::read(&mut cursor).unwrap();
    assert_eq!(standard_header.sequence_num(), 0);

    // the next bytes must be payload
    let mut deserialized_message = Vec::new();
    cursor.read_to_end(&mut deserialized_message);
    assert_eq!(payload, deserialized_message);
}

#[test]
pub fn test_processed_no_fragmentation_with_reliability() {
    let payload = "hello!".as_bytes().to_owned();
    let reliable = ReliableHeader::new(1, 5421);
    let processed = create_processed(payload.clone(), Some(reliable));

    let serialized: Vec<Vec<u8>> = processed.fragments(1024, 10).unwrap();

    assert_eq!(serialized.len(), 1);

    let message = serialized[0].as_slice();

    let mut cursor = Cursor::new(message);

    // message must have standard header
    let standard_header = StandardHeader::read(&mut cursor).unwrap();
    assert_eq!(standard_header.sequence_num(), 0);

    // message must have a reliability header
    let reliable_header = ReliableHeader::read(&mut cursor).unwrap();
    assert_eq!(reliable_header.last_acked(), 1);
    assert_eq!(reliable_header.ack_field(), 5421);

    // the next bytes must be payload
    let mut deserialized_message = Vec::new();
    cursor.read_to_end(&mut deserialized_message);
    assert_eq!(payload, deserialized_message);
}

#[test]
pub fn test_processed_fragmentation_no_reliability() {
    let payload = "hello world!".as_bytes().to_owned();
    let processed = create_processed(payload.clone(), None);

    let serialized: Vec<Vec<u8>> = processed.fragments(5, 10).unwrap();

    assert_eq!(serialized.len(), 3);

    for (index, packet) in serialized.iter().enumerate() {
        let mut cursor = Cursor::new(packet.as_slice());
        // message must have standard header
        let standard_header = StandardHeader::read(&mut cursor).unwrap();
        assert_eq!(standard_header.sequence_num(), 0);

        // message must have a fragment header
        let fragment_header = FragmentHeader::read(&mut cursor).unwrap();
        assert_eq!(fragment_header.id(), index as u8);
        assert_eq!(fragment_header.fragment_count(), 3);

        // the next bytes must be payload
        let mut deserialized_message = Vec::new();
        cursor.read_to_end(&mut deserialized_message);
        assert!(deserialized_message.len() <= 5);
    }
}

#[test]
pub fn test_processed_fragmentation_and_reliability() {
    let payload = "hello world!".as_bytes().to_owned();
    let reliable = ReliableHeader::new(1, 5421);
    let processed = create_processed(payload.clone(), Some(reliable));

    let serialized: Vec<Vec<u8>> = processed.fragments(5, 10).unwrap();

    assert_eq!(serialized.len(), 3);

    for (index, packet) in serialized.iter().enumerate() {
        let mut cursor = Cursor::new(packet.as_slice());
        // message must have standard header
        let standard_header = StandardHeader::read(&mut cursor).unwrap();
        assert_eq!(standard_header.sequence_num(), 0);

        // message must have a fragment header
        let fragment_header = FragmentHeader::read(&mut cursor).unwrap();
        assert_eq!(fragment_header.id(), index as u8);
        assert_eq!(fragment_header.fragment_count(), 3);

        // message must have a reliability header
        let reliable_header = ReliableHeader::read(&mut cursor).unwrap();
        assert_eq!(reliable_header.last_acked(), 1);
        assert_eq!(reliable_header.ack_field(), 5421);

        // the next bytes must be payload
        let mut deserialized_message = Vec::new();
        cursor.read_to_end(&mut deserialized_message);
        assert!(deserialized_message.len() <= 5);
    }
}

#[test]
pub fn total_fragments_needed_test() {
    let fragment_number = total_fragments_needed(4000, 1024);
    let fragment_number1 = total_fragments_needed(500, 1024);

    assert_eq!(fragment_number, 4);
    assert_eq!(fragment_number1, 1);
}

#[test]
fn total_fragments_of_exact_multiples_and_empty_payloads() {
    assert_eq!(total_fragments_needed(0, 5), 0);
    assert_eq!(total_fragments_needed(10, 5), 2);
    assert_eq!(total_fragments_needed(11, 5), 3);
}

#[test]
fn twelve_bytes_in_fragments_of_five() {
    let payload: Vec<u8> = (0u8..12).collect();
    let processed = create_processed(payload, None);
    let serialized = processed.fragments(5, 16).unwrap();
    let lengths: Vec<usize> = serialized.iter().map(|d| d.len() - 10).collect();
    assert_eq!(lengths, vec![5, 5, 2]);
}

#[test]
fn fragments_joined_in_order_give_the_payload_back() {
    let payload: Vec<u8> = (0..1000u32).map(|i| (i * 7 % 251) as u8).collect();
    let processed = create_processed(payload.clone(), Some(ReliableHeader::new(3, 9)));
    let serialized = processed.fragments(64, 16).unwrap();
    assert_eq!(serialized.len(), 16);
    let mut joined = Vec::new();
    for datagram in &serialized {
        joined.extend_from_slice(&datagram[16..]);
    }
    assert_eq!(joined, payload);
}

#[test]
fn too_many_fragments_are_refused() {
    let processed = create_processed(vec![0u8; 11], None);
    assert_eq!(
        processed.fragments(5, 2).err(),
        Some(LaminarError::PacketError(PacketError::ExceededMaxFragments))
    );
}
