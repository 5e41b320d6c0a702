use laminar::protocol_version::{get_crc32, get_version, valid_version, PROTOCOL_VERSION};

#[test]
fn test_valid_version() {
    let protocol_id = crc::crc32::checksum_ieee(PROTOCOL_VERSION.as_bytes());
    assert!(valid_version(protocol_id));
}

#[test]
fn test_not_valid_version() {
    let protocol_id = crc::crc32::checksum_ieee("not-laminar".as_bytes());
    assert!(!valid_version(protocol_id));
}

#[test]
fn test_get_crc32() {
    assert_eq!(get_crc32(), crc::crc32::checksum_ieee(PROTOCOL_VERSION.as_bytes()));
}

#[test]
fn test_get_version() {
    assert_eq!(get_version(), PROTOCOL_VERSION);
}

#[test]
fn crc32_is_the_ieee_checksum() {
    // the IEEE CRC-32 check value
    assert_eq!(crc::crc32::checksum_ieee(b"123456789"), 0xcbf4_3926);
    assert_ne!(get_crc32(), 0);
}
