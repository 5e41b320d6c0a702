//! The protocol version and its CRC32, which every datagram carries.
use vstd::prelude::*;
use vstd::string::StringSliceAdditionalSpecFns;

verus! {

/// The IEEE CRC-32 of a byte sequence.
pub uninterp spec fn crc32_ieee(bytes: Seq<u8>) -> u32;

/// Relies on `crc::crc32::checksum_ieee`: the IEEE CRC-32 of the bytes, which
/// depends on the bytes alone.
#[verifier::external_body]
fn checksum_ieee(bytes: &[u8]) -> (r: u32)
    ensures
        r == crc32_ieee(bytes@),
{
    crc::crc32::checksum_ieee(bytes)
}

/// The protocol version: the library's name and version.
pub const PROTOCOL_VERSION: &'static str = "laminar-0.1.0";

/// The checksum that identifies this protocol version on the wire.
pub open spec fn local_crc32() -> u32 {
    crc32_ieee(PROTOCOL_VERSION.spec_bytes())
}

/// The current protocol version.
pub fn get_version() -> (r: &'static str)
    ensures
        r@ == PROTOCOL_VERSION@,
{
    PROTOCOL_VERSION
}

/// The CRC32 of the current protocol version.
pub fn get_crc32() -> (r: u32)
    ensures
        r == local_crc32(),
{
    checksum_ieee(PROTOCOL_VERSION.as_bytes())
}

/// Whether `protocol_version_crc32` is the CRC32 of the current protocol version.
pub fn valid_version(protocol_version_crc32: u32) -> (r: bool)
    ensures
        r == (protocol_version_crc32 == local_crc32()),
{
    protocol_version_crc32 == get_crc32()
}

} // verus!
