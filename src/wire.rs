//! Big-endian encoding of the integers that headers carry.
use vstd::prelude::*;

verus! {

/// The two big-endian bytes of `x`.
pub open spec fn u16_bytes(x: u16) -> Seq<u8> {
    seq![(x >> 8u16) as u8, x as u8]
}

/// The four big-endian bytes of `x`.
pub open spec fn u32_bytes(x: u32) -> Seq<u8> {
    seq![(x >> 24u32) as u8, (x >> 16u32) as u8, (x >> 8u32) as u8, x as u8]
}

/// The `u16` whose big-endian bytes are `b0, b1`.
pub open spec fn be_u16(b0: u8, b1: u8) -> u16 {
    ((b0 as u16) << 8u16) | (b1 as u16)
}

/// The `u32` whose big-endian bytes are `b0, b1, b2, b3`.
pub open spec fn be_u32(b0: u8, b1: u8, b2: u8, b3: u8) -> u32 {
    ((b0 as u32) << 24u32) | ((b1 as u32) << 16u32) | ((b2 as u32) << 8u32) | (b3 as u32)
}

/// Decoding the bytes of a `u16` gives it back.
pub proof fn lemma_u16_round_trip(x: u16)
    ensures
        be_u16(u16_bytes(x)[0], u16_bytes(x)[1]) == x,
{
    assert((((((x >> 8u16) as u8) as u16) << 8u16) | ((x as u8) as u16)) == x) by (bit_vector);
}

/// Decoding the bytes of a `u32` gives it back.
pub proof fn lemma_u32_round_trip(x: u32)
    ensures
        be_u32(u32_bytes(x)[0], u32_bytes(x)[1], u32_bytes(x)[2], u32_bytes(x)[3]) == x,
{
    assert((((((x >> 24u32) as u8) as u32) << 24u32) | ((((x >> 16u32) as u8) as u32) << 16u32)
        | ((((x >> 8u32) as u8) as u32) << 8u32) | ((x as u8) as u32)) == x) by (bit_vector);
}

/// Appends the big-endian bytes of `x`.
pub fn write_u16(buffer: &mut Vec<u8>, x: u16)
    ensures
        final(buffer)@ == old(buffer)@ + u16_bytes(x),
{
    buffer.push((x >> 8u16) as u8);
    buffer.push(x as u8);
    assert(final(buffer)@ =~= old(buffer)@ + u16_bytes(x));
}

/// Appends the big-endian bytes of `x`.
pub fn write_u32(buffer: &mut Vec<u8>, x: u32)
    ensures
        final(buffer)@ == old(buffer)@ + u32_bytes(x),
{
    buffer.push((x >> 24u32) as u8);
    buffer.push((x >> 16u32) as u8);
    buffer.push((x >> 8u32) as u8);
    buffer.push(x as u8);
    assert(final(buffer)@ =~= old(buffer)@ + u32_bytes(x));
}

/// Reads the big-endian `u16` at `bytes[at..at + 2]`.
pub fn read_u16(bytes: &[u8], at: usize) -> (r: u16)
    requires
        at + 2 <= bytes@.len(),
    ensures
        r == be_u16(bytes@[at as int], bytes@[at + 1]),
{
    ((bytes[at] as u16) << 8u16) | (bytes[at + 1] as u16)
}

/// Reads the big-endian `u32` at `bytes[at..at + 4]`.
pub fn read_u32(bytes: &[u8], at: usize) -> (r: u32)
    requires
        at + 4 <= bytes@.len(),
    ensures
        r == be_u32(bytes@[at as int], bytes@[at + 1], bytes@[at + 2], bytes@[at + 3]),
{
    ((bytes[at] as u32) << 24u32) | ((bytes[at + 1] as u32) << 16u32) | ((bytes[at + 2] as u32) << 8u32)
        | (bytes[at + 3] as u32)
}

/// Appends `bytes` to `buffer`.
pub fn extend_bytes(buffer: &mut Vec<u8>, bytes: &[u8])
    ensures
        final(buffer)@ == old(buffer)@ + bytes@,
{
    let mut i: usize = 0;
    while i < bytes.len()
        invariant
            i <= bytes@.len(),
            buffer@ == old(buffer)@ + bytes@.take(i as int),
        decreases bytes@.len() - i,
    {
        buffer.push(bytes[i]);
        i = i + 1;
        assert(buffer@ =~= old(buffer)@ + bytes@.take(i as int));
    }
    assert(bytes@.take(i as int) =~= bytes@);
}

} // verus!
