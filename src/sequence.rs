//! Circular arithmetic over `u16` sequence numbers.
use vstd::prelude::*;

verus! {

/// The number of distinct sequence numbers.
pub const SEQUENCE_SPACE: u32 = 0x10000;

/// Half of the sequence space: a sequence ahead of another by less than this is newer.
pub const HALF_SPACE: u16 = 0x8000;

/// How far `b` lies ahead of `a`, going forward around the circle.
pub open spec fn forward_distance(a: u16, b: u16) -> int {
    (b as int - a as int) % 0x10000
}

/// `b` is newer than `a`: it lies ahead of it by less than half the circle.
pub open spec fn is_newer(a: u16, b: u16) -> bool {
    0 < forward_distance(a, b) < 0x8000
}

/// Computes `forward_distance(a, b)` with wrapping subtraction.
pub fn distance_forward(a: u16, b: u16) -> (r: u16)
    ensures
        r as int == forward_distance(a, b),
{
    b.wrapping_sub(a)
}

/// Whether `b` is newer than `a` in the circular order.
pub fn sequence_greater_than(b: u16, a: u16) -> (r: bool)
    ensures
        r == is_newer(a, b),
{
    let d = distance_forward(a, b);
    d != 0 && d < HALF_SPACE
}

/// The forward distance without the modulus: `b - a`, plus the whole circle if negative.
pub proof fn lemma_forward_distance(a: u16, b: u16)
    ensures
        forward_distance(a, b) == if b >= a {
            b - a
        } else {
            b - a + 0x10000
        },
{
    if b >= a {
        vstd::arithmetic::div_mod::lemma_small_mod((b - a) as nat, 0x10000);
    } else {
        vstd::arithmetic::div_mod::lemma_fundamental_div_mod_converse(
            b - a,
            0x10000,
            -1,
            b - a + 0x10000,
        );
    }
}

} // verus!
