//! Shifts and rotations of a 64-bit word by a count taken modulo 64.

use vstd::prelude::*;

verus! {

/// `x` shifted left by `count % 64` bits; bits shifted past the top are lost.
pub open spec fn shift_left(x: u64, count: u64) -> u64 {
    x << (count % 64)
}

/// `x` shifted right by `count % 64` bits, zeros coming in from the top.
pub open spec fn shift_right(x: u64, count: u64) -> u64 {
    x >> (count % 64)
}

/// `x` rotated left by `count % 64` bits: the bits that leave at the top come
/// back in at the bottom.
pub open spec fn rotated_left(x: u64, count: u64) -> u64 {
    let k = count % 64;
    if k == 0 {
        x
    } else {
        (x << k) | (x >> ((64 - k) as u64))
    }
}

/// `x` rotated right by `count % 64` bits: the bits that leave at the bottom
/// come back in at the top.
pub open spec fn rotated_right(x: u64, count: u64) -> u64 {
    let k = count % 64;
    if k == 0 {
        x
    } else {
        (x >> k) | (x << ((64 - k) as u64))
    }
}

/// Only the low six bits of a shift count matter, so cutting the count down
/// to 32 bits first changes nothing.
proof fn lemma_low_bits_of_count(count: u64)
    ensures
        ((count as u32) % 64u32) as u64 == count % 64,
{
    assert(((count as u32) % 64u32) as u64 == count % 64) by (bit_vector);
}

/// Logical shift left by `count` modulo 64.
pub fn shl(x: u64, count: u64) -> (r: u64)
    ensures
        r == shift_left(x, count),
{
    proof {
        lemma_low_bits_of_count(count);
    }
    x.wrapping_shl(count as u32)
}

/// Logical shift right by `count` modulo 64.
pub fn shr(x: u64, count: u64) -> (r: u64)
    ensures
        r == shift_right(x, count),
{
    proof {
        lemma_low_bits_of_count(count);
    }
    x.wrapping_shr(count as u32)
}

/// Rotation to the left by `count` modulo 64.
pub fn rol(x: u64, count: u64) -> (r: u64)
    ensures
        r == rotated_left(x, count),
{
    let k: u64 = count % 64;
    if k == 0 {
        x
    } else {
        (x << k) | (x >> (64 - k))
    }
}

/// Rotation to the right by `count` modulo 64.
pub fn ror(x: u64, count: u64) -> (r: u64)
    ensures
        r == rotated_right(x, count),
{
    let k: u64 = count % 64;
    if k == 0 {
        x
    } else {
        (x >> k) | (x << (64 - k))
    }
}

} // verus!
