//! The arithmetic that the rest is built on.

use crate::bits::{ceil_pow2_is_least, clamp, next_power_of_two, next_rand, seed};
use vstd::arithmetic::power2::pow2;
use vstd::prelude::*;

verus! {

/// Rounding up gives a power of two that reaches the number and is less than twice as large.
pub proof fn rounding_up_reaches_the_number(n: usize, p: usize)
    requires
        call_ensures(next_power_of_two, (n,), p),
    ensures
        exists|e: nat| p == #[trigger] pow2(e),
        n <= 1 ==> p == 1,
        n >= 1 ==> n <= p < 2 * n,
{
    ceil_pow2_is_least(n as nat);
}

/// A confined number is itself inside the range, and the nearer end outside of it.
pub proof fn confined_number_is_the_nearest(n: usize, low: usize, high: usize, c: usize)
    requires
        call_ensures(clamp, (n, low, high), c),
        low <= high,
    ensures
        low <= c <= high,
        low <= n <= high ==> c == n,
        n < low ==> c == low,
        n > high ==> c == high,
{
}

/// A draw gives the new state, which depends on the old one alone, by the shifts 13, 17 and 5.
/// Different states lead to different ones, and zero only to zero.
pub proof fn draws_never_meet(
    one: &mut u32,
    first: u32,
    other: &mut u32,
    second: u32,
)
    requires
        call_ensures(next_rand, (one,), first),
        call_ensures(next_rand, (other,), second),
    ensures
        first == ({
            let a: u32 = *old(one) ^ (*old(one) << 13);
            let b: u32 = a ^ (a >> 17);
            b ^ (b << 5)
        }),
        *final(one) == first,
        *final(other) == second,
        (first == second) == (*old(one) == *old(other)),
        (first == 0) == (*old(one) == 0),
{
    let x: u32 = *one;
    let y: u32 = *other;
    let a: u32 = x ^ (x << 13);
    let b: u32 = a ^ (a >> 17);
    let c: u32 = y ^ (y << 13);
    let d: u32 = c ^ (c >> 17);
    assert(x ^ (x << 13) == y ^ (y << 13) ==> x == y) by (bit_vector);
    assert(a ^ (a >> 17) == c ^ (c >> 17) ==> a == c) by (bit_vector);
    assert(b ^ (b << 5) == d ^ (d << 5) ==> b == d) by (bit_vector);
    assert(x == 0 ==> (x ^ (x << 13)) == 0) by (bit_vector);
    assert(a == 0 ==> (a ^ (a >> 17)) == 0) by (bit_vector);
    assert(b == 0 ==> (b ^ (b << 5)) == 0) by (bit_vector);
    assert(x != 0 ==> (x ^ (x << 13)) != 0) by (bit_vector);
    assert(a != 0 ==> (a ^ (a >> 17)) != 0) by (bit_vector);
    assert(b != 0 ==> (b ^ (b << 5)) != 0) by (bit_vector);
}

/// A worker's generator starts from its index times a fixed odd number, made odd.
pub proof fn seeds_are_odd(idx: usize, s: u32)
    requires
        call_ensures(seed, (idx,), s),
    ensures
        s == (idx as u32).wrapping_mul(0x9E37_79B9u32) | 1,
        s % 2 == 1,
{
    let m: u32 = (idx as u32).wrapping_mul(0x9E37_79B9u32);
    assert((m | 1) % 2 == 1) by (bit_vector);
}

} // verus!
