//! Powers of two, low-bit masks and the generator that picks scan offsets.

use vstd::arithmetic::power2::pow2;
use vstd::prelude::*;

verus! {

/// The smallest power of two that is at least `n`; one for zero.
pub open spec fn ceil_pow2(n: nat) -> nat
    decreases n,
{
    if n <= 1 {
        1
    } else {
        2 * ceil_pow2((n + 1) / 2)
    }
}

/// `n` is a power of two.
pub open spec fn is_power_of_two(n: int) -> bool {
    exists|e: nat| n == #[trigger] pow2(e)
}

/// `ceil_pow2` is a power of two, reaches its argument, and no smaller power of two does.
pub proof fn ceil_pow2_is_least(n: nat)
    ensures
        is_power_of_two(ceil_pow2(n) as int),
        n <= ceil_pow2(n),
        forall|e: nat| n <= #[trigger] pow2(e) ==> ceil_pow2(n) <= pow2(e),
        n >= 1 ==> ceil_pow2(n) < 2 * n,
    decreases n,
{
    broadcast use vstd::arithmetic::power2::lemma_pow2_pos;

    if n <= 1 {
        vstd::arithmetic::power2::lemma2_to64();
        assert(ceil_pow2(n) == pow2(0));
    } else {
        let half: nat = (n + 1) / 2;
        ceil_pow2_is_least(half);
        let e = choose|e: nat| ceil_pow2(half) as int == #[trigger] pow2(e);
        vstd::arithmetic::power2::lemma_pow2_unfold(e + 1);
        assert(ceil_pow2(n) == pow2(e + 1));
        assert forall|d: nat| n <= #[trigger] pow2(d) implies ceil_pow2(n) <= pow2(d) by {
            if d == 0 {
                vstd::arithmetic::power2::lemma2_to64();
            } else {
                vstd::arithmetic::power2::lemma_pow2_unfold(d);
                assert(half <= pow2((d - 1) as nat));
            }
        }
    }
}

/// Rounding up to a power of two keeps order.
pub proof fn ceil_pow2_is_monotonic(a: nat, b: nat)
    requires
        a <= b,
    ensures
        ceil_pow2(a) <= ceil_pow2(b),
    decreases b,
{
    if a > 1 {
        ceil_pow2_is_monotonic((a + 1) / 2, (b + 1) / 2);
    } else {
        ceil_pow2_is_least(b);
        let e = choose|e: nat| ceil_pow2(b) as int == #[trigger] pow2(e);
        vstd::arithmetic::power2::lemma_pow2_pos(e);
    }
}

/// A number in the lower half of the machine word's range can be rounded up to a power of two.
pub proof fn ceil_pow2_fits(n: usize)
    requires
        n <= usize::MAX / 2 + 1,
    ensures
        ceil_pow2(n as nat) <= usize::MAX / 2 + 1,
{
    vstd::arithmetic::power2::lemma2_to64();
    vstd::arithmetic::power2::lemma2_to64_rest();
    ceil_pow2_is_least(n as nat);
    let e: nat = (usize::BITS - 1) as nat;
    assert(vstd::arithmetic::power2::pow2(e) == usize::MAX / 2 + 1);
}

/// Rounds `n` up to a power of two.
pub fn next_power_of_two(n: usize) -> (p: usize)
    requires
        n <= usize::MAX / 2 + 1,
    ensures
        p == ceil_pow2(n as nat),
{
    proof {
        ceil_pow2_fits(n);
        ceil_pow2_is_least(n as nat);
        vstd::arithmetic::power2::lemma2_to64();
    }
    let mut p: usize = 1;
    let ghost mut e: nat = 0;
    while p < n
        invariant
            p == pow2(e),
            p >= 1,
            p <= ceil_pow2(n as nat),
            ceil_pow2(n as nat) <= usize::MAX,
            is_power_of_two(ceil_pow2(n as nat) as int),
            n <= ceil_pow2(n as nat),
        decreases ceil_pow2(n as nat) - p,
    {
        proof {
            let d = choose|d: nat| ceil_pow2(n as nat) as int == #[trigger] pow2(d);
            if d <= e {
                if d < e {
                    vstd::arithmetic::power2::lemma_pow2_strictly_increases(d, e);
                }
                assert(false);
            }
            if e + 1 < d {
                vstd::arithmetic::power2::lemma_pow2_strictly_increases(e + 1, d);
            }
            vstd::arithmetic::power2::lemma_pow2_unfold(e + 1);
            e = e + 1;
        }
        p = p * 2;
    }
    proof {
        ceil_pow2_is_least(n as nat);
        assert(n <= pow2(e));
    }
    p
}

/// A power of two that fits the machine word is at most half of its range.
pub proof fn power_of_two_is_half_at_most(n: int)
    requires
        is_power_of_two(n),
        n <= usize::MAX,
    ensures
        n <= usize::MAX / 2 + 1,
{
    let e = choose|e: nat| n == #[trigger] pow2(e);
    vstd::arithmetic::power2::lemma2_to64();
    vstd::arithmetic::power2::lemma2_to64_rest();
    let w: nat = usize::BITS as nat;
    assert(pow2(w) == usize::MAX + 1);
    if e >= w {
        if e > w {
            vstd::arithmetic::power2::lemma_pow2_strictly_increases(w, e);
        }
        assert(false);
    }
    if e < w - 1 {
        vstd::arithmetic::power2::lemma_pow2_strictly_increases(e, (w - 1) as nat);
    }
    vstd::arithmetic::power2::lemma_pow2_unfold(w);
}

/// Masking with one less than a power of two takes the remainder.
pub proof fn mask_is_remainder(x: usize, mask: usize)
    requires
        is_power_of_two(mask + 1),
        mask < usize::MAX,
    ensures
        x & mask == x as int % (mask + 1),
        x & mask <= mask,
{
    let e = choose|e: nat| mask + 1 == #[trigger] pow2(e);
    if e >= usize::BITS {
        vstd::arithmetic::power2::lemma2_to64();
        vstd::arithmetic::power2::lemma2_to64_rest();
        if e > usize::BITS {
            vstd::arithmetic::power2::lemma_pow2_strictly_increases(usize::BITS as nat, e);
        }
        assert(false);
    }
    vstd::bits::lemma_usize_low_bits_mask_is_mod(x, e);
    vstd::arithmetic::power2::lemma_pow2_pos(e);
    assert(mask == vstd::bits::low_bits_mask(e) as usize);
}

/// The remainder by a power of two that divides the machine word is not changed by wrapping.
pub proof fn wrapping_keeps_remainder(a: usize, b: usize, n: int)
    requires
        is_power_of_two(n),
        n <= usize::MAX,
    ensures
        a.wrapping_add(b) as int % n == (a + b) % n,
{
    let e = choose|e: nat| n == #[trigger] pow2(e);
    vstd::arithmetic::power2::lemma2_to64();
    vstd::arithmetic::power2::lemma2_to64_rest();
    let w: nat = usize::BITS as nat;
    assert(pow2(w) == usize::MAX + 1);
    if e >= w {
        if e > w {
            vstd::arithmetic::power2::lemma_pow2_strictly_increases(w, e);
        }
        assert(false);
    }
    vstd::arithmetic::power2::lemma_pow2_pos(e);
    if a + b > usize::MAX {
        vstd::arithmetic::power2::lemma_pow2_adds(e, (w - e) as nat);
        let q: int = pow2((w - e) as nat) as int;
        assert(a.wrapping_add(b) == a + b - n * q);
        vstd::arithmetic::div_mod::lemma_mod_multiples_vanish(-q, a + b, n);
        assert(n * (-q) + (a + b) == a + b - n * q) by (nonlinear_arith);
    }
}

/// One step of the 32-bit xorshift generator with shifts 13, 17 and 5.
pub open spec fn xorshift32(x: u32) -> u32 {
    let a = x ^ (x << 13);
    let b = a ^ (a >> 17);
    b ^ (b << 5)
}

/// Advances a scan generator and returns its new state.
pub fn next_rand(rng: &mut u32) -> (x: u32)
    ensures
        x == xorshift32(*old(rng)),
        *final(rng) == x,
{
    let mut x: u32 = *rng;
    x = x ^ (x << 13);
    x = x ^ (x >> 17);
    x = x ^ (x << 5);
    *rng = x;
    x
}

/// The generator never falls into zero, where it would stay.
pub proof fn xorshift32_stays_nonzero(x: u32)
    requires
        x != 0,
    ensures
        xorshift32(x) != 0,
{
    let a: u32 = x ^ (x << 13);
    let b: u32 = a ^ (a >> 17);
    let c: u32 = b ^ (b << 5);
    assert(x != 0 ==> a != 0) by (bit_vector)
        requires
            a == x ^ (x << 13),
    ;
    assert(a != 0 ==> b != 0) by (bit_vector)
        requires
            b == a ^ (a >> 17),
    ;
    assert(b != 0 ==> c != 0) by (bit_vector)
        requires
            c == b ^ (b << 5),
    ;
}

/// The generator's starting state for worker `idx`.
pub open spec fn seed_of(idx: usize) -> u32 {
    (idx as u32).wrapping_mul(0x9E37_79B9u32) | 1
}

/// Computes the generator's starting state for worker `idx`; it is never zero.
pub fn seed(idx: usize) -> (s: u32)
    ensures
        s == seed_of(idx),
        s != 0,
{
    let m: u32 = (idx as u32).wrapping_mul(0x9E37_79B9u32);
    assert(m | 1 != 0) by (bit_vector);
    m | 1
}

/// Confines `n` to the range from `low` to `high`.
pub open spec fn clamped(n: int, low: int, high: int) -> int {
    if n < low {
        low
    } else if n > high {
        high
    } else {
        n
    }
}

/// Confines `n` to the range from `low` to `high`.
pub fn clamp(n: usize, low: usize, high: usize) -> (c: usize)
    requires
        low <= high,
    ensures
        c == clamped(n as int, low as int, high as int),
{
    if n < low {
        low
    } else if n > high {
        high
    } else {
        n
    }
}

} // verus!
