//! The order in which a worker visits its victims: all others once, from a random start.

use vstd::arithmetic::div_mod::lemma_fundamental_div_mod_converse;
use vstd::prelude::*;

verus! {

/// The `k`-th victim among `n` places for the one at `base`, when the walk starts `start` places
/// behind its neighbour.
pub open spec fn rotated(base: int, start: int, k: int, n: int) -> int {
    (base + 1 + (start + k) % (n - 1)) % n
}

/// The step of the walk at which `place` is visited.
pub open spec fn visit_of(base: int, start: int, place: int, n: int) -> int {
    ((place - base - 1) % n - start) % (n - 1)
}

/// A number below twice the modulus needs at most one subtraction.
pub proof fn reduce_once(a: int, m: int)
    requires
        0 < m,
        -m <= a < 2 * m,
    ensures
        a < 0 ==> a % m == a + m,
        0 <= a < m ==> a % m == a,
        m <= a ==> a % m == a - m,
{
    if a < 0 {
        lemma_fundamental_div_mod_converse(a, m, -1, a + m);
    } else if a < m {
        lemma_fundamental_div_mod_converse(a, m, 0, a);
    } else {
        lemma_fundamental_div_mod_converse(a, m, 1, a - m);
    }
}

/// A walk stays inside the `n` places and never visits its own.
pub proof fn rotated_avoids_base(base: int, start: int, k: int, n: int)
    requires
        1 < n,
        0 <= base < n,
        0 <= start < n - 1,
        0 <= k < n - 1,
    ensures
        0 <= rotated(base, start, k, n) < n,
        rotated(base, start, k, n) != base,
{
    reduce_once(start + k, n - 1);
    reduce_once(base + 1 + (start + k) % (n - 1), n);
}

/// A walk reaches every place but its own.
pub proof fn rotated_reaches_all(base: int, start: int, place: int, n: int)
    requires
        1 < n,
        0 <= base < n,
        0 <= start < n - 1,
        0 <= place < n,
        place != base,
    ensures
        0 <= visit_of(base, start, place, n) < n - 1,
        rotated(base, start, visit_of(base, start, place, n), n) == place,
{
    reduce_once(place - base - 1, n);
    let d: int = (place - base - 1) % n;
    reduce_once(d - start, n - 1);
    let k: int = (d - start) % (n - 1);
    reduce_once(start + k, n - 1);
    reduce_once(base + 1 + d, n);
}

/// A walk visits no place twice.
pub proof fn rotated_never_repeats(base: int, start: int, k1: int, k2: int, n: int)
    requires
        1 < n,
        0 <= base < n,
        0 <= start < n - 1,
        0 <= k1 < n - 1,
        0 <= k2 < n - 1,
        rotated(base, start, k1, n) == rotated(base, start, k2, n),
    ensures
        k1 == k2,
{
    reduce_once(start + k1, n - 1);
    reduce_once(start + k2, n - 1);
    reduce_once(base + 1 + (start + k1) % (n - 1), n);
    reduce_once(base + 1 + (start + k2) % (n - 1), n);
}

} // verus!
