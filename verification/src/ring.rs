//! Arithmetic on positions of a circular buffer.
//!
//! The rx and tx ends of a buffer are `usize` counters that wrap around, and the slot of an
//! index is the index modulo the capacity, a power of two. This module states these notions as
//! spec functions and proves the facts about them that the buffers rely on.
use vstd::prelude::*;
use vstd::arithmetic::power2::{pow2, lemma_pow2_adds, lemma_pow2_pos, lemma_pow2_strictly_increases};
use vstd::arithmetic::div_mod::{lemma_mod_multiples_vanish, lemma_small_mod, lemma_fundamental_div_mod, lemma_mod_pos_bound};
use vstd::bits::{low_bits_mask, lemma_usize_low_bits_mask_is_mod, lemma_usize_pow2_no_overflow};

verus! {

/// The number of distinct `usize` values: counters are taken modulo this number.
pub open spec fn range() -> int {
    usize::MAX as int + 1
}

/// `n` is a valid capacity: a power of two below `range()`.
pub open spec fn is_capacity(n: int) -> bool {
    exists|e: nat| e < usize::BITS && pow2(e) == n
}

/// The largest capacity, half of `range()`.
pub open spec fn max_capacity() -> int {
    range() / 2
}

/// The counter `a` advanced by `k` steps, for `0 <= k < range()`: what `wrapping_add` gives.
pub open spec fn wrap_add(a: usize, k: int) -> int {
    if a + k < range() {
        a + k
    } else {
        a + k - range()
    }
}

/// The number of steps from counter `b` to counter `a`: what `a.wrapping_sub(b)` gives.
pub open spec fn dist(a: usize, b: usize) -> int {
    if a >= b {
        a - b
    } else {
        a - b + range()
    }
}

/// The smallest capacity that is at least `n`.
pub open spec fn capacity_for(n: int) -> int {
    choose|c: int| is_capacity(c) && n <= c && forall|d: int| is_capacity(d) && n <= d ==> c <= d
}

/// `range()` is `2^BITS`.
pub proof fn lemma_range()
    ensures
        range() == pow2(usize::BITS as nat),
        usize::BITS == 32 || usize::BITS == 64,
{
    vstd::layout::unsigned_int_max_values();
}

/// A capacity is positive, at most `max_capacity()`, and divides `range()`.
pub proof fn lemma_capacity(cap: int)
    requires
        is_capacity(cap),
    ensures
        1 <= cap <= max_capacity(),
        range() % cap == 0,
        cap == 1 || cap % 2 == 0,
        cap == 1 || is_capacity(cap / 2),
        cap < max_capacity() ==> is_capacity(2 * cap),
{
    lemma_range();
    let e = choose|e: nat| e < usize::BITS && pow2(e) == cap;
    let b = usize::BITS as nat;
    lemma_pow2_pos(e);
    lemma_pow2_adds(e, (b - e) as nat);
    lemma_pow2_adds(1, (b - 1) as nat);
    assert(pow2(1) == 2) by { vstd::arithmetic::power2::lemma2_to64(); }
    assert(max_capacity() == pow2((b - 1) as nat));
    if e < b - 1 {
        lemma_pow2_strictly_increases(e, (b - 1) as nat);
    }
    lemma_pow2_pos((b - e) as nat);
    lemma_mod_multiples_vanish(pow2((b - e) as nat) as int, 0, cap);
    assert(range() == cap * pow2((b - e) as nat));
    if e > 0 {
        lemma_pow2_adds(1, (e - 1) as nat);
        assert(cap == 2 * pow2((e - 1) as nat));
        assert(is_capacity(cap / 2));
    } else {
        assert(pow2(0) == 1) by { vstd::arithmetic::power2::lemma2_to64(); }
    }
    if cap < max_capacity() {
        lemma_pow2_adds(1, e);
        if e + 1 >= b - 1 + 1 {
            if e + 1 > b - 1 {
                lemma_pow2_strictly_increases((b - 1) as nat, e + 1);
            }
            assert(false);
        }
        assert(pow2(e + 1) == 2 * cap);
    }
}

/// Masking with `cap - 1` is taking the remainder modulo `cap`.
pub proof fn lemma_mask_is_mod(x: usize, cap: usize)
    requires
        is_capacity(cap as int),
    ensures
        x & ((cap - 1) as usize) == x % cap,
{
    let e = choose|e: nat| e < usize::BITS && pow2(e) == cap;
    lemma_usize_pow2_no_overflow(e);
    lemma_usize_low_bits_mask_is_mod(x, e);
    assert(low_bits_mask(e) == cap - 1);
}

/// The slot of a counter advanced with wrap-around is the slot of the unwrapped sum.
pub proof fn lemma_wrap_mod(a: usize, k: int, cap: int)
    requires
        0 <= k < range(),
        is_capacity(cap),
    ensures
        0 <= wrap_add(a, k) < range(),
        wrap_add(a, k) % cap == (a + k) % cap,
{
    lemma_capacity(cap);
    if a + k >= range() {
        let m = range() / cap;
        lemma_fundamental_div_mod(range(), cap);
        assert(range() == cap * m);
        lemma_mod_multiples_vanish(-m, a + k, cap);
        assert(cap * (-m) + (a + k) == wrap_add(a, k)) by (nonlinear_arith)
            requires
                range() == cap * m,
                wrap_add(a, k) == a + k - range(),
        ;
    }
}

/// Advancing a counter twice is advancing it by the sum of the steps.
pub proof fn lemma_wrap_add_add(a: usize, j: int, k: int)
    requires
        0 <= j,
        0 <= k,
        j + k < range(),
    ensures
        wrap_add(wrap_add(a, j) as usize, k) == wrap_add(a, j + k),
{
}

/// The distance from `b` to `b` advanced by `k` is `k`.
pub proof fn lemma_dist_wrap_add(b: usize, k: int)
    requires
        0 <= k < range(),
    ensures
        dist(wrap_add(b, k) as usize, b) == k,
{
}

/// Advancing `b` by the distance from `b` to `a` gives `a`.
pub proof fn lemma_wrap_add_dist(a: usize, b: usize)
    ensures
        0 <= dist(a, b) < range(),
        wrap_add(b, dist(a, b)) == a,
{
}

/// Distinct offsets below `m` from one base fall into distinct slots.
pub proof fn lemma_mod_distinct(x: int, k1: int, k2: int, m: int)
    requires
        0 <= k1 < m,
        0 <= k2 < m,
        k1 != k2,
        0 <= x,
    ensures
        (x + k1) % m != (x + k2) % m,
{
    lemma_fundamental_div_mod(x + k1, m);
    lemma_fundamental_div_mod(x + k2, m);
    let q1 = (x + k1) / m;
    let q2 = (x + k2) / m;
    if (x + k1) % m == (x + k2) % m {
        assert(m * (q1 - q2) == k1 - k2) by (nonlinear_arith)
            requires
                x + k1 == m * q1 + (x + k1) % m,
                x + k2 == m * q2 + (x + k2) % m,
                (x + k1) % m == (x + k2) % m,
        ;
        if q1 - q2 >= 1 {
            assert(m * (q1 - q2) >= m) by (nonlinear_arith)
                requires
                    q1 - q2 >= 1,
                    m > 0,
            ;
        } else if q1 - q2 <= -1 {
            assert(m * (q1 - q2) <= -m) by (nonlinear_arith)
                requires
                    q1 - q2 <= -1,
                    m > 0,
            ;
        }
    }
}

/// Of two capacities, a smaller one is at most half of a larger one.
pub proof fn lemma_capacity_order(d: int, p: int)
    requires
        is_capacity(d),
        is_capacity(p),
        d < p,
    ensures
        2 * d <= p,
{
    let a = choose|e: nat| e < usize::BITS && pow2(e) == d;
    let b = choose|e: nat| e < usize::BITS && pow2(e) == p;
    if a >= b {
        if a > b {
            lemma_pow2_strictly_increases(b, a);
        }
        assert(false);
    }
    lemma_pow2_adds(1, a);
    assert(pow2(1) == 2) by { vstd::arithmetic::power2::lemma2_to64(); }
    if a + 1 < b {
        lemma_pow2_strictly_increases(a + 1, b);
    }
}

/// A slot that a fresh array marks with `s + 1` cannot be the slot of index `s + 1` when there
/// are at least two slots.
pub proof fn lemma_fresh_mark(x: int, m: int)
    requires
        0 <= x,
        2 <= m,
    ensures
        x % m + 1 != x,
{
    lemma_fundamental_div_mod(x, m);
    lemma_mod_pos_bound(x, m);
    let q = x / m;
    let r = x % m;
    assert(r + 1 != x) by (nonlinear_arith)
        requires
            x == m * q + r,
            0 <= r < m,
            0 <= x,
            2 <= m,
    ;
}

/// Returns the smallest capacity that is at least `n`.
pub fn next_capacity(n: usize) -> (c: usize)
    requires
        n <= max_capacity(),
    ensures
        c == capacity_for(n as int),
        is_capacity(c as int),
        n <= c,
        forall|d: int| is_capacity(d) && n <= d ==> c <= d,
{
    proof {
        lemma_range();
        assert(pow2(0) == 1) by { vstd::arithmetic::power2::lemma2_to64(); }
        assert forall|d: int| is_capacity(d) && d < 1 implies d < n by {
            lemma_capacity(d);
        }
    }
    let mut p: usize = 1;
    while p < n
        invariant
            is_capacity(p as int),
            n <= max_capacity(),
            forall|d: int| is_capacity(d) && d < p ==> d < n,
        decreases max_capacity() - p,
    {
        proof {
            lemma_capacity(p as int);
            lemma_capacity(2 * p);
            assert forall|d: int| is_capacity(d) && d < 2 * p implies d < n by {
                if d > p {
                    lemma_capacity_order(p as int, d);
                }
            }
        }
        p = p * 2;
    }
    proof {
        assert forall|d: int| is_capacity(d) && n <= d implies p <= d by {}
        let c = capacity_for(n as int);
        assert(is_capacity(p as int) && n <= p && forall|d: int| is_capacity(d) && n <= d ==> p <= d);
        assert(is_capacity(c) && n <= c && forall|d: int| is_capacity(d) && n <= d ==> c <= d);
    }
    p
}

/// A capacity is the smallest capacity that is at least itself.
pub proof fn lemma_capacity_for(c: int)
    requires
        is_capacity(c),
    ensures
        capacity_for(c) == c,
{
    let d = capacity_for(c);
    assert(is_capacity(c) && c <= c && forall|e: int| is_capacity(e) && c <= e ==> c <= e);
    assert(is_capacity(d) && c <= d && forall|e: int| is_capacity(e) && c <= e ==> d <= e);
}

} // verus!
