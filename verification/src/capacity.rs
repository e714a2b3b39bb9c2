use vstd::prelude::*;
use vstd::arithmetic::power2::{
    pow2, lemma_pow2_pos, lemma_pow2_unfold, lemma_pow2_strictly_increases, lemma_pow2_adds,
};
use vstd::bits::lemma_usize_low_bits_mask_is_mod;
use vstd::layout::unsigned_int_max_values;

verus! {

/// The smallest `k` with `2^k >= n`.
pub open spec fn ceil_log2(n: nat) -> nat
    decreases n,
{
    if n <= 1 {
        0
    } else {
        1 + ceil_log2(((n + 1) / 2) as nat)
    }
}

/// The smallest power of two that is at least `n` (1 for `n == 0`).
pub open spec fn next_pow2(n: nat) -> nat {
    pow2(ceil_log2(n))
}

/// `next_pow2(n)` is at least `n`, and for `n >= 2` the power just below it is
/// below `n`: no smaller power of two would do.
pub proof fn lemma_next_pow2_bounds(n: nat)
    ensures
        next_pow2(n) >= n,
        next_pow2(n) >= 1,
        n >= 2 ==> ceil_log2(n) >= 1 && pow2((ceil_log2(n) - 1) as nat) < n,
    decreases n,
{
    lemma_pow2_pos(ceil_log2(n));
    vstd::arithmetic::power2::lemma2_to64();
    if n >= 2 {
        let m = ((n + 1) / 2) as nat;
        lemma_next_pow2_bounds(m);
        lemma_pow2_unfold(ceil_log2(n));
        if m >= 2 {
            lemma_pow2_unfold(ceil_log2(m));
        }
    }
}

/// `2^k` is monotonic in `k`.
pub proof fn lemma_pow2_monotonic(k1: nat, k2: nat)
    requires
        k1 <= k2,
    ensures
        pow2(k1) <= pow2(k2),
{
    if k1 < k2 {
        lemma_pow2_strictly_increases(k1, k2);
    }
}

/// `next_pow2(n)` is the least power of two that is at least `n`: it is a
/// power of two, it is at least `n`, and every power of two that is at least
/// `n` is at least as large.
pub proof fn lemma_next_pow2_least(n: nat)
    ensures
        exists|k: nat| pow2(k) == next_pow2(n),
        next_pow2(n) >= n,
        next_pow2(n) >= 1,
        forall|k: nat| #[trigger] pow2(k) >= n ==> pow2(k) >= next_pow2(n),
{
    let c = ceil_log2(n);
    lemma_next_pow2_bounds(n);
    assert(pow2(c) == next_pow2(n));
    assert forall|k: nat| #[trigger] pow2(k) >= n implies pow2(k) >= next_pow2(n) by {
        if k < c {
            lemma_pow2_monotonic(k, (c - 1) as nat);
            if n < 2 {
                assert(c == 0);
            }
        } else {
            lemma_pow2_monotonic(c, k);
        }
    }
}

/// A power of two `2^k` that is at least `n`, where `2^(k-1)` is not, is
/// `next_pow2(n)`.
pub proof fn lemma_ceil_log2_unique(n: nat, k: nat)
    requires
        pow2(k) >= n,
        k == 0 || pow2((k - 1) as nat) < n,
    ensures
        k == ceil_log2(n),
{
    let c = ceil_log2(n);
    lemma_next_pow2_bounds(n);
    if k < c {
        if k < (c - 1) as nat {
            lemma_pow2_strictly_increases(k, (c - 1) as nat);
        }
    } else if k > c {
        if c < (k - 1) as nat {
            lemma_pow2_strictly_increases(c, (k - 1) as nat);
        }
    }
}

/// Rounds `n` up to a power of two, as `usize::next_power_of_two` does
/// (`0` and `1` both give `1`).
pub fn next_power_of_two(n: usize) -> (r: usize)
    requires
        n <= usize::MAX / 2 + 1,
    ensures
        r as nat == next_pow2(n as nat),
        r >= n,
        r >= 1,
        exists|k: nat| pow2(k) == r,
        forall|k: nat| #[trigger] pow2(k) >= n ==> pow2(k) >= r,
        r <= usize::MAX / 2 + 1,
{
    let mut p: usize = 1;
    let ghost mut k: nat = 0;
    proof {
        assert(pow2(0) == 1) by {
            lemma_pow2_unfold(1);
            vstd::arithmetic::power2::lemma2_to64();
        }
    }
    while p < n
        invariant
            p as nat == pow2(k),
            p >= 1,
            p <= usize::MAX / 2 + 1,
            k == 0 || pow2((k - 1) as nat) < n,
            n <= usize::MAX / 2 + 1,
        decreases usize::MAX - p,
    {
        proof {
            lemma_pow2_unfold(k + 1);
            lemma_pow2_double_fits(k);
        }
        p = p * 2;
        proof {
            k = k + 1;
        }
    }
    proof {
        lemma_ceil_log2_unique(n as nat, k);
        lemma_next_pow2_bounds(n as nat);
        lemma_next_pow2_least(n as nat);
    }
    p
}

/// Doubling a power of two that is below `usize::MAX / 2 + 1` (itself a
/// power of two) stays within it.
pub proof fn lemma_pow2_double_fits(k: nat)
    requires
        pow2(k) < usize::MAX / 2 + 1,
    ensures
        2 * pow2(k) <= usize::MAX / 2 + 1,
{
    unsigned_int_max_values();
    let b = usize::BITS as nat;
    assert(b == 32 || b == 64);
    lemma_pow2_unfold(b);
    assert(pow2((b - 1) as nat) == usize::MAX / 2 + 1);
    if k >= (b - 1) as nat {
        if k > (b - 1) as nat {
            lemma_pow2_strictly_increases((b - 1) as nat, k);
        }
    } else if k + 1 < (b - 1) as nat {
        lemma_pow2_strictly_increases(k + 1, (b - 1) as nat);
        lemma_pow2_unfold(k + 1);
    } else {
        lemma_pow2_unfold(k + 1);
    }
}

/// A power of two that fits in a `usize` has an exponent below `usize::BITS`.
pub proof fn lemma_pow2_exponent_fits(k: nat)
    requires
        pow2(k) <= usize::MAX,
    ensures
        k < usize::BITS,
{
    unsigned_int_max_values();
    if k >= usize::BITS {
        if k > usize::BITS as nat {
            lemma_pow2_strictly_increases(usize::BITS as nat, k);
        }
    }
}

/// For a power of two `cap`, masking with `cap - 1` is the remainder by `cap`.
pub proof fn lemma_mask_is_mod(x: usize, cap: usize, k: nat)
    requires
        cap as nat == pow2(k),
    ensures
        x & ((cap - 1) as usize) == x % cap,
{
    lemma_pow2_exponent_fits(k);
    lemma_pow2_pos(k);
    assert(vstd::bits::low_bits_mask(k) as usize == (cap - 1) as usize);
    lemma_usize_low_bits_mask_is_mod(x, k);
}

/// A power of two that fits in a `usize` divides `usize::MAX + 1`, so any
/// multiple of the word range is a multiple of it.
pub proof fn lemma_pow2_divides_word(k: nat)
    requires
        pow2(k) <= usize::MAX,
    ensures
        (usize::MAX as int + 1) % (pow2(k) as int) == 0,
{
    lemma_pow2_exponent_fits(k);
    unsigned_int_max_values();
    let rest = (usize::BITS as nat - k) as nat;
    lemma_pow2_adds(k, rest);
    assert(k + rest == usize::BITS as nat);
    lemma_pow2_pos(k);
    lemma_pow2_pos(rest);
    vstd::arithmetic::div_mod::lemma_mod_multiples_basic(pow2(rest) as int, pow2(k) as int);
    vstd::arithmetic::mul::lemma_mul_is_commutative(pow2(rest) as int, pow2(k) as int);
}

/// Subtracting with wraparound and then masking with `cap - 1` gives the
/// remainder of the true difference by `cap`, since `cap` divides the word range.
pub proof fn lemma_wrapping_sub_mask(a: usize, b: usize, cap: usize, k: nat)
    requires
        cap as nat == pow2(k),
    ensures
        a.wrapping_sub(b) & ((cap - 1) as usize) == (a - b) % (cap as int),
{
    let r = a.wrapping_sub(b);
    lemma_mask_is_mod(r, cap, k);
    lemma_pow2_divides_word(k);
    lemma_pow2_pos(k);
    if a - b < 0 {
        let w = usize::MAX as int + 1;
        vstd::arithmetic::div_mod::lemma_fundamental_div_mod(w, cap as int);
        vstd::arithmetic::div_mod::lemma_mod_multiples_vanish(w / (cap as int), a - b, cap as int);
    }
}

} // verus!
