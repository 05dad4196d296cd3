//! The work of the wake-up benchmark, whose low-priority tasks sleep until
//! a common wake-up time.
use vstd::prelude::*;

verus! {

/// The value that step `i` of `load(n)` adds to the running sum.
pub open spec fn wakeup_term(n: u64, i: u64) -> u64 {
    ((i ^ ((i * 3) as u64)) ^ ((i + n) as u64)) / ((i + 1) as u64)
}

/// The running sum of `load(n)` after its first `k` steps.
pub open spec fn wakeup_sum(n: u64, k: nat) -> int
    decreases k,
{
    if k == 0 {
        n as int
    } else {
        wakeup_sum(n, (k - 1) as nat) + wakeup_term(n, (k - 1) as u64)
    }
}

/// The inputs on which `load` computes without overflow: `3 * i` stays in
/// range for every step `i < n`, and so does the final sum.
pub open spec fn load_fits(n: u64) -> bool {
    &&& 3 * n <= u64::MAX + 3
    &&& wakeup_sum(n, n as nat) <= u64::MAX
}

/// The running sum never shrinks.
pub proof fn lemma_wakeup_sum_monotone(n: u64, j: nat, k: nat)
    requires
        j <= k,
    ensures
        wakeup_sum(n, j) <= wakeup_sum(n, k),
    decreases k,
{
    if j < k {
        lemma_wakeup_sum_monotone(n, j, (k - 1) as nat);
    }
}

/// A step `i >= 1` of `load(n)` with `n` a 32-bit number adds at most
/// `5 + n / 2`; step 0 adds `n`.
proof fn lemma_wakeup_term_bound(n: u64, i: u64)
    requires
        n <= u32::MAX,
        i < n,
    ensures
        i == 0 ==> wakeup_term(n, i) == n,
        i >= 1 ==> 2 * wakeup_term(n, i) <= 10 + n,
{
    let j: u64 = (i * 3) as u64;
    let k: u64 = (i + n) as u64;
    assert((i ^ j) ^ k <= i + j + k) by (bit_vector);
    if i == 0 {
        assert(j == 0 && k == n);
        assert((0u64 ^ 0u64) ^ n == n) by (bit_vector);
        assert(((i ^ j) ^ k) / 1 == (i ^ j) ^ k);
    } else {
        let x: u64 = (i ^ j) ^ k;
        let d: u64 = (i + 1) as u64;
        let t: u64 = x / d;
        assert(t == wakeup_term(n, i));
        assert(x <= 5 * d + n);
        assert(t * d <= x) by (nonlinear_arith)
            requires
                d > 0,
                t == x / d,
        ;
        assert(2 * t <= 10 + n) by (nonlinear_arith)
            requires
                t * d <= 5 * d + n,
                d >= 2,
                n >= 0,
        ;
    }
}

/// The running sum of `load(n)` with `n` a 32-bit number, after `k >= 1`
/// steps, is at most `2n + (k - 1) * (5 + n / 2)`.
proof fn lemma_wakeup_sum_bound(n: u64, k: nat)
    requires
        n <= u32::MAX,
        1 <= k <= n,
    ensures
        2 * wakeup_sum(n, k) <= 4 * n + (k - 1) * (10 + n),
    decreases k,
{
    reveal_with_fuel(wakeup_sum, 2);
    if k == 1 {
        lemma_wakeup_term_bound(n, 0);
    } else {
        lemma_wakeup_sum_bound(n, (k - 1) as nat);
        lemma_wakeup_term_bound(n, (k - 1) as u64);
        assert((k - 1) * (10 + n) == (k - 2) * (10 + n) + (10 + n)) by (nonlinear_arith);
    }
}

/// `load` computes without overflow on every 32-bit number.
pub proof fn lemma_load_fits_u32(n: u64)
    requires
        n <= u32::MAX,
    ensures
        load_fits(n),
{
    if n >= 1 {
        lemma_wakeup_sum_bound(n, n as nat);
        assert((n - 1) * (10 + n) <= 0xFFFF_FFFFu64 * (10 + 0xFFFF_FFFFu64)) by (nonlinear_arith)
            requires
                1 <= n <= 0xFFFF_FFFFu64,
        ;
    }
}

/// A busy workload whose running time grows linearly with `n`: it adds
/// `n` mixed terms to `n`.
pub fn load(n: &u64) -> (sum: u64)
    requires
        load_fits(*n),
    ensures
        sum == wakeup_sum(*n, *n as nat),
{
    let mut sum: u64 = *n;
    for i in 0..*n
        invariant
            load_fits(*n),
            sum == wakeup_sum(*n, i as nat),
    {
        proof {
            lemma_wakeup_sum_monotone(*n, (i + 1) as nat, *n as nat);
        }
        let term: u64 = ((i ^ (i * 3)) ^ (i + *n)) / (i + 1);
        assert(term == wakeup_term(*n, i));
        sum += term;
    }
    sum
}

} // verus!
