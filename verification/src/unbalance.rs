//! The work of the unbalanced-load benchmark, a parallel summation: `NUM_TASKS` tasks each sum
//! a workload over their part of `NUM_DATA` numbers, meet at a barrier, and
//! the last one to finish wakes the main task.
use vstd::prelude::*;

verus! {

/// How many numbers are summed.
pub const NUM_DATA: usize = 200;

/// How many tasks share the work.
pub const NUM_TASKS: usize = 200;

/// How many numbers each task takes.
pub open spec fn chunk() -> int {
    NUM_DATA as int / NUM_TASKS as int
}

/// How many steps `load(n)` makes.
pub open spec fn load_steps(n: u64) -> int {
    10000 + n / (chunk() as u64) * 20000
}

/// The value that step `i` of `load(n)` adds to the running sum.
pub open spec fn unbalance_term(n: u64, i: u64) -> u64 {
    (i ^ ((i + n) as u64)) >> 10u64
}

/// The running sum of `load(n)` after its first `k` steps.
pub open spec fn unbalance_sum(n: u64, k: nat) -> int
    decreases k,
{
    if k == 0 {
        n as int
    } else {
        unbalance_sum(n, (k - 1) as nat) + unbalance_term(n, (k - 1) as u64)
    }
}

/// The inputs on which `load` computes without overflow: the step count,
/// `i + n` at every step, and the final sum stay in range.
pub open spec fn load_fits(n: u64) -> bool {
    &&& load_steps(n) <= u64::MAX
    &&& load_steps(n) - 1 + n <= u64::MAX
    &&& unbalance_sum(n, load_steps(n) as nat) <= u64::MAX
}

/// The running sum never shrinks.
pub proof fn lemma_unbalance_sum_monotone(n: u64, j: nat, k: nat)
    requires
        j <= k,
    ensures
        unbalance_sum(n, j) <= unbalance_sum(n, k),
    decreases k,
{
    if j < k {
        lemma_unbalance_sum_monotone(n, j, (k - 1) as nat);
    }
}

/// A costly workload: `10000 + n * 20000` steps (each task takes one
/// number), each adding a mix of the step and `n` to the running sum,
/// which starts at `n`. The benchmark's task yields the CPU once it is done.
pub fn load(n: &u64) -> (sum: u64)
    requires
        load_fits(*n),
    ensures
        sum == unbalance_sum(*n, load_steps(*n) as nat),
{
    let chunk: u64 = (NUM_DATA / NUM_TASKS) as u64;
    let steps: u64 = 10000 + (*n / chunk * 20000);
    assert(steps == load_steps(*n));
    let mut sum: u64 = *n;
    for i in 0..steps
        invariant
            load_fits(*n),
            steps == load_steps(*n),
            sum == unbalance_sum(*n, i as nat),
    {
        proof {
            lemma_unbalance_sum_monotone(*n, (i + 1) as nat, steps as nat);
        }
        let term: u64 = (i ^ (i + *n)) >> 10;
        assert(term == unbalance_term(*n, i));
        sum = sum + term;
    }
    sum
}

/// A step `i < 2^35` of `load(n)` with `n < 2^20` adds less than `2^26`.
proof fn lemma_unbalance_term_small(n: u64, i: u64)
    requires
        n < 0x10_0000,
        i < 0x8_0000_0000,
    ensures
        unbalance_term(n, i) < 0x400_0000,
{
    assert((i ^ ((i + n) as u64)) >> 10u64 < 0x400_0000) by (bit_vector)
        requires
            n < 0x10_0000,
            i < 0x8_0000_0000,
    ;
}

/// Over its first `k <= 2^35` steps, `load(n)` with `n < 2^20` adds less
/// than `2^26` per step.
proof fn lemma_unbalance_sum_bound(n: u64, k: nat)
    requires
        n < 0x10_0000,
        k <= 0x8_0000_0000,
    ensures
        unbalance_sum(n, k) <= n + k * 0x400_0000,
    decreases k,
{
    if k > 0 {
        lemma_unbalance_sum_bound(n, (k - 1) as nat);
        lemma_unbalance_term_small(n, (k - 1) as u64);
    }
}

/// `load` computes without overflow on every `n < 2^20`, and so on every
/// number of the data: each task of the benchmark can run its workload.
pub proof fn lemma_load_fits_below(n: u64)
    requires
        n < 0x10_0000,
    ensures
        load_fits(n),
{
    assert(chunk() == 1);
    assert((chunk() as u64) == 1u64);
    assert(n / (chunk() as u64) == n);
    assert(load_steps(n) <= 10000 + 0xF_FFFF * 20000);
    lemma_unbalance_sum_bound(n, load_steps(n) as nat);
    assert(load_steps(n) * 0x400_0000 <= (10000 + 0xF_FFFF * 20000) * 0x400_0000) by (nonlinear_arith)
        requires
            load_steps(n) <= 10000 + 0xF_FFFF * 20000,
            load_steps(n) >= 0,
    ;
}

/// Whether `load(n)` computes without overflow, that is, whether `load`
/// accepts `n`.
pub fn check_load_fits(n: &u64) -> (fits: bool)
    ensures
        fits == load_fits(*n),
{
    let chunk: u64 = (NUM_DATA / NUM_TASKS) as u64;
    let scaled: u64 = match (*n / chunk).checked_mul(20000) {
        Some(m) => m,
        None => return false,
    };
    let steps: u64 = match scaled.checked_add(10000) {
        Some(s) => s,
        None => return false,
    };
    assert(steps == load_steps(*n));
    if steps - 1 > u64::MAX - *n {
        return false;
    }
    let mut sum: u64 = *n;
    for i in 0..steps
        invariant
            steps == load_steps(*n),
            load_steps(*n) - 1 + *n <= u64::MAX,
            sum == unbalance_sum(*n, i as nat),
    {
        let term: u64 = (i ^ (i + *n)) >> 10;
        assert(term == unbalance_term(*n, i));
        match sum.checked_add(term) {
            Some(next) => {
                sum = next;
            },
            None => {
                proof {
                    lemma_unbalance_sum_monotone(*n, (i + 1) as nat, steps as nat);
                }
                return false;
            },
        }
    }
    true
}

/// The first and the one-past-last index of the numbers that task `i` sums:
/// `chunk()` numbers from `i * chunk()`, cut at `NUM_DATA`.
pub open spec fn part_bounds(i: int) -> (int, int) {
    let left = i * chunk();
    let right = if left + chunk() <= NUM_DATA { left + chunk() } else { NUM_DATA as int };
    (left, right)
}

/// The part of the numbers that task `i` sums, as a half-open range.
pub fn part_range(i: usize) -> (range: (usize, usize))
    requires
        i * chunk() + chunk() <= usize::MAX,
    ensures
        range.0 == part_bounds(i as int).0,
        range.1 == part_bounds(i as int).1,
{
    let chunk: usize = NUM_DATA / NUM_TASKS;
    let left: usize = i * chunk;
    let end: usize = left + chunk;
    let right: usize = if end <= NUM_DATA { end } else { NUM_DATA };
    (left, right)
}

/// The parts of the tasks tile the numbers: the first starts at 0, each
/// starts where the one before it ends, none is reversed, and the last ends
/// at `NUM_DATA`; so every number is summed by exactly one task.
pub proof fn lemma_parts_tile_data()
    ensures
        part_bounds(0).0 == 0,
        forall|i: int|
            0 <= i < NUM_TASKS - 1 ==> #[trigger] part_bounds(i).1 == part_bounds(i + 1).0,
        forall|i: int| 0 <= i < NUM_TASKS ==> #[trigger] part_bounds(i).0 <= part_bounds(i).1,
        part_bounds(NUM_TASKS - 1).1 == NUM_DATA,
{
}

/// Whether the barrier lets the tasks through: it does once all of them
/// have arrived.
pub fn barrier_released(arrived: usize) -> (released: bool)
    ensures
        released == (arrived == NUM_TASKS),
{
    arrived == NUM_TASKS
}

/// Whether a task that found `finished_before` tasks done is the last to
/// finish.
pub open spec fn is_last(finished_before: int) -> bool {
    finished_before + 1 == NUM_TASKS
}

/// Whether the task that found `finished_before` tasks done is the last of
/// them, the one that wakes the main task.
pub fn is_last_to_finish(finished_before: usize) -> (last: bool)
    ensures
        last == is_last(finished_before as int),
{
    finished_before == NUM_TASKS - 1
}

/// The finishing tasks draw the counts `0..NUM_TASKS`, one each; exactly one
/// of those counts marks its task as the last, so the main task is woken
/// exactly once.
pub proof fn lemma_one_task_wakes_main()
    ensures
        exists|n: int| 0 <= n < NUM_TASKS && #[trigger] is_last(n),
        forall|n1: int, n2: int|
            #[trigger] is_last(n1) && #[trigger] is_last(n2) ==> n1 == n2,
{
    assert(is_last(NUM_TASKS - 1));
}

} // verus!
