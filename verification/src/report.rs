//! What the benchmarks report once their tasks are done.
use vstd::prelude::*;

verus! {

/// The sum of all values of `s`.
pub open spec fn seq_sum(s: Seq<u64>) -> int
    decreases s.len(),
{
    if s.len() == 0 {
        0
    } else {
        seq_sum(s.drop_last()) + s.last()
    }
}

/// A prefix of a sequence never sums to more than the whole.
pub proof fn lemma_seq_sum_prefix(s: Seq<u64>, k: int)
    requires
        0 <= k <= s.len(),
    ensures
        seq_sum(s.take(k)) <= seq_sum(s),
    decreases s.len(),
{
    if k < s.len() {
        lemma_seq_sum_prefix(s.drop_last(), k);
        assert(s.drop_last().take(k) =~= s.take(k));
    } else {
        assert(s.take(k) =~= s);
    }
}

/// The sum of the results of the tasks.
pub fn total(results: &[u64]) -> (sum: u64)
    requires
        seq_sum(results@) <= u64::MAX,
    ensures
        sum == seq_sum(results@),
{
    let mut sum: u64 = 0;
    let mut i: usize = 0;
    while i < results.len()
        invariant
            i <= results@.len(),
            seq_sum(results@) <= u64::MAX,
            sum == seq_sum(results@.take(i as int)),
        decreases results@.len() - i,
    {
        proof {
            lemma_seq_sum_prefix(results@, i + 1);
            assert(results@.take(i + 1).drop_last() =~= results@.take(i as int));
        }
        sum = sum + results[i];
        i = i + 1;
    }
    assert(results@.take(i as int) =~= results@);
    sum
}

/// Whether the results sum without overflow, that is, whether `total`
/// accepts them.
pub fn total_fits(results: &[u64]) -> (fits: bool)
    ensures
        fits == (seq_sum(results@) <= u64::MAX),
{
    let mut sum: u64 = 0;
    let mut i: usize = 0;
    while i < results.len()
        invariant
            i <= results@.len(),
            sum == seq_sum(results@.take(i as int)),
        decreases results@.len() - i,
    {
        assert(results@.take(i + 1).drop_last() =~= results@.take(i as int));
        match sum.checked_add(results[i]) {
            Some(next) => {
                sum = next;
            },
            None => {
                proof {
                    lemma_seq_sum_prefix(results@, i + 1);
                }
                return false;
            },
        }
        i = i + 1;
    }
    assert(results@.take(i as int) =~= results@);
    true
}

/// The longest time that a task took, or `None` where there was no task.
pub fn max_leave_time(times: &[u64]) -> (max: Option<u64>)
    ensures
        max is None <==> times@.len() == 0,
        max matches Some(m) ==> times@.contains(m) && forall|i: int|
            0 <= i < times@.len() ==> times@[i] <= m,
{
    if times.len() == 0 {
        return None;
    }
    let mut best: u64 = times[0];
    let mut i: usize = 1;
    while i < times.len()
        invariant
            1 <= i <= times@.len(),
            times@.contains(best),
            forall|j: int| 0 <= j < i ==> times@[j] <= best,
        decreases times@.len() - i,
    {
        if times[i] > best {
            best = times[i];
        }
        i = i + 1;
    }
    Some(best)
}

} // verus!
