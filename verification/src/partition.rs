//! Splitting a quantity of work as evenly as possible across a fixed number
//! of workers: every worker receives the quotient, and the first
//! `total % threads` workers one extra unit. Used to split idea counts and
//! package counts across threads, and a thread's package budget across its
//! ideas.

use vstd::prelude::*;
use vstd::arithmetic::div_mod::lemma_fundamental_div_mod;

verus! {

/// The number of units worker `thread_idx` receives when `total` units are
/// split across `threads` workers.
pub open spec fn share(thread_idx: int, total: int, threads: int) -> int {
    total / threads + if thread_idx < total % threads {
        1int
    } else {
        0int
    }
}

/// Sum of the shares of workers `0 .. k`.
pub open spec fn sum_of_shares(total: int, threads: int, k: int) -> int
    decreases k,
{
    if k <= 0 {
        0
    } else {
        sum_of_shares(total, threads, k - 1) + share(k - 1, total, threads)
    }
}

/// How much of `total` the worker at `thread_idx` is responsible for.
pub fn per_thread_amount(thread_idx: usize, total: usize, threads: usize) -> (amt: usize)
    requires
        thread_idx < threads,
    ensures
        amt == share(thread_idx as int, total as int, threads as int),
{
    let per_thread = total / threads;
    let extras = total % threads;
    proof {
        lemma_fundamental_div_mod(total as int, threads as int);
        assert(total as int == threads * (total as int / threads as int) + (total as int
            % threads as int));
        assert(extras >= 1 ==> per_thread + 1 <= total) by (nonlinear_arith)
            requires
                threads >= 1,
                per_thread == total as int / threads as int,
                extras == total as int % threads as int,
                total as int == threads * per_thread + extras,
        ;
    }
    let amt: usize = per_thread + (if thread_idx < extras {
        1
    } else {
        0
    });
    amt
}

/// Every share is within one unit of every other: the split is even up to
/// the indivisible remainder.
pub proof fn lemma_shares_differ_by_at_most_one(i: int, j: int, total: int, threads: int)
    requires
        0 <= i < threads,
        0 <= j < threads,
    ensures
        share(i, total, threads) - share(j, total, threads) <= 1,
        share(j, total, threads) - share(i, total, threads) <= 1,
{
}

proof fn lemma_sum_of_shares_closed_form(total: int, threads: int, k: int)
    requires
        total >= 0,
        threads >= 1,
        0 <= k <= threads,
    ensures
        sum_of_shares(total, threads, k) == k * (total / threads) + (if k <= total % threads {
            k
        } else {
            total % threads
        }),
    decreases k,
{
    if k > 0 {
        lemma_sum_of_shares_closed_form(total, threads, k - 1);
        let q: int = total / threads;
        let r: int = total % threads;
        assert(k * q == (k - 1) * q + q) by (nonlinear_arith);
        assert(sum_of_shares(total, threads, k) == sum_of_shares(total, threads, k - 1) + share(
            k - 1,
            total,
            threads,
        ));
        if k <= r {
            assert(share(k - 1, total, threads) == q + 1);
            assert(sum_of_shares(total, threads, k) == k * q + k);
        } else {
            assert(share(k - 1, total, threads) == q);
            assert(sum_of_shares(total, threads, k) == k * q + (if k - 1 <= r {
                k - 1
            } else {
                r
            }));
        }
        assert(sum_of_shares(total, threads, k) == k * (total / threads) + (if k <= total
            % threads {
            k
        } else {
            total % threads
        }));
    } else {
        assert(k == 0);
        assert(sum_of_shares(total, threads, k) == 0);
        assert(k * (total / threads) == 0) by (nonlinear_arith)
            requires
                k == 0,
        ;
        assert(sum_of_shares(total, threads, k) == k * (total / threads) + (if k <= total
            % threads {
            k
        } else {
            total % threads
        }));
    }
}

/// Partition coverage: the shares of all `threads` workers sum to `total`
/// exactly, so disjoint contiguous slices of those sizes tile the whole
/// index range with nothing lost and nothing duplicated.
pub proof fn lemma_shares_sum_to_total(total: int, threads: int)
    requires
        total >= 0,
        threads >= 1,
    ensures
        sum_of_shares(total, threads, threads) == total,
{
    lemma_sum_of_shares_closed_form(total, threads, threads);
    lemma_fundamental_div_mod(total, threads);
}

/// The sum of the first `k` shares never exceeds the total.
proof fn lemma_sum_of_shares_bounded(total: int, threads: int, k: int)
    requires
        total >= 0,
        threads >= 1,
        0 <= k <= threads,
    ensures
        sum_of_shares(total, threads, k) <= total,
    decreases threads - k,
{
    if k == threads {
        lemma_shares_sum_to_total(total, threads);
    } else {
        lemma_sum_of_shares_bounded(total, threads, k + 1);
    }
}

/// The (start, count) slice of every worker: worker `i` owns the `share(i)`
/// indices starting where worker `i - 1` stopped, so the slices are
/// pairwise disjoint and together cover `[0, total)` exactly.
pub fn partition_slices(total: usize, threads: usize) -> (slices: Vec<(usize, usize)>)
    requires
        threads >= 1,
    ensures
        slices@.len() == threads,
        forall|i: int|
            0 <= i < threads ==> (#[trigger] slices@[i]) == (
                sum_of_shares(total as int, threads as int, i) as usize,
                share(i, total as int, threads as int) as usize,
            ),
        slices@[threads as int - 1].0 + slices@[threads as int - 1].1 == total,
{
    let mut slices: Vec<(usize, usize)> = Vec::new();
    let mut start: usize = 0;
    let mut i: usize = 0;
    while i < threads
        invariant
            i <= threads,
            threads >= 1,
            slices@.len() == i,
            start == sum_of_shares(total as int, threads as int, i as int),
            start <= total,
            forall|j: int|
                0 <= j < i ==> (#[trigger] slices@[j]) == (
                    sum_of_shares(total as int, threads as int, j) as usize,
                    share(j, total as int, threads as int) as usize,
                ),
        decreases threads - i,
    {
        let amount = per_thread_amount(i, total, threads);
        proof {
            lemma_sum_of_shares_bounded(total as int, threads as int, i + 1);
        }
        slices.push((start, amount));
        start += amount;
        i += 1;
    }
    proof {
        lemma_shares_sum_to_total(total as int, threads as int);
    }
    slices
}

} // verus!
