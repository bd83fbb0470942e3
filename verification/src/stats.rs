//! How many turns reached a given score.

use rayon::slice::ParallelSliceMut;
use vstd::prelude::*;

verus! {

/// The scores that are asked about, in ascending order.
pub open spec fn threshold_list() -> Seq<usize> {
    seq![
        50,
        300,
        500,
        750,
        1000,
        1500,
        2000,
        2500,
        3000,
        3500,
        4000,
        4500,
        5000,
        5500,
        6000,
        6500,
        7500,
        8500,
        9450,
        9500,
        10000,
    ]
}

/// The test that a result is at least `thresh`.
pub open spec fn at_least(thresh: usize) -> spec_fn(usize) -> bool {
    |x: usize| x >= thresh
}

/// The number of results that are at least `thresh`.
pub open spec fn count_reaching(results: Seq<usize>, thresh: usize) -> nat {
    results.to_multiset().filter(at_least(thresh)).len()
}

/// Results in descending order.
pub open spec fn descending(results: Seq<usize>) -> bool {
    forall|i: int, j: int| 0 <= i <= j < results.len() ==> results[i] >= results[j]
}

/// The key by which results are sorted: the greater the result, the smaller
/// its key.
pub open spec fn descending_key_of(w: usize) -> usize {
    (usize::MAX - w) as usize
}

/// The key by which results are sorted: the greater the result, the smaller
/// its key.
pub fn descending_key(w: &usize) -> (key: usize)
    ensures
        key == descending_key_of(*w),
{
    usize::MAX - *w
}

/// Calls `par_sort_unstable_by_key` of rayon with `descending_key` as the
/// key. Claimed is what rayon documents of that sort: afterwards the slice
/// holds the same elements as before, and their keys are in ascending order.
#[verifier::external_body]
fn sort_by_descending_key(results: &mut Vec<usize>)
    ensures
        final(results)@.to_multiset() == old(results)@.to_multiset(),
        forall|i: int, j: int|
            0 <= i <= j < final(results)@.len() ==> descending_key_of(final(results)@[i])
                <= descending_key_of(final(results)@[j]),
{
    results.par_sort_unstable_by_key(descending_key);
}

/// The scores that are asked about, in ascending order.
pub fn thresholds() -> (list: Vec<usize>)
    ensures
        list@ == threshold_list(),
{
    let list: Vec<usize> = vec![
        50,
        300,
        500,
        750,
        1000,
        1500,
        2000,
        2500,
        3000,
        3500,
        4000,
        4500,
        5000,
        5500,
        6000,
        6500,
        7500,
        8500,
        9450,
        9500,
        10000,
    ];
    list
}

/// Of results of which the first `n` are at least `thresh` and the others
/// are not, `n` are at least `thresh`.
pub proof fn lemma_count_leading(results: Seq<usize>, n: int, thresh: usize)
    requires
        0 <= n <= results.len(),
        forall|i: int| 0 <= i < n ==> results[i] >= thresh,
        forall|i: int| n <= i < results.len() ==> results[i] < thresh,
    ensures
        count_reaching(results, thresh) == n,
{
    broadcast use vstd::seq_lib::group_to_multiset_ensures;

    let keep = at_least(thresh);
    let head = results.take(n);
    let tail = results.skip(n);
    assert(head + tail =~= results);
    vstd::seq_lib::lemma_multiset_commutative(head, tail);
    assert forall|v: usize| #[trigger]
        results.to_multiset().filter(keep).count(v) == head.to_multiset().count(v) by {
        // a result that is at least `thresh` is not in the tail, any other not in the head
        if keep(v) {
            assert(!tail.contains(v));
        } else {
            assert(!head.contains(v));
        }
    }
    assert(results.to_multiset().filter(keep) =~= head.to_multiset());
}

/// The number of results, given in descending order, that are at least
/// `thresh`: these stand first.
pub fn count_leading(results: &Vec<usize>, thresh: usize) -> (count: usize)
    requires
        descending(results@),
    ensures
        count == count_reaching(results@, thresh),
{
    let mut n: usize = 0;
    while n < results.len() && results[n] >= thresh
        invariant
            n <= results.len(),
            forall|i: int| 0 <= i < n ==> results@[i] >= thresh,
        decreases results.len() - n,
    {
        n = n + 1;
    }
    proof {
        lemma_count_leading(results@, n as int, thresh);
    }
    n
}

/// For each of the scores asked about, in their order, the score and the
/// number of results that are at least that score.
pub fn tail_counts(results: Vec<usize>) -> (output: Vec<(usize, usize)>)
    ensures
        output@.len() == threshold_list().len(),
        forall|k: int|
            0 <= k < output@.len() ==> output@[k].0 == threshold_list()[k] && output@[k].1
                == count_reaching(results@, threshold_list()[k]),
{
    let mut sorted = results;
    sort_by_descending_key(&mut sorted);
    let list = thresholds();
    let mut output: Vec<(usize, usize)> = Vec::new();
    let mut k: usize = 0;
    while k < list.len()
        invariant
            k <= list.len(),
            list@ == threshold_list(),
            descending(sorted@),
            sorted@.to_multiset() == results@.to_multiset(),
            output@.len() == k,
            forall|m: int|
                0 <= m < k ==> output@[m].0 == threshold_list()[m] && output@[m].1
                    == count_reaching(results@, threshold_list()[m]),
        decreases list.len() - k,
    {
        let thresh = list[k];
        let count = count_leading(&sorted, thresh);
        output.push((thresh, count));
        k = k + 1;
    }
    output
}

} // verus!
