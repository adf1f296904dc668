//! Histogram counting: the samples are already mapped to bin indices
//! (`None` for a sample outside the histogram's range), and this module
//! counts how many landed in each bin.

use vstd::prelude::*;

verus! {

/// Whether one mapped sample landed in bin `k`.
pub open spec fn is_hit(e: Option<usize>, k: int) -> bool {
    match e {
        Option::Some(v) => v == k,
        Option::None => false,
    }
}

/// How many of the first `n` mapped samples landed in bin `k`.
pub open spec fn hits(ids: Seq<Option<usize>>, k: int, n: int) -> int
    decreases n,
{
    if n <= 0 {
        0
    } else {
        hits(ids, k, n - 1) + if is_hit(ids[n - 1], k) {
            1int
        } else {
            0int
        }
    }
}

/// How many of the first `n` mapped samples landed in any bin below
/// `bins`.
pub open spec fn hits_below(ids: Seq<Option<usize>>, bins: int, n: int) -> int
    decreases n,
{
    if n <= 0 {
        0
    } else {
        hits_below(ids, bins, n - 1) + match ids[n - 1] {
            Option::Some(v) => if v < bins {
                1int
            } else {
                0int
            },
            Option::None => 0int,
        }
    }
}

/// The sum of the first `n` bin counts.
pub open spec fn counts_sum(counts: Seq<usize>, n: int) -> int
    decreases n,
{
    if n <= 0 {
        0
    } else {
        counts_sum(counts, n - 1) + counts[n - 1]
    }
}

/// Sum over the first `bins` bins of each bin's hits among the first
/// `n` samples.
pub open spec fn hits_sum(ids: Seq<Option<usize>>, bins: int, n: int) -> int
    decreases bins,
{
    if bins <= 0 {
        0
    } else {
        hits_sum(ids, bins - 1, n) + hits(ids, bins - 1, n)
    }
}

/// A bin's count never exceeds the number of samples counted.
proof fn lemma_hits_bound(ids: Seq<Option<usize>>, k: int, n: int)
    requires
        0 <= n <= ids.len(),
    ensures
        0 <= hits(ids, k, n) <= n,
    decreases n,
{
    if n > 0 {
        lemma_hits_bound(ids, k, n - 1);
    }
}

/// One more sample changes the per-bin sum by one exactly when it
/// landed below `bins`.
proof fn lemma_hits_sum_step(ids: Seq<Option<usize>>, bins: int, n: int)
    requires
        0 < n <= ids.len(),
        0 <= bins,
    ensures
        hits_sum(ids, bins, n) == hits_sum(ids, bins, n - 1) + match ids[n - 1] {
            Option::Some(v) => if v < bins {
                1int
            } else {
                0int
            },
            Option::None => 0int,
        },
    decreases bins,
{
    if bins > 0 {
        lemma_hits_sum_step(ids, bins - 1, n);
    }
}

/// With no samples counted yet, every per-bin sum is zero.
proof fn lemma_hits_sum_zero(ids: Seq<Option<usize>>, bins: int)
    ensures
        hits_sum(ids, bins, 0) == 0,
    decreases bins,
{
    if bins > 0 {
        lemma_hits_sum_zero(ids, bins - 1);
    }
}

/// Summing each bin's hits over all bins counts exactly the samples
/// that landed in some bin.
proof fn lemma_hits_sum_total(ids: Seq<Option<usize>>, bins: int, n: int)
    requires
        0 <= n <= ids.len(),
        0 <= bins,
    ensures
        hits_sum(ids, bins, n) == hits_below(ids, bins, n),
    decreases n,
{
    if n == 0 {
        lemma_hits_sum_zero(ids, bins);
    } else {
        lemma_hits_sum_total(ids, bins, n - 1);
        lemma_hits_sum_step(ids, bins, n);
    }
}

/// The histogram's counting law: with each count `k` holding exactly the
/// samples mapped to bin `k`, the counts sum to the number of samples
/// that landed in any bin — samples outside the range (or beyond the
/// last bin) are the only ones left out.
pub proof fn lemma_bin_counts_total(ids: Seq<Option<usize>>, counts: Seq<usize>, bins: int)
    requires
        0 <= bins == counts.len(),
        forall|k: int| 0 <= k < bins ==> counts[k] == hits(ids, k, ids.len() as int),
    ensures
        counts_sum(counts, bins) == hits_below(ids, bins, ids.len() as int),
{
    assert forall|b: int| 0 <= b <= bins implies counts_sum(counts, b) == hits_sum(
        ids,
        b,
        ids.len() as int,
    ) by {
        lemma_counts_sum_eq(ids, counts, b);
    }
    lemma_hits_sum_total(ids, bins, ids.len() as int);
}

/// The first `b` counts sum to the first `b` per-bin hit totals.
proof fn lemma_counts_sum_eq(ids: Seq<Option<usize>>, counts: Seq<usize>, b: int)
    requires
        0 <= b <= counts.len(),
        forall|k: int| 0 <= k < counts.len() ==> counts[k] == hits(ids, k, ids.len() as int),
    ensures
        counts_sum(counts, b) == hits_sum(ids, b, ids.len() as int),
    decreases b,
{
    if b > 0 {
        lemma_counts_sum_eq(ids, counts, b - 1);
    }
}

/// Counts how many mapped samples landed in each of `bins` bins. A
/// sample mapped to `None` (outside the histogram's range) or to a bin
/// index at or beyond `bins` is not counted anywhere.
pub fn tally_bins(ids: &Vec<Option<usize>>, bins: usize) -> (counts: Vec<usize>)
    ensures
        counts@.len() == bins,
        forall|k: int| 0 <= k < bins ==> counts@[k] == hits(ids@, k, ids@.len() as int),
{
    let mut counts: Vec<usize> = Vec::new();
    while counts.len() < bins
        invariant
            counts@.len() <= bins,
            forall|k: int| 0 <= k < counts@.len() ==> counts@[k] == 0,
        decreases bins - counts@.len(),
    {
        counts.push(0);
    }
    let mut i: usize = 0;
    while i < ids.len()
        invariant
            i <= ids@.len(),
            counts@.len() == bins,
            forall|k: int| 0 <= k < bins ==> counts@[k] == hits(ids@, k, i as int),
        decreases ids@.len() - i,
    {
        proof {
            assert forall|k: int| 0 <= k < bins implies hits(ids@, k, i as int) <= i by {
                lemma_hits_bound(ids@, k, i as int);
            }
        }
        match ids[i] {
            Option::Some(b) => {
                if b < bins {
                    let c = counts[b];
                    counts[b] = c + 1;
                }
            },
            Option::None => {},
        }
        i = i + 1;
    }
    counts
}

} // verus!
