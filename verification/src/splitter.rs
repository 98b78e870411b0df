//! Division of one batch into sub-batches, each of which becomes one request.

use vstd::prelude::*;

verus! {

/// Sum of the first `n` elements of `sizes`.
pub open spec fn sum_prefix(sizes: Seq<usize>, n: int) -> int
    decreases n,
{
    if n <= 0 {
        0
    } else {
        sum_prefix(sizes, n - 1) + sizes[n - 1]
    }
}

/// Sum of all the elements of `sizes`.
pub open spec fn sum_sizes(sizes: Seq<usize>) -> int {
    sum_prefix(sizes, sizes.len() as int)
}

/// The size of sub-batch `i` where a batch of `entries` is divided into
/// `fan_out` requests: `entries / fan_out`, and for the last one the
/// remainder on top.
pub open spec fn share(entries: usize, fan_out: usize, i: int) -> usize {
    if i == fan_out - 1 {
        (entries / fan_out + entries % fan_out) as usize
    } else {
        (entries / fan_out) as usize
    }
}

/// The sub-batch sizes for a batch of `entries` with at most `fan_out`
/// requests: one sub-batch where the batch fits, otherwise `fan_out`
/// sub-batches of `entries / fan_out`, the last one taking the remainder too.
pub open spec fn split_sizes(entries: usize, fan_out: usize) -> Seq<usize> {
    if entries <= fan_out {
        seq![entries]
    } else {
        Seq::new(fan_out as nat, |i: int| share(entries, fan_out, i))
    }
}

proof fn lemma_share_in_range(entries: usize, fan_out: usize)
    requires
        fan_out > 0,
    ensures
        entries / fan_out + entries % fan_out <= entries,
        (entries / fan_out) * fan_out + entries % fan_out == entries,
{
    let q: int = entries as int / fan_out as int;
    let r: int = entries as int % fan_out as int;
    assert(q * fan_out + r == entries && 0 <= r && q >= 0 && (q <= q * fan_out)) by (nonlinear_arith)
        requires
            q == entries as int / fan_out as int,
            r == entries as int % fan_out as int,
            fan_out > 0,
            entries >= 0,
    ;
}

proof fn lemma_equal_shares_sum(entries: usize, fan_out: usize, n: int)
    requires
        fan_out > 0,
        entries > fan_out,
        0 <= n < fan_out,
    ensures
        sum_prefix(split_sizes(entries, fan_out), n) == n * (entries / fan_out),
    decreases n,
{
    let q: int = entries as int / fan_out as int;
    if n > 0 {
        lemma_equal_shares_sum(entries, fan_out, n - 1);
        lemma_share_in_range(entries, fan_out);
        assert(split_sizes(entries, fan_out)[n - 1] == q);
        assert((n - 1) * q + q == n * q) by (nonlinear_arith);
    } else {
        assert(0 * q == 0) by (nonlinear_arith);
    }
}

/// The sub-batches of a batch cover it exactly, and there are never more
/// of them than the fan-out allows.
pub proof fn lemma_split_covers(entries: usize, fan_out: usize)
    requires
        fan_out > 0,
    ensures
        sum_sizes(split_sizes(entries, fan_out)) == entries,
        1 <= split_sizes(entries, fan_out).len() <= fan_out,
        entries <= fan_out ==> split_sizes(entries, fan_out) == seq![entries],
{
    let sizes = split_sizes(entries, fan_out);
    if entries <= fan_out {
        assert(sum_prefix(sizes, 0) == 0);
        assert(sum_prefix(sizes, 1) == sum_prefix(sizes, 0) + sizes[0]);
    } else {
        let q: int = entries as int / fan_out as int;
        let r: int = entries as int % fan_out as int;
        lemma_share_in_range(entries, fan_out);
        lemma_equal_shares_sum(entries, fan_out, fan_out - 1);
        assert(sizes[fan_out - 1] == q + r);
        assert(sum_prefix(sizes, fan_out as int) == sum_prefix(sizes, fan_out - 1) + sizes[fan_out
            - 1]);
        assert((fan_out - 1) * q + q + r == entries) by (nonlinear_arith)
            requires
                q * fan_out + r == entries,
        ;
    }
}

/// Divides a batch of `entries` into the sizes of its requests.
pub fn split_batch(entries: usize, fan_out: usize) -> (sizes: Vec<usize>)
    requires
        fan_out > 0,
    ensures
        sizes@ == split_sizes(entries, fan_out),
        sum_sizes(sizes@) == entries,
        1 <= sizes.len() <= fan_out,
{
    proof {
        lemma_split_covers(entries, fan_out);
        lemma_share_in_range(entries, fan_out);
    }
    let mut sizes: Vec<usize> = Vec::new();
    if entries <= fan_out {
        sizes.push(entries);
        assert(sizes@ =~= split_sizes(entries, fan_out));
        return sizes;
    }
    let size: usize = entries / fan_out;
    let last: usize = size + entries % fan_out;
    let mut i: usize = 0;
    while i + 1 < fan_out
        invariant
            fan_out > 0,
            entries > fan_out,
            i + 1 <= fan_out,
            size == entries / fan_out,
            sizes.len() == i,
            forall|k: int| 0 <= k < i ==> sizes[k] == share(entries, fan_out, k),
        decreases fan_out - i,
    {
        sizes.push(size);
        i = i + 1;
    }
    sizes.push(last);
    assert(sizes@ =~= split_sizes(entries, fan_out));
    sizes
}

} // verus!
