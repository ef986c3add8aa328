//! The figures of the closing summary: the combined size and the files with
//! the most tokens.

use vstd::prelude::*;
use vstd::seq_lib::seq_to_set_is_finite;
use vstd::set_lib::{lemma_int_range, lemma_len_subset, set_int_range};
use crate::records::{sum_sizes, FileRecord};

verus! {

/// The order of the summary: more tokens first; among files with the same
/// count, the one recorded earlier first.
pub open spec fn ranks_before(records: Seq<FileRecord>, i: int, j: int) -> bool {
    records[i].tokens > records[j].tokens || (records[i].tokens == records[j].tokens && i < j)
}

/// Whether `i` is one of the indices in `top`.
pub open spec fn listed(top: Seq<usize>, i: int) -> bool {
    exists|k: int| 0 <= k < top.len() && (#[trigger] top[k]) == i
}

/// Whether `top` lists, by index and in the order of the summary, the
/// first `limit` of `records`, or all of them where there are fewer.
pub open spec fn is_top(records: Seq<FileRecord>, limit: nat, top: Seq<usize>) -> bool {
    &&& top.len() == if limit <= records.len() {
        limit
    } else {
        records.len()
    }
    &&& forall|k: int| 0 <= k < top.len() ==> (#[trigger] top[k]) < records.len()
    &&& forall|k: int, l: int|
        0 <= k < l < top.len() ==> ranks_before(
            records,
            (#[trigger] top[k]) as int,
            (#[trigger] top[l]) as int,
        )
    &&& forall|i: int, k: int|
        0 <= i < records.len() && 0 <= k < top.len() && !listed(top, i) ==> #[trigger] ranks_before(
            records,
            top[k] as int,
            i,
        )
}

/// The sizes of `records` added up, or `None` where the sum does not fit.
pub fn total_size(records: &Vec<FileRecord>) -> (total: Option<u64>)
    ensures
        match total {
            Some(sum) => sum == sum_sizes(records@),
            None => sum_sizes(records@) > u64::MAX,
        },
{
    let mut sum: u64 = 0;
    let mut i: usize = 0;
    while i < records.len()
        invariant
            i <= records.len(),
            sum == sum_sizes(records@.take(i as int)),
        decreases records.len() - i,
    {
        assert(records@.take(i + 1).drop_last() == records@.take(i as int));
        if records[i].size > u64::MAX - sum {
            proof {
                lemma_sizes_grow(records@, i + 1);
            }
            return None;
        }
        sum = sum + records[i].size;
        i += 1;
    }
    assert(records@.take(records@.len() as int) == records@);
    Some(sum)
}

/// The sizes of a prefix add up to no more than those of the whole.
proof fn lemma_sizes_grow(records: Seq<FileRecord>, k: int)
    requires
        0 <= k <= records.len(),
    ensures
        sum_sizes(records.take(k)) <= sum_sizes(records),
    decreases records.len() - k,
{
    if k < records.len() {
        assert(records.take(k + 1).drop_last() == records.take(k));
        lemma_sizes_grow(records, k + 1);
    } else {
        assert(records.take(k) == records);
    }
}

/// Indices below `n` that are pairwise different are at most `n`, and
/// exactly `n` where every index below `n` is among them.
proof fn lemma_count_of_indices(top: Seq<usize>, n: nat)
    requires
        forall|k: int| 0 <= k < top.len() ==> (#[trigger] top[k]) < n,
        forall|k: int, l: int| 0 <= k < l < top.len() ==> top[k] != top[l],
    ensures
        top.len() <= n,
        (forall|i: int| 0 <= i < n ==> #[trigger] listed(top, i)) ==> top.len() == n,
{
    let ints = Seq::new(top.len(), |k: int| top[k] as int);
    let range = set_int_range(0, n as int);
    lemma_int_range(0, n as int);
    assert(ints.no_duplicates());
    ints.unique_seq_to_set();
    seq_to_set_is_finite(ints);
    assert forall|x: int| ints.to_set().contains(x) implies range.contains(x) by {
        let k = choose|k: int| 0 <= k < ints.len() && ints[k] == x;
        assert(top[k] < n);
    }
    lemma_len_subset(ints.to_set(), range);
    if forall|i: int| 0 <= i < n ==> #[trigger] listed(top, i) {
        assert forall|x: int| range.contains(x) implies ints.to_set().contains(x) by {
            assert(listed(top, x));
            let k = choose|k: int| 0 <= k < top.len() && (#[trigger] top[k]) == x;
            assert(ints[k] == x);
        }
        lemma_len_subset(range, ints.to_set());
    }
}

/// The indices of the `limit` files with the most tokens, the largest
/// first; files with the same count stay in the order in which they were
/// recorded.
pub fn top_files(records: &Vec<FileRecord>, limit: usize) -> (top: Vec<usize>)
    ensures
        is_top(records@, limit as nat, top@),
{
    let n = records.len();
    let mut top: Vec<usize> = Vec::new();
    let mut exhausted = false;
    while top.len() < limit && !exhausted
        invariant
            n == records.len(),
            top.len() <= limit,
            forall|k: int| 0 <= k < top.len() ==> (#[trigger] top@[k]) < n,
            forall|k: int, l: int|
                0 <= k < l < top.len() ==> ranks_before(
                    records@,
                    (#[trigger] top@[k]) as int,
                    (#[trigger] top@[l]) as int,
                ),
            forall|i: int|
                0 <= i < n ==> (#[trigger] listed(top@, i) <==> top.len() > 0 && (i == top@.last()
                    || ranks_before(records@, i, top@.last() as int))),
            exhausted ==> forall|i: int| 0 <= i < n ==> #[trigger] listed(top@, i),
        decreases (limit - top.len()) + (if exhausted { 0int } else { 1int }),
    {
        let mut best: Option<usize> = None;
        let mut i: usize = 0;
        while i < n
            invariant
                i <= n,
                n == records.len(),
                forall|k: int| 0 <= k < top.len() ==> (#[trigger] top@[k]) < n,
                match best {
                    Some(b) => {
                        &&& b < i
                        &&& top.len() > 0 ==> ranks_before(records@, top@.last() as int, b as int)
                        &&& forall|c: int|
                            0 <= c < i && c != b && (top.len() > 0 ==> ranks_before(
                                records@,
                                top@.last() as int,
                                c,
                            )) ==> #[trigger] ranks_before(records@, b as int, c)
                    },
                    None => {
                        &&& top.len() == 0 ==> i == 0
                        &&& top.len() > 0 ==> forall|c: int|
                            0 <= c < i ==> !#[trigger] ranks_before(
                                records@,
                                top@.last() as int,
                                c,
                            )
                    },
                },
            decreases n - i,
        {
            let follows = if top.len() == 0 {
                true
            } else {
                let last = top[top.len() - 1];
                records[last].tokens > records[i].tokens || (records[last].tokens
                    == records[i].tokens && last < i)
            };
            if follows {
                match best {
                    None => {
                        best = Some(i);
                    },
                    Some(b) => {
                        if records[i].tokens > records[b].tokens {
                            assert forall|c: int|
                                0 <= c < i && (top.len() > 0 ==> ranks_before(
                                    records@,
                                    top@.last() as int,
                                    c,
                                )) implies #[trigger] ranks_before(records@, i as int, c) by {
                                if c != b {
                                    assert(ranks_before(records@, b as int, c));
                                }
                            }
                            best = Some(i);
                        }
                    },
                }
            }
            i += 1;
        }
        match best {
            None => {
                exhausted = true;
                assert forall|i: int| 0 <= i < n implies #[trigger] listed(top@, i) by {
                    assert(top.len() > 0);
                    assert(!ranks_before(records@, top@.last() as int, i));
                }
            },
            Some(b) => {
                let ghost before = top@;
                top.push(b);
                proof {
                    assert(top@.drop_last() == before);
                    assert forall|i: int| 0 <= i < n implies (#[trigger] listed(top@, i)
                        <==> top.len() > 0 && (i == top@.last() || ranks_before(
                        records@,
                        i,
                        top@.last() as int,
                    ))) by {
                        let last_is_b = top@[top@.len() - 1] == b;
                        if listed(top@, i) {
                            let k = choose|k: int| 0 <= k < top@.len() && (#[trigger] top@[k]) == i;
                            if k < before.len() {
                                assert(before[k] == i);
                                assert(listed(before, i));
                            }
                        }
                        if i != b && ranks_before(records@, i, b as int) {
                            if before.len() == 0 || !listed(before, i) {
                                if before.len() > 0 {
                                    assert(ranks_before(records@, before.last() as int, i));
                                }
                                assert(ranks_before(records@, b as int, i));
                            }
                            let k = choose|k: int|
                                0 <= k < before.len() && (#[trigger] before[k]) == i;
                            assert(top@[k] == i);
                        }
                    }
                    lemma_count_of_indices(top@, n as nat);
                }
            },
        }
    }
    proof {
        lemma_count_of_indices(top@, n as nat);
        assert forall|i: int, k: int|
            0 <= i < n && 0 <= k < top.len() && !listed(top@, i) implies #[trigger] ranks_before(
            records@,
            top@[k] as int,
            i,
        ) by {
            assert(listed(top@, top@[k] as int));
        }
    }
    top
}

} // verus!
