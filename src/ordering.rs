use vstd::prelude::*;

use crate::date::{is_later, Date};

verus! {

/// Post `a` comes before post `b` in the index: it is of a later day, or of the
/// same day and found earlier.
pub open spec fn precedes(days: Seq<Date>, a: int, b: int) -> bool {
    is_later(days[a], days[b]) || (days[a] == days[b] && a < b)
}

/// `order` lists every post once, later days first and, within a day, in the
/// order in which the posts were found.
pub open spec fn is_index_order(days: Seq<Date>, order: Seq<usize>) -> bool {
    &&& order.len() == days.len()
    &&& forall|i: int| 0 <= i < order.len() ==> order[i] < days.len()
    &&& forall|i: int, j: int|
        0 <= i < j < order.len() ==> precedes(days, #[trigger] order[i] as int, #[trigger] order[j] as int)
}

/// Where post `n` goes among the posts listed in `order`: after those from `p` on
/// that precede it.
pub open spec fn insertion_point(days: Seq<Date>, order: Seq<usize>, n: int, p: int) -> int
    decreases order.len() - p,
{
    if 0 <= p < order.len() && precedes(days, order[p] as int, n) {
        insertion_point(days, order, n, p + 1)
    } else {
        p
    }
}

/// The index order of the first `n` posts, each inserted after those that precede it.
pub open spec fn index_order_prefix(days: Seq<Date>, n: nat) -> Seq<usize>
    decreases n,
{
    if n == 0 {
        seq![]
    } else {
        let prev = index_order_prefix(days, (n - 1) as nat);
        prev.insert(insertion_point(days, prev, n - 1, 0), (n - 1) as usize)
    }
}

proof fn lemma_precedes_total(days: Seq<Date>, a: int, b: int)
    requires
        a != b,
    ensures
        precedes(days, a, b) || precedes(days, b, a),
{
}

proof fn lemma_precedes_transitive(days: Seq<Date>, a: int, b: int, c: int)
    requires
        precedes(days, a, b),
        precedes(days, b, c),
    ensures
        precedes(days, a, c),
{
}

/// The order in which posts appear in the index and the feed: by day, the
/// latest first; posts of one day keep the order in which they were found.
pub fn index_order(days: &Vec<Date>) -> (r: Vec<usize>)
    ensures
        r@ == index_order_prefix(days@, days.len() as nat),
        is_index_order(days@, r@),
        forall|i: int, j: int| 0 <= i < j < r.len() ==> r[i] != r[j],
        forall|i: int, j: int|
            0 <= i < j < r.len() && days@[r[i] as int] != days@[r[j] as int] ==> is_later(
                days@[r[i] as int],
                days@[r[j] as int],
            ),
{
    let mut order: Vec<usize> = Vec::new();
    let mut n: usize = 0;
    while n < days.len()
        invariant
            0 <= n <= days.len(),
            order.len() == n,
            order@ == index_order_prefix(days@, n as nat),
            forall|i: int| 0 <= i < order.len() ==> order[i] < n,
            forall|i: int, j: int|
                0 <= i < j < order.len() ==> precedes(days@, #[trigger] order[i] as int, #[trigger] order[j] as int),
        decreases days.len() - n,
    {
        let mut p: usize = 0;
        while p < order.len() && (days[order[p]].is_after(&days[n]) || days[order[p]] == days[n])
            invariant
                0 <= p <= order.len(),
                n < days.len(),
                order.len() == n,
                forall|i: int| 0 <= i < order.len() ==> order[i] < n,
                forall|i: int| 0 <= i < p ==> precedes(days@, #[trigger] order[i] as int, n as int),
                insertion_point(days@, order@, n as int, 0) == insertion_point(days@, order@, n as int, p as int),
            decreases order.len() - p,
        {
            p = p + 1;
        }
        assert(insertion_point(days@, order@, n as int, p as int) == p);
        proof {
            if p < order.len() {
                lemma_precedes_total(days@, order[p as int] as int, n as int);
                assert forall|k: int| p <= k < order.len() implies precedes(days@, n as int, #[trigger] order[k] as int) by {
                    if k > p {
                        lemma_precedes_transitive(days@, n as int, order[p as int] as int, order[k] as int);
                    }
                }
            }
        }
        let ghost prev = order@;
        order.insert(p, n);
        proof {
            assert forall|i: int, j: int| 0 <= i < j < order.len() implies precedes(days@, #[trigger] order[i] as int, #[trigger] order[j] as int) by {
                if j < p {
                    assert(order[i] == prev[i] && order[j] == prev[j]);
                } else if j == p {
                    assert(order[i] == prev[i]);
                } else if i < p {
                    assert(order[i] == prev[i] && order[j] == prev[j - 1]);
                } else if i == p {
                    assert(order[j] == prev[j - 1]);
                } else {
                    assert(order[i] == prev[i - 1] && order[j] == prev[j - 1]);
                }
            }
        }
        n = n + 1;
    }
    order
}

/// Every post has a place in the index order.
pub proof fn lemma_index_order_covers(days: Seq<Date>, i: int)
    requires
        0 <= i < days.len(),
        days.len() <= usize::MAX,
    ensures
        exists|k: int| 0 <= k < days.len() && index_order_prefix(days, days.len())[k] == i,
{
    lemma_prefix_covers(days, days.len(), i);
}

proof fn lemma_prefix_covers(days: Seq<Date>, n: nat, i: int)
    requires
        0 <= i < n,
        n <= usize::MAX,
    ensures
        index_order_prefix(days, n).len() == n,
        exists|k: int| 0 <= k < n && index_order_prefix(days, n)[k] == i,
    decreases n,
{
    let prev = index_order_prefix(days, (n - 1) as nat);
    lemma_prefix_len(days, (n - 1) as nat);
    let p = insertion_point(days, prev, n - 1, 0);
    lemma_insertion_point_range(days, prev, n - 1, 0);
    let cur = index_order_prefix(days, n);
    assert(cur == prev.insert(p, (n - 1) as usize));
    if i == n - 1 {
        assert(cur[p] == i);
    } else {
        lemma_prefix_covers(days, (n - 1) as nat, i);
        let k = choose|k: int| 0 <= k < n - 1 && prev[k] == i;
        if k < p {
            assert(cur[k] == i);
        } else {
            assert(cur[k + 1] == i);
        }
    }
}

proof fn lemma_prefix_len(days: Seq<Date>, n: nat)
    ensures
        index_order_prefix(days, n).len() == n,
    decreases n,
{
    if n > 0 {
        let prev = index_order_prefix(days, (n - 1) as nat);
        lemma_prefix_len(days, (n - 1) as nat);
        lemma_insertion_point_range(days, prev, n - 1, 0);
    }
}

proof fn lemma_insertion_point_range(days: Seq<Date>, order: Seq<usize>, n: int, p: int)
    requires
        0 <= p <= order.len(),
    ensures
        p <= insertion_point(days, order, n, p) <= order.len(),
    decreases order.len() - p,
{
    if p < order.len() && precedes(days, order[p] as int, n) {
        lemma_insertion_point_range(days, order, n, p + 1);
    }
}

proof fn lemma_insertion_point_splits(days: Seq<Date>, order: Seq<usize>, n: int, p: int)
    requires
        0 <= p <= order.len(),
        forall|k: int| 0 <= k < order.len() ==> order[k] < n,
        forall|i: int, j: int|
            0 <= i < j < order.len() ==> precedes(days, #[trigger] order[i] as int, #[trigger] order[j] as int),
        forall|k: int| 0 <= k < p ==> precedes(days, #[trigger] order[k] as int, n),
    ensures
        forall|k: int|
            0 <= k < insertion_point(days, order, n, p) ==> precedes(days, #[trigger] order[k] as int, n),
        forall|k: int|
            insertion_point(days, order, n, p) <= k < order.len() ==> precedes(days, n, #[trigger] order[k] as int),
    decreases order.len() - p,
{
    lemma_insertion_point_range(days, order, n, p);
    if p < order.len() && precedes(days, order[p] as int, n) {
        lemma_insertion_point_splits(days, order, n, p + 1);
    } else if p < order.len() {
        lemma_precedes_total(days, order[p] as int, n);
        assert forall|k: int| p <= k < order.len() implies precedes(days, n, #[trigger] order[k] as int) by {
            if k > p {
                lemma_precedes_transitive(days, n, order[p] as int, order[k] as int);
            }
        }
    }
}

/// The index order of the first `n` posts lists each of them before those it precedes.
proof fn lemma_prefix_sorted(days: Seq<Date>, n: nat)
    requires
        n <= usize::MAX,
    ensures
        index_order_prefix(days, n).len() == n,
        forall|k: int| 0 <= k < n ==> #[trigger] index_order_prefix(days, n)[k] < n,
        forall|i: int, j: int|
            0 <= i < j < n ==> precedes(
                days,
                #[trigger] index_order_prefix(days, n)[i] as int,
                #[trigger] index_order_prefix(days, n)[j] as int,
            ),
    decreases n,
{
    lemma_prefix_len(days, n);
    if n > 0 {
        let prev = index_order_prefix(days, (n - 1) as nat);
        lemma_prefix_sorted(days, (n - 1) as nat);
        let p = insertion_point(days, prev, n - 1, 0);
        lemma_insertion_point_range(days, prev, n - 1, 0);
        lemma_insertion_point_splits(days, prev, n - 1, 0);
        let cur = index_order_prefix(days, n);
        assert(cur == prev.insert(p, (n - 1) as usize));
        assert forall|k: int| 0 <= k < n implies #[trigger] cur[k] < n by {
            if k < p {
                assert(cur[k] == prev[k]);
            } else if k > p {
                assert(cur[k] == prev[k - 1]);
            }
        }
        assert forall|i: int, j: int| 0 <= i < j < n implies precedes(days, #[trigger] cur[i] as int, #[trigger] cur[j] as int) by {
            if j < p {
                assert(cur[i] == prev[i] && cur[j] == prev[j]);
            } else if j == p {
                assert(cur[i] == prev[i]);
            } else if i < p {
                assert(cur[i] == prev[i] && cur[j] == prev[j - 1]);
            } else if i == p {
                assert(cur[j] == prev[j - 1]);
            } else {
                assert(cur[i] == prev[i - 1] && cur[j] == prev[j - 1]);
            }
        }
    }
}

/// The index order lists later days first, and posts of one day in the order in
/// which they were found; where two posts have different days, the later one comes
/// first.
pub proof fn lemma_index_order_by_day(days: Seq<Date>)
    requires
        days.len() <= usize::MAX,
    ensures
        is_index_order(days, index_order_prefix(days, days.len())),
        forall|i: int, j: int|
            0 <= i < j < days.len() && days[index_order_prefix(days, days.len())[i] as int]
                != days[index_order_prefix(days, days.len())[j] as int] ==> is_later(
                days[#[trigger] index_order_prefix(days, days.len())[i] as int],
                days[#[trigger] index_order_prefix(days, days.len())[j] as int],
            ),
{
    lemma_prefix_sorted(days, days.len());
}

} // verus!
