//! The usage order of processes: a stable sort by CPU usage, then by memory usage.

use vstd::prelude::*;

verus! {

/// The sort key of a process: its CPU-usage key first, its memory-usage key second.
pub type UsageKey = (u64, u64);

/// `a` uses strictly less than `b`: less CPU, or as much CPU and less memory.
pub open spec fn key_lt(a: UsageKey, b: UsageKey) -> bool {
    a.0 < b.0 || (a.0 == b.0 && a.1 < b.1)
}

/// `a` uses at most as much as `b`.
pub open spec fn key_le(a: UsageKey, b: UsageKey) -> bool {
    key_lt(a, b) || a == b
}

/// In a stable sort of `keys`, the item at index `i` comes before the item at index `j`:
/// it uses less, or it uses as much and came first.
pub open spec fn ranked_before(keys: Seq<UsageKey>, i: int, j: int) -> bool {
    key_lt(keys[i], keys[j]) || (keys[i] == keys[j] && i < j)
}

/// `order` lists every index of `keys` once, in the order of a stable sort by usage.
pub open spec fn is_usage_order(keys: Seq<UsageKey>, order: Seq<usize>) -> bool {
    &&& order.len() == keys.len()
    &&& forall|i: int| 0 <= i < order.len() ==> #[trigger] order[i] < keys.len()
    &&& forall|j: int| 0 <= j < keys.len() ==> #[trigger] order.contains(j as usize)
    &&& forall|i: int, k: int|
        0 <= i < k < order.len() ==> ranked_before(keys, #[trigger] order[i] as int, #[trigger] order[k] as int)
}

/// Compares two usage keys.
pub fn key_less(a: UsageKey, b: UsageKey) -> (less: bool)
    ensures
        less == key_lt(a, b),
{
    a.0 < b.0 || (a.0 == b.0 && a.1 < b.1)
}

/// Stable sort by usage: returns the indices of `keys` from the lowest usage to the highest;
/// items of equal usage keep their relative order.
pub fn usage_order(keys: &Vec<UsageKey>) -> (order: Vec<usize>)
    ensures
        is_usage_order(keys@, order@),
{
    let n = keys.len();
    let mut order: Vec<usize> = Vec::new();
    for k in 0..n
        invariant
            n == keys@.len(),
            order@.len() == k,
            forall|i: int| 0 <= i < order@.len() ==> #[trigger] order@[i] < k,
            forall|j: int| 0 <= j < k ==> #[trigger] order@.contains(j as usize),
            forall|i: int, m: int|
                0 <= i < m < order@.len() ==> ranked_before(keys@, #[trigger] order@[i] as int, #[trigger] order@[m] as int),
    {
        let key = keys[k];
        let mut p: usize = order.len();
        let mut moving = true;
        while moving
            invariant
                n == keys@.len(),
                key == keys@[k as int],
                k < n,
                order@.len() == k,
                p <= order@.len(),
                forall|i: int| 0 <= i < order@.len() ==> #[trigger] order@[i] < k,
                forall|q: int| p <= q < order@.len() ==> key_lt(key, keys@[#[trigger] order@[q] as int]),
                !moving ==> p == 0 || !key_lt(key, keys@[order@[p - 1] as int]),
            decreases p + if moving { 1int } else { 0int },
        {
            if p > 0 && key_less(key, keys[order[p - 1]]) {
                p = p - 1;
            } else {
                moving = false;
            }
        }
        let ghost old_order = order@;
        order.insert(p, k);
        proof {
            assert(order@ == old_order.insert(p as int, k));
            assert forall|i: int, m: int| 0 <= i < m < order@.len() implies ranked_before(
                keys@,
                #[trigger] order@[i] as int,
                #[trigger] order@[m] as int,
            ) by {
                if m < p {
                    assert(order@[i] == old_order[i] && order@[m] == old_order[m]);
                } else if m == p {
                    assert(order@[i] == old_order[i]);
                    assert(old_order[p - 1] < k);
                    let before = old_order[p - 1] as int;
                    assert(!key_lt(key, keys@[before]));
                    if i < p - 1 {
                        assert(ranked_before(keys@, old_order[i] as int, before));
                    }
                } else if i == p {
                    assert(order@[m] == old_order[m - 1]);
                } else if i < p {
                    assert(order@[i] == old_order[i] && order@[m] == old_order[m - 1]);
                } else {
                    assert(order@[i] == old_order[i - 1] && order@[m] == old_order[m - 1]);
                }
            }
            assert forall|j: int| 0 <= j < k + 1 implies #[trigger] order@.contains(j as usize) by {
                if j == k {
                    assert(order@[p as int] == k);
                } else {
                    assert(old_order.contains(j as usize));
                    let w = choose|w: int| 0 <= w < old_order.len() && old_order[w] == j as usize;
                    if w < p {
                        assert(order@[w] == j as usize);
                    } else {
                        assert(order@[w + 1] == j as usize);
                    }
                }
            }
            assert forall|i: int| 0 <= i < order@.len() implies #[trigger] order@[i] < k + 1 by {
                if i < p {
                    assert(order@[i] == old_order[i]);
                } else if i > p {
                    assert(order@[i] == old_order[i - 1]);
                }
            }
        }
    }
    order
}

/// The items at positions `0..=upto` of two usage orders of the same keys agree.
proof fn lemma_usage_orders_agree_upto(keys: Seq<UsageKey>, o1: Seq<usize>, o2: Seq<usize>, upto: int)
    requires
        is_usage_order(keys, o1),
        is_usage_order(keys, o2),
        0 <= upto < o1.len(),
    ensures
        forall|p: int| 0 <= p <= upto ==> #[trigger] o1[p] == o2[p],
    decreases upto,
{
    if upto > 0 {
        lemma_usage_orders_agree_upto(keys, o1, o2, upto - 1);
    }
    let a = o1[upto];
    let b = o2[upto];
    if a != b {
        assert(o1[upto] < keys.len());
        assert(o2.contains((a as int) as usize));
        let j = choose|j: int| 0 <= j < o2.len() && o2[j] == a;
        if j < upto {
            assert(o1[j] == a);
            assert(ranked_before(keys, o1[j] as int, o1[upto] as int));
        }
        assert(ranked_before(keys, o2[upto] as int, o2[j] as int));
        assert(o2[upto] < keys.len());
        assert(o1.contains((b as int) as usize));
        let m = choose|m: int| 0 <= m < o1.len() && o1[m] == b;
        if m < upto {
            assert(o2[m] == b);
            assert(ranked_before(keys, o2[m] as int, o2[upto] as int));
        }
        assert(ranked_before(keys, o1[upto] as int, o1[m] as int));
    }
}

/// A stable sort has one outcome: two usage orders of the same keys are equal.
pub proof fn lemma_usage_order_unique(keys: Seq<UsageKey>, o1: Seq<usize>, o2: Seq<usize>)
    requires
        is_usage_order(keys, o1),
        is_usage_order(keys, o2),
    ensures
        o1 == o2,
{
    if o1.len() > 0 {
        lemma_usage_orders_agree_upto(keys, o1, o2, o1.len() - 1);
    }
    assert(o1 =~= o2);
}

/// A usage order lists the indices by CPU usage, then by memory usage, and indices of
/// equal usage in increasing order.
pub proof fn lemma_usage_order_is_lexicographic_and_stable(keys: Seq<UsageKey>, order: Seq<usize>)
    requires
        is_usage_order(keys, order),
    ensures
        forall|i: int, k: int|
            0 <= i < k < order.len() ==> {
                let a = keys[#[trigger] order[i] as int];
                let b = keys[#[trigger] order[k] as int];
                ||| a.0 < b.0
                ||| a.0 == b.0 && a.1 < b.1
                ||| a.0 == b.0 && a.1 == b.1 && order[i] < order[k]
            },
{
    assert forall|i: int, k: int| 0 <= i < k < order.len() implies {
        let a = keys[#[trigger] order[i] as int];
        let b = keys[#[trigger] order[k] as int];
        ||| a.0 < b.0
        ||| a.0 == b.0 && a.1 < b.1
        ||| a.0 == b.0 && a.1 == b.1 && order[i] < order[k]
    } by {
        assert(ranked_before(keys, order[i] as int, order[k] as int));
    }
}

} // verus!
