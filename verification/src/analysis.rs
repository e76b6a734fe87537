//! The analyzer: which containers the service stops in one round.
//!
//! Processes are sorted from the lowest usage to the highest and split in two halves.
//! Of the low-usage half the service keeps the first three and stops the rest; of the
//! high-usage half it keeps the last two and stops the rest.

use vstd::prelude::*;
use crate::order::{UsageKey, key_le, is_usage_order, ranked_before, usage_order};
use crate::process::{Process, LogProcess, usage_of, log_of, log_entry};

verus! {

/// A reading of the kernel module: memory totals and the processes of the containers.
#[derive(Debug)]
pub struct SystemInfo {
    pub total_ram: u64,
    pub free_ram: u64,
    pub used_ram: u64,
    pub processes: Vec<Process>,
}

/// The outcome of one round of analysis.
#[derive(Debug)]
pub struct Analysis {
    /// Indices of the processes, from the lowest usage to the highest (a stable sort).
    pub order: Vec<usize>,
    /// The first half of the sorted processes (the smaller half when their number is odd).
    pub lowest: Vec<Process>,
    /// The second half of the sorted processes.
    pub highest: Vec<Process>,
    /// Log entries of the processes whose containers are stopped, in the order of stopping.
    pub stopped: Vec<LogProcess>,
}

/// The usage keys of a list of processes.
pub open spec fn usage_keys(ps: Seq<Process>) -> Seq<UsageKey> {
    ps.map_values(|p: Process| usage_of(p@))
}

/// The processes in the order given by a list of their indices.
pub open spec fn arranged(ps: Seq<Process>, order: Seq<usize>) -> Seq<Process> {
    order.map_values(|i: usize| ps[i as int])
}

/// How many of `n` sorted processes form the low-usage half.
pub open spec fn low_half_len(n: int) -> int {
    n / 2
}

/// Of the low-usage half, the processes past the first three.
pub open spec fn stopped_low(lowest: Seq<Process>) -> Seq<Process> {
    if lowest.len() > 3 {
        lowest.skip(3)
    } else {
        Seq::empty()
    }
}

/// Of the high-usage half, the processes before the last two.
pub open spec fn stopped_high(highest: Seq<Process>) -> Seq<Process> {
    if highest.len() > 2 {
        highest.take(highest.len() - 2)
    } else {
        Seq::empty()
    }
}

/// The processes whose containers are stopped: those of the low half past the first three,
/// then those of the high half before the last two.
pub open spec fn stop_list(lowest: Seq<Process>, highest: Seq<Process>) -> Seq<Process> {
    stopped_low(lowest) + stopped_high(highest)
}

/// `stopped` holds the log entries of `victims`, one for one.
pub open spec fn logs_of(stopped: Seq<LogProcess>, victims: Seq<Process>) -> bool {
    &&& stopped.len() == victims.len()
    &&& forall|i: int| 0 <= i < stopped.len() ==> (#[trigger] stopped[i])@ == log_of(victims[i]@)
}

/// What an analysis of `ps` is: the stable usage order, the two halves it splits into,
/// and the log entries of the processes to stop.
pub open spec fn analysis_of(ps: Seq<Process>, a: Analysis) -> bool {
    let sorted = arranged(ps, a.order@);
    let h = low_half_len(ps.len() as int);
    &&& is_usage_order(usage_keys(ps), a.order@)
    &&& a.lowest@ == sorted.take(h)
    &&& a.highest@ == sorted.skip(h)
    &&& logs_of(a.stopped@, stop_list(a.lowest@, a.highest@))
}

/// Sorts the processes of a reading by usage, splits them in halves and chooses the
/// processes whose containers to stop.
pub fn analyzer(system_info: &SystemInfo) -> (analysis: Analysis)
    ensures
        analysis_of(system_info.processes@, analysis),
{
    let ps = &system_info.processes;
    let n = ps.len();
    let mut keys: Vec<UsageKey> = Vec::new();
    for i in 0..n
        invariant
            n == ps@.len(),
            keys@ == usage_keys(ps@).take(i as int),
    {
        keys.push((ps[i].cpu_usage, ps[i].memory_usage));
        proof {
            assert(usage_keys(ps@).take(i + 1) =~= usage_keys(ps@).take(i as int).push(usage_of(ps@[i as int]@)));
        }
    }
    proof {
        assert(usage_keys(ps@).take(n as int) =~= usage_keys(ps@));
    }
    let order = usage_order(&keys);
    let ghost sorted = arranged(ps@, order@);
    let h = n / 2;
    let mut lowest: Vec<Process> = Vec::new();
    for i in 0..h
        invariant
            n == ps@.len(),
            h == n / 2,
            is_usage_order(keys@, order@),
            keys@ == usage_keys(ps@),
            sorted == arranged(ps@, order@),
            lowest@ == sorted.take(i as int),
    {
        let p = ps[order[i]].clone();
        lowest.push(p);
        proof {
            assert(sorted.take(i + 1) =~= sorted.take(i as int).push(sorted[i as int]));
        }
    }
    let mut highest: Vec<Process> = Vec::new();
    for i in h..n
        invariant
            n == ps@.len(),
            h == n / 2,
            is_usage_order(keys@, order@),
            keys@ == usage_keys(ps@),
            sorted == arranged(ps@, order@),
            highest@ == sorted.subrange(h as int, i as int),
    {
        let p = ps[order[i]].clone();
        highest.push(p);
        proof {
            assert(sorted.subrange(h as int, i + 1) =~= sorted.subrange(h as int, i as int).push(sorted[i as int]));
        }
    }
    proof {
        assert(sorted.subrange(h as int, n as int) =~= sorted.skip(h as int));
    }
    let mut stopped: Vec<LogProcess> = Vec::new();
    let low_len = lowest.len();
    if low_len > 3 {
        for i in 3..low_len
            invariant
                low_len == lowest@.len(),
                logs_of(stopped@, lowest@.subrange(3, i as int)),
        {
            stopped.push(log_entry(&lowest[i]));
            proof {
                assert(lowest@.subrange(3, i + 1) =~= lowest@.subrange(3, i as int).push(lowest@[i as int]));
            }
        }
        proof {
            assert(lowest@.subrange(3, low_len as int) =~= lowest@.skip(3));
        }
    }
    let ghost from_low = stopped@;
    proof {
        assert(logs_of(from_low, stopped_low(lowest@)));
    }
    let high_len = highest.len();
    if high_len > 2 {
        for i in 0..high_len - 2
            invariant
                high_len == highest@.len(),
                high_len > 2,
                from_low.len() <= stopped@.len(),
                stopped@.take(from_low.len() as int) == from_low,
                logs_of(stopped@.skip(from_low.len() as int), highest@.take(i as int)),
        {
            let ghost before = stopped@;
            stopped.push(log_entry(&highest[i]));
            proof {
                assert(highest@.take(i + 1) =~= highest@.take(i as int).push(highest@[i as int]));
                assert(stopped@.take(from_low.len() as int) =~= before.take(from_low.len() as int));
                assert(stopped@.skip(from_low.len() as int) =~= before.skip(from_low.len() as int).push(stopped@.last()));
            }
        }
    }
    proof {
        let victims = stop_list(lowest@, highest@);
        let tail = stopped@.skip(from_low.len() as int);
        assert(logs_of(tail, stopped_high(highest@)));
        assert(stopped@ =~= from_low + tail);
        assert forall|i: int| 0 <= i < stopped@.len() implies (#[trigger] stopped@[i])@ == log_of(victims[i]@) by {
            if i < from_low.len() {
                assert(stopped@[i] == from_low[i]);
            } else {
                assert(stopped@[i] == tail[i - from_low.len()]);
            }
        }
    }
    Analysis { order, lowest, highest, stopped }
}

/// Each process of the reading lands exactly once in one of the two halves: the halves
/// together hold as many processes as the reading, and the process at each position of the
/// sorted list is the one whose index the order gives there.
pub proof fn lemma_halves_partition(ps: Seq<Process>, a: Analysis)
    requires
        analysis_of(ps, a),
    ensures
        a.lowest@.len() + a.highest@.len() == ps.len(),
        a.lowest@.len() == ps.len() / 2,
        forall|j: int| 0 <= j < ps.len() ==> #[trigger] a.order@.contains(j as usize),
        forall|i: int, k: int| 0 <= i < k < ps.len() ==> a.order@[i] != a.order@[k],
        forall|i: int| 0 <= i < a.lowest@.len() ==> #[trigger] a.lowest@[i] == ps[a.order@[i] as int],
        forall|i: int|
            0 <= i < a.highest@.len() ==> #[trigger] a.highest@[i] == ps[a.order@[i + ps.len() / 2] as int],
{
    let keys = usage_keys(ps);
    assert forall|i: int, k: int| 0 <= i < k < ps.len() implies a.order@[i] != a.order@[k] by {
        assert(ranked_before(keys, a.order@[i] as int, a.order@[k] as int));
    }
}

/// The sorted list never goes down in usage; in particular every process of the low half
/// uses at most as much as every process of the high half.
pub proof fn lemma_low_half_below_high_half(ps: Seq<Process>, a: Analysis)
    requires
        analysis_of(ps, a),
    ensures
        forall|i: int, k: int|
            0 <= i < k < ps.len() ==> key_le(
                usage_of(#[trigger] arranged(ps, a.order@)[i]@),
                usage_of(#[trigger] arranged(ps, a.order@)[k]@),
            ),
        forall|i: int, k: int|
            0 <= i < a.lowest@.len() && 0 <= k < a.highest@.len() ==> key_le(
                usage_of((#[trigger] a.lowest@[i])@),
                usage_of((#[trigger] a.highest@[k])@),
            ),
{
    let keys = usage_keys(ps);
    let sorted = arranged(ps, a.order@);
    let h = low_half_len(ps.len() as int);
    assert forall|i: int, k: int| 0 <= i < k < ps.len() implies key_le(
        usage_of(#[trigger] sorted[i]@),
        usage_of(#[trigger] sorted[k]@),
    ) by {
        assert(ranked_before(keys, a.order@[i] as int, a.order@[k] as int));
        assert(keys[a.order@[i] as int] == usage_of(sorted[i]@));
        assert(keys[a.order@[k] as int] == usage_of(sorted[k]@));
    }
    assert forall|i: int, k: int| 0 <= i < a.lowest@.len() && 0 <= k < a.highest@.len() implies key_le(
        usage_of((#[trigger] a.lowest@[i])@),
        usage_of((#[trigger] a.highest@[k])@),
    ) by {
        assert(a.lowest@[i] == sorted[i]);
        assert(a.highest@[k] == sorted[k + h]);
        assert(key_le(usage_of(sorted[i]@), usage_of(sorted[k + h]@)));
    }
}

/// At most three processes of the low half and two of the high half keep running:
/// the number of stopped containers is what the halves hold beyond those.
pub proof fn lemma_stop_count(ps: Seq<Process>, a: Analysis)
    requires
        analysis_of(ps, a),
    ensures
        a.stopped@.len() == (if ps.len() / 2 > 3 { ps.len() / 2 - 3 } else { 0 }) + (if ps.len()
            - ps.len() / 2 > 2 {
            ps.len() - ps.len() / 2 - 2
        } else {
            0
        }),
        ps.len() - a.stopped@.len() == (if ps.len() / 2 > 3 { 3 } else { ps.len() / 2 }) + (if ps.len()
            - ps.len() / 2 > 2 {
            2
        } else {
            ps.len() - ps.len() / 2
        }),
{
    lemma_halves_partition(ps, a);
}

/// The low half keeps its three lowest-usage processes and the high half its two
/// highest-usage processes: a kept process of the low half uses at most as much as any
/// stopped one of that half, and a stopped process of the high half at most as much as
/// any kept one of that half.
pub proof fn lemma_keeps_extremes(ps: Seq<Process>, a: Analysis)
    requires
        analysis_of(ps, a),
    ensures
        forall|q: int, v: int|
            0 <= q < 3 <= v < a.lowest@.len() ==> key_le(
                usage_of((#[trigger] a.lowest@[q])@),
                usage_of((#[trigger] a.lowest@[v])@),
            ),
        forall|v: int, q: int|
            0 <= v < a.highest@.len() - 2 <= q < a.highest@.len() ==> key_le(
                usage_of((#[trigger] a.highest@[v])@),
                usage_of((#[trigger] a.highest@[q])@),
            ),
{
    lemma_low_half_below_high_half(ps, a);
    let sorted = arranged(ps, a.order@);
    let h = low_half_len(ps.len() as int);
    assert forall|q: int, v: int| 0 <= q < 3 <= v < a.lowest@.len() implies key_le(
        usage_of((#[trigger] a.lowest@[q])@),
        usage_of((#[trigger] a.lowest@[v])@),
    ) by {
        assert(a.lowest@[q] == sorted[q]);
        assert(a.lowest@[v] == sorted[v]);
    }
    assert forall|v: int, q: int| 0 <= v < a.highest@.len() - 2 <= q < a.highest@.len() implies key_le(
        usage_of((#[trigger] a.highest@[v])@),
        usage_of((#[trigger] a.highest@[q])@),
    ) by {
        assert(a.highest@[v] == sorted[v + h]);
        assert(a.highest@[q] == sorted[q + h]);
    }
}

/// One reading has one analysis: two analyses of the same processes agree on the order,
/// the halves and the log entries.
pub proof fn lemma_analysis_unique(ps: Seq<Process>, a1: Analysis, a2: Analysis)
    requires
        analysis_of(ps, a1),
        analysis_of(ps, a2),
    ensures
        a1.order@ == a2.order@,
        a1.lowest@ == a2.lowest@,
        a1.highest@ == a2.highest@,
        a1.stopped@.len() == a2.stopped@.len(),
        forall|i: int| 0 <= i < a1.stopped@.len() ==> (#[trigger] a1.stopped@[i])@ == a2.stopped@[i]@,
{
    crate::order::lemma_usage_order_unique(usage_keys(ps), a1.order@, a2.order@);
}

/// `perm` lists every index below `n` exactly once.
pub open spec fn is_permutation(perm: Seq<usize>, n: int) -> bool {
    &&& perm.len() == n
    &&& forall|i: int| 0 <= i < n ==> #[trigger] perm[i] < n
    &&& forall|j: int| 0 <= j < n ==> #[trigger] perm.contains(j as usize)
    &&& forall|i: int, k: int| 0 <= i < k < n ==> #[trigger] perm[i] != #[trigger] perm[k]
}

/// No two processes of `ps` have the same usage.
pub open spec fn distinct_usages(ps: Seq<Process>) -> bool {
    forall|i: int, j: int|
        0 <= i < ps.len() && 0 <= j < ps.len() && i != j ==> usage_of((#[trigger] ps[i])@) != usage_of(
            (#[trigger] ps[j])@,
        )
}

/// The order in which the kernel module lists the processes does not matter when no two
/// of them use the same: a reading whose processes are a rearrangement of another's gets
/// the same halves and stops the same containers, in the same order, with the same log
/// entries.
pub proof fn lemma_analysis_ignores_listing_order(
    ps1: Seq<Process>,
    ps2: Seq<Process>,
    perm: Seq<usize>,
    a1: Analysis,
    a2: Analysis,
)
    requires
        ps1.len() <= usize::MAX,
        ps2.len() == ps1.len(),
        is_permutation(perm, ps1.len() as int),
        forall|i: int| 0 <= i < ps2.len() ==> #[trigger] ps2[i] == ps1[perm[i] as int],
        distinct_usages(ps1),
        analysis_of(ps1, a1),
        analysis_of(ps2, a2),
    ensures
        a1.lowest@ == a2.lowest@,
        a1.highest@ == a2.highest@,
        a1.stopped@.len() == a2.stopped@.len(),
        forall|i: int| 0 <= i < a1.stopped@.len() ==> (#[trigger] a1.stopped@[i])@ == a2.stopped@[i]@,
{
    let n = ps1.len() as int;
    let keys1 = usage_keys(ps1);
    let keys2 = usage_keys(ps2);
    let o1 = a1.order@;
    // where each process of the first listing stands in the second
    let position = |j: usize| choose|i: int| 0 <= i < n && perm[i] == j;
    assert forall|j: usize| j < n implies 0 <= #[trigger] position(j) < n && perm[position(j)] == j by {
        assert(perm.contains((j as int) as usize));
    }
    let o2 = Seq::new(n as nat, |i: int| position(o1[i]) as usize);
    assert forall|i: int| 0 <= i < n implies #[trigger] ps2[o2[i] as int] == ps1[o1[i] as int] by {
        assert(o1[i] < n);
        let p = position(o1[i]);
        assert(0 <= p < n && perm[p] == o1[i]);
        assert(o2[i] as int == p);
        assert(ps2[p] == ps1[perm[p] as int]);
    }
    assert(is_usage_order(keys2, o2)) by {
        assert forall|i: int| 0 <= i < o2.len() implies #[trigger] o2[i] < keys2.len() by {
            assert(o1[i] < n);
        }
        assert forall|j: int| 0 <= j < keys2.len() implies #[trigger] o2.contains(j as usize) by {
            let target = perm[j];
            assert(o1.contains((target as int) as usize));
            let i = choose|i: int| 0 <= i < n && o1[i] == target;
            let p = position(target);
            if p != j {
                if p < j {
                    assert(perm[p] != perm[j]);
                } else {
                    assert(perm[j] != perm[p]);
                }
            }
            assert(o2[i] == j as usize);
        }
        assert forall|i: int, k: int| 0 <= i < k < o2.len() implies ranked_before(
            keys2,
            #[trigger] o2[i] as int,
            #[trigger] o2[k] as int,
        ) by {
            assert(ranked_before(keys1, o1[i] as int, o1[k] as int));
            assert(o1[i] != o1[k]) by {
                assert(ranked_before(keys1, o1[i] as int, o1[k] as int));
            }
            assert(o1[i] < n && o1[k] < n);
            assert(keys1[o1[i] as int] != keys1[o1[k] as int]) by {
                assert(usage_of(ps1[o1[i] as int]@) != usage_of(ps1[o1[k] as int]@));
            }
            assert(ps2[o2[i] as int] == ps1[o1[i] as int]);
            assert(ps2[o2[k] as int] == ps1[o1[k] as int]);
            assert(keys2[o2[i] as int] == keys1[o1[i] as int]);
            assert(keys2[o2[k] as int] == keys1[o1[k] as int]);
        }
    }
    crate::order::lemma_usage_order_unique(keys2, a2.order@, o2);
    let sorted1 = arranged(ps1, o1);
    let sorted2 = arranged(ps2, a2.order@);
    assert(sorted1 =~= sorted2) by {
        assert forall|i: int| 0 <= i < n implies sorted1[i] == sorted2[i] by {
            assert(ps2[o2[i] as int] == ps1[o1[i] as int]);
        }
    }
    assert(a1.lowest@ =~= a2.lowest@);
    assert(a1.highest@ =~= a2.highest@);
}

/// Which containers a round stops, position by position: first those of the low half past
/// its first three, in sorted order, then those of the high half before its last two. The
/// three lowest-usage processes of the low half and the two highest-usage processes of the
/// high half are never among them.
pub proof fn lemma_stopped_are_past_three_lowest_and_before_two_highest(ps: Seq<Process>, a: Analysis)
    requires
        analysis_of(ps, a),
    ensures
        a.stopped@.len() == (if a.lowest@.len() > 3 { a.lowest@.len() - 3 } else { 0 }) + (if a.highest@.len()
            > 2 {
            a.highest@.len() - 2
        } else {
            0
        }),
        forall|i: int|
            0 <= i < a.lowest@.len() - 3 ==> (#[trigger] a.stopped@[i])@ == log_of(a.lowest@[i + 3]@),
        forall|i: int|
            0 <= i < a.highest@.len() - 2 ==> (a.stopped@[(if a.lowest@.len() > 3 {
                a.lowest@.len() - 3
            } else {
                0
            }) + i])@ == log_of((#[trigger] a.highest@[i])@),
{
    let sl = stopped_low(a.lowest@);
    let victims = stop_list(a.lowest@, a.highest@);
    assert forall|i: int| 0 <= i < a.lowest@.len() - 3 implies (#[trigger] a.stopped@[i])@ == log_of(
        a.lowest@[i + 3]@,
    ) by {
        assert(victims[i] == sl[i]);
    }
    assert forall|i: int| 0 <= i < a.highest@.len() - 2 implies (a.stopped@[(if a.lowest@.len() > 3 {
        a.lowest@.len() - 3
    } else {
        0
    }) + i])@ == log_of((#[trigger] a.highest@[i])@) by {
        assert(victims[sl.len() + i] == stopped_high(a.highest@)[i]);
    }
}

/// The sorted list goes up in CPU usage, and within equal CPU usage up in memory usage;
/// processes of equal usage stay in the order in which the reading lists them.
pub proof fn lemma_sorted_by_cpu_then_memory(ps: Seq<Process>, a: Analysis)
    requires
        analysis_of(ps, a),
    ensures
        forall|i: int, k: int|
            0 <= i < k < ps.len() ==> {
                let p = #[trigger] arranged(ps, a.order@)[i];
                let q = #[trigger] arranged(ps, a.order@)[k];
                ||| p.cpu_usage < q.cpu_usage
                ||| p.cpu_usage == q.cpu_usage && p.memory_usage < q.memory_usage
                ||| p.cpu_usage == q.cpu_usage && p.memory_usage == q.memory_usage && a.order@[i] < a.order@[k]
            },
{
    let keys = usage_keys(ps);
    let sorted = arranged(ps, a.order@);
    assert forall|i: int, k: int| 0 <= i < k < ps.len() implies {
        let p = #[trigger] sorted[i];
        let q = #[trigger] sorted[k];
        ||| p.cpu_usage < q.cpu_usage
        ||| p.cpu_usage == q.cpu_usage && p.memory_usage < q.memory_usage
        ||| p.cpu_usage == q.cpu_usage && p.memory_usage == q.memory_usage && a.order@[i] < a.order@[k]
    } by {
        assert(ranked_before(keys, a.order@[i] as int, a.order@[k] as int));
        assert(keys[a.order@[i] as int] == usage_of(sorted[i]@));
        assert(keys[a.order@[k] as int] == usage_of(sorted[k]@));
    }
}

} // verus!
