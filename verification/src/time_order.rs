//! The order of events by time. Events of the same time keep the order in which they came.
use vstd::prelude::*;

verus! {

/// Whether the event at `a` comes before the one at `b`.
pub open spec fn comes_before(times: Seq<u64>, a: int, b: int) -> bool {
    times[a] < times[b] || (times[a] == times[b] && a < b)
}

/// Whether positions name all events, each once, in the order of their times. There is one such
/// list for every list of times.
pub open spec fn is_time_order(order: Seq<usize>, times: Seq<u64>) -> bool {
    &&& order.len() == times.len()
    &&& forall|i: int| 0 <= i < order.len() ==> (#[trigger] order[i]) < times.len()
    &&& forall|i: int, j: int|
        #![trigger order[i], order[j]]
        0 <= i < j < order.len() ==> comes_before(times, order[i] as int, order[j] as int)
}

/// The positions of the events in the order of their times.
pub fn time_order(times: &Vec<u64>) -> (r: Vec<usize>)
    ensures
        is_time_order(r@, times@),
{
    let mut order: Vec<usize> = Vec::new();
    let mut i: usize = 0;
    while i < times.len()
        invariant
            i <= times@.len(),
            order@.len() == i,
            forall|k: int| 0 <= k < i ==> (#[trigger] order@[k]) < i,
            forall|a: int, b: int|
                #![trigger order@[a], order@[b]]
                0 <= a < b < i ==> comes_before(times@, order@[a] as int, order@[b] as int),
        decreases times@.len() - i,
    {
        let mut p: usize = i;
        while p > 0 && times[order[p - 1]] > times[i]
            invariant
                p <= i,
                i < times@.len(),
                order@.len() == i,
                forall|k: int| 0 <= k < i ==> (#[trigger] order@[k]) < i,
                forall|k: int| p <= k < i ==> times@[(#[trigger] order@[k]) as int] > times@[i as int],
            decreases p,
        {
            p -= 1;
        }
        let ghost before = order@;
        order.insert(p, i);
        proof {
            assert forall|a: int, b: int|
                #![trigger order@[a], order@[b]]
                0 <= a < b < i + 1 implies comes_before(
                times@,
                order@[a] as int,
                order@[b] as int,
            ) by {
                if p > 0 {
                    assert(times@[before[p - 1] as int] <= times@[i as int]);
                }
                if b == p && a < p - 1 {
                    assert(comes_before(times@, before[a] as int, before[p - 1] as int));
                }
                if a < p && b > p {
                    assert(comes_before(times@, before[a] as int, before[b - 1] as int));
                }
                if a == p {
                    assert(times@[before[b - 1] as int] > times@[i as int]);
                }
                if a > p {
                    assert(comes_before(times@, before[a - 1] as int, before[b - 1] as int));
                }
                if b < p {
                    assert(comes_before(times@, before[a] as int, before[b] as int));
                }
            }
        }
        i += 1;
    }
    order
}

/// In the order of time nothing older comes behind, and what has the same time stays in its order.
pub proof fn law_older_comes_first(order: Seq<usize>, times: Seq<u64>, i: int, j: int)
    requires
        is_time_order(order, times),
        0 <= i < j < order.len(),
    ensures
        times[order[i] as int] <= times[order[j] as int],
        times[order[i] as int] == times[order[j] as int] ==> order[i] < order[j],
        order[i] != order[j],
        order.len() == times.len(),
{
}

} // verus!
