//! Which worker waits for which, and that none waits for itself.
use vstd::prelude::*;

use crate::error::ForemanError;
use crate::id_map::IdMap;
use crate::text_map;

verus! {

/// Whether `a` waits for `b`.
pub open spec fn edge(graph: Map<u128, Vec<u128>>, a: u128, b: u128) -> bool {
    graph.dom().contains(a) && graph[a]@.contains(b)
}

/// Whether each of a row waits for the next.
pub open spec fn is_path(graph: Map<u128, Vec<u128>>, p: Seq<u128>) -> bool {
    forall|i: int| 0 <= i < p.len() - 1 ==> edge(graph, #[trigger] p[i], p[i + 1])
}

/// Whether a row of workers, each of which waits for the next, leads back to its first.
pub open spec fn is_cycle(graph: Map<u128, Vec<u128>>, p: Seq<u128>) -> bool {
    p.len() >= 2 && p.first() == p.last() && is_path(graph, p)
}

/// Whether a worker waits, directly or through others, for itself.
pub open spec fn has_cycle(graph: Map<u128, Vec<u128>>) -> bool {
    exists|p: Seq<u128>| is_cycle(graph, p)
}

/// Whether each of a row waits only for workers before it.
spec fn is_ordered(graph: Map<u128, Vec<u128>>, order: Seq<u128>) -> bool {
    &&& order.no_duplicates()
    &&& forall|i: int, b: u128|
        0 <= i < order.len() && #[trigger] edge(graph, order[i], b) ==> exists|j: int|
            0 <= j < i && order[j] == b
}

/// A search at work: the workers marked 1 stand on its path, those marked 2 in the order.
spec fn searching(
    graph: Map<u128, Vec<u128>>,
    marks: Map<u128, u8>,
    stack: Seq<u128>,
    order: Seq<u128>,
) -> bool {
    &&& forall|x: u128| #[trigger] marks.dom().contains(x) ==> marks[x] == 1 || marks[x] == 2
    &&& forall|x: u128|
        #[trigger] stack.contains(x) <==> marks.dom().contains(x) && marks[x] == 1
    &&& forall|x: u128|
        #[trigger] order.contains(x) <==> marks.dom().contains(x) && marks[x] == 2
    &&& is_path(graph, stack)
    &&& is_ordered(graph, order)
}

/// The workers that a search has not reached.
spec fn not_visited(graph: Map<u128, Vec<u128>>, marks: Map<u128, u8>) -> Set<u128> {
    graph.dom().difference(marks.dom())
}

/// Where every worker that waits stands in such an order, none waits for itself.
proof fn lemma_ordered_has_no_cycle(graph: Map<u128, Vec<u128>>, order: Seq<u128>)
    requires
        is_ordered(graph, order),
        forall|x: u128| #[trigger] graph.dom().contains(x) ==> order.contains(x),
    ensures
        !has_cycle(graph),
{
    if has_cycle(graph) {
        let p = choose|p: Seq<u128>| is_cycle(graph, p);
        assert(edge(graph, p[0], p[1]));
        assert(order.contains(p[0]));
        let start = order.index_of(p[0]);
        lemma_path_descends(graph, order, p, p.len() - 1);
        let end = order.index_of(p.last());
        assert(start == end);
    }
}

proof fn lemma_path_descends(
    graph: Map<u128, Vec<u128>>,
    order: Seq<u128>,
    p: Seq<u128>,
    k: int,
)
    requires
        is_ordered(graph, order),
        is_path(graph, p),
        0 < k < p.len(),
        order.contains(p[0]),
    ensures
        order.contains(p[k]),
        order.index_of(p[k]) < order.index_of(p[0]),
    decreases k,
{
    if k > 1 {
        lemma_path_descends(graph, order, p, k - 1);
    }
    assert(edge(graph, p[k - 1], p[k - 1 + 1]));
    let i = order.index_of(p[k - 1]);
    assert(order[i] == p[k - 1]);
    assert(edge(graph, order[i], p[k]));
    let j = choose|j: int| 0 <= j < i && order[j] == p[k];
    assert(order.contains(p[k]));
    let m = order.index_of(p[k]);
    assert(order[m] == p[k]);
    assert(m == j);
}

/// Follows the workers that `worker` waits for. Says whether they lead back to the path on which
/// the search stands.
fn detect_cycle(
    worker: u128,
    graph: &IdMap<Vec<u128>>,
    marks: &mut IdMap<u8>,
    Ghost(stack): Ghost<Seq<u128>>,
    Ghost(order): Ghost<Seq<u128>>,
) -> (r: (bool, Ghost<Seq<u128>>))
    requires
        searching(graph@, old(marks)@, stack, order),
        stack.len() > 0 ==> edge(graph@, stack.last(), worker),
    ensures
        r.0 ==> has_cycle(graph@),
        !r.0 ==> {
            &&& searching(graph@, final(marks)@, stack, r.1@)
            &&& r.1@.contains(worker)
            &&& forall|x: u128| #[trigger] order.contains(x) ==> r.1@.contains(x)
            &&& not_visited(graph@, final(marks)@).subset_of(not_visited(graph@, old(marks)@))
        },
    decreases not_visited(graph@, old(marks)@).len(),
{
    let mark: u8 = match marks.get(worker) {
        Some(m) => *m,
        None => 0,
    };
    if mark == 1 {
        proof {
            assert(stack.contains(worker));
            let k = stack.index_of(worker);
            let p = stack.subrange(k, stack.len() as int).push(worker);
            assert(is_path(graph@, p)) by {
                assert forall|i: int| 0 <= i < p.len() - 1 implies edge(
                    graph@,
                    #[trigger] p[i],
                    p[i + 1],
                ) by {
                    if i < p.len() - 2 {
                        assert(edge(graph@, stack[k + i], stack[k + i + 1]));
                    }
                }
            }
            assert(is_cycle(graph@, p));
        }
        return (true, Ghost(order));
    }
    if mark == 2 {
        assert(order.contains(worker));
        return (false, Ghost(order));
    }
    let ghost marks0 = marks@;
    assert(!marks0.dom().contains(worker));
    marks.insert(worker, 1);
    let ghost path = stack.push(worker);
    let mut now: Ghost<Seq<u128>> = Ghost(order);
    proof {
        assert forall|x: u128|
            #[trigger] path.contains(x) <==> marks@.dom().contains(x) && marks@[x] == 1 by {
            if path.contains(x) && x != worker {
                let i = path.index_of(x);
                assert(stack[i] == x);
            }
            if x == worker {
                assert(path[stack.len() as int] == worker);
            }
            if stack.contains(x) {
                let i = stack.index_of(x);
                assert(path[i] == x);
            }
        }
        assert(!order.contains(worker));
        assert(is_path(graph@, path)) by {
            assert forall|i: int| 0 <= i < path.len() - 1 implies edge(
                graph@,
                #[trigger] path[i],
                path[i + 1],
            ) by {
                if i < stack.len() - 1 {
                    assert(edge(graph@, stack[i], stack[i + 1]));
                }
            }
        }
        assert(searching(graph@, marks@, path, now@));
    }
    let n: usize = graph.len();
    proof {
        text_map::lemma_map_of_finite(graph.items());
    }
    if let Some(deps) = graph.get(worker) {
        proof {
            assert(not_visited(graph@, marks0).contains(worker));
            assert(not_visited(graph@, marks@) == not_visited(graph@, marks0).remove(worker));
        }
        let ghost bound = not_visited(graph@, marks0).len();
        let mut i: usize = 0;
        while i < deps.len()
            invariant
                i <= deps@.len(),
                graph@.dom().contains(worker),
                graph@.dom().finite(),
                *deps == graph@[worker],
                path == stack.push(worker),
                searching(graph@, marks@, path, now@),
                forall|x: u128| #[trigger] order.contains(x) ==> now@.contains(x),
                forall|j: int| 0 <= j < i ==> now@.contains(#[trigger] deps@[j]),
                not_visited(graph@, marks@).subset_of(not_visited(graph@, marks0).remove(worker)),
                bound == not_visited(graph@, marks0).len(),
                bound == not_visited(graph@, old(marks)@).len(),
                not_visited(graph@, marks0).contains(worker),
            decreases deps@.len() - i,
        {
            proof {
                assert(path.last() == worker);
                assert(deps@.contains(deps@[i as int]));
                let rest = not_visited(graph@, marks0).remove(worker);
                vstd::set_lib::lemma_len_subset(not_visited(graph@, marks@), rest);
            }
            let ghost before = now@;
            let ghost reached = marks@;
            let found = detect_cycle(deps[i], graph, marks, Ghost(path), Ghost(before));
            if found.0 {
                return (true, Ghost(order));
            }
            now = found.1;
            i += 1;
        }
    }
    let ghost inner = marks@;
    marks.insert(worker, 2);
    let ghost done = now@.push(worker);
    proof {
        assert(path.contains(worker)) by {
            assert(path[stack.len() as int] == worker);
        }
        assert(!now@.contains(worker));
        assert(!stack.contains(worker));
        assert forall|x: u128|
            #[trigger] stack.contains(x) <==> marks@.dom().contains(x) && marks@[x] == 1 by {
            if stack.contains(x) {
                let i = stack.index_of(x);
                assert(path[i] == x);
                assert(path.contains(x));
            }
            if marks@.dom().contains(x) && marks@[x] == 1 {
                assert(path.contains(x));
                let i = path.index_of(x);
                assert(stack[i] == x);
            }
        }
        assert forall|x: u128|
            #[trigger] done.contains(x) <==> marks@.dom().contains(x) && marks@[x] == 2 by {
            if done.contains(x) && x != worker {
                let i = done.index_of(x);
                assert(now@[i] == x);
                assert(now@.contains(x));
            }
            if x == worker {
                assert(done[now@.len() as int] == worker);
            }
            if now@.contains(x) {
                let i = now@.index_of(x);
                assert(done[i] == x);
            }
        }
        assert(is_ordered(graph@, done)) by {
            assert forall|i: int, b: u128|
                0 <= i < done.len() && #[trigger] edge(graph@, done[i], b) implies exists|j: int|
                0 <= j < i && done[j] == b by {
                if i < now@.len() {
                    assert(edge(graph@, now@[i], b));
                    let j = choose|j: int| 0 <= j < i && now@[j] == b;
                    assert(done[j] == b);
                } else {
                    let deps = graph@[worker]@;
                    assert(deps.contains(b));
                    let k = deps.index_of(b);
                    assert(now@.contains(deps[k]));
                    let j = now@.index_of(b);
                    assert(done[j] == b);
                }
            }
        }
        assert forall|x: u128| #[trigger] order.contains(x) implies done.contains(x) by {
            assert(now@.contains(x));
            let i = now@.index_of(x);
            assert(done[i] == x);
        }
        assert(done[now@.len() as int] == worker);
        assert(is_path(graph@, stack)) by {
            assert forall|i: int| 0 <= i < stack.len() - 1 implies edge(
                graph@,
                #[trigger] stack[i],
                stack[i + 1],
            ) by {
                assert(edge(graph@, path[i], path[i + 1]));
            }
        }
    }
    (false, Ghost(done))
}

/// That no worker waits, directly or through others, for itself.
pub fn assert_dependency_graph_acyclic(dependency_graph: &IdMap<Vec<u128>>) -> (r: Result<
    (),
    ForemanError,
>)
    ensures
        r is Ok <==> !has_cycle(dependency_graph@),
        r matches Err(e) ==> e@ == seq!["dependency graph contains a cycle"@],
{
    let n: usize = dependency_graph.len();
    let ghost graph = dependency_graph@;
    let mut marks: IdMap<u8> = IdMap::new();
    let ghost stack = Seq::<u128>::empty();
    let mut order: Ghost<Seq<u128>> = Ghost(Seq::<u128>::empty());
    let mut i: usize = 0;
    while i < n
        invariant
            i <= n,
            n == dependency_graph.items().len(),
            graph == dependency_graph@,
            stack == Seq::<u128>::empty(),
            searching(graph, marks@, stack, order@),
            forall|j: int|
                0 <= j < i ==> order@.contains((#[trigger] dependency_graph.items()[j]).0),
        decreases n - i,
    {
        let worker = dependency_graph.key_at(i);
        let ghost before = order@;
        let found = detect_cycle(worker, dependency_graph, &mut marks, Ghost(stack), Ghost(before));
        if found.0 {
            return Err(ForemanError::from_text("dependency graph contains a cycle"));
        }
        order = found.1;
        i += 1;
    }
    proof {
        assert forall|x: u128| #[trigger] graph.dom().contains(x) implies order@.contains(x) by {
            let j = choose|j: int|
                0 <= j < dependency_graph.items().len()
                    && (#[trigger] dependency_graph.items()[j]).0 == x;
            assert(dependency_graph.items()[j].0 == x);
        }
        lemma_ordered_has_no_cycle(graph, order@);
    }
    Ok(())
}

/// Whether a row of workers, each of which waits for the next, leads back to its first.
pub open spec fn is_circle(lists: Map<u128, Seq<u128>>, p: Seq<u128>) -> bool {
    p.len() >= 2 && p.first() == p.last() && forall|i: int|
        0 <= i < p.len() - 1 ==> lists.dom().contains(#[trigger] p[i]) && lists[p[i]].contains(
            p[i + 1],
        )
}

/// Whether a worker waits, directly or through others, for itself.
pub open spec fn has_circle(lists: Map<u128, Seq<u128>>) -> bool {
    exists|p: Seq<u128>| is_circle(lists, p)
}

/// What counts is which worker waits for which.
pub proof fn lemma_has_circle(graph: Map<u128, Vec<u128>>)
    ensures
        has_cycle(graph) == has_circle(graph.map_values(|v: Vec<u128>| v@)),
{
    let lists = graph.map_values(|v: Vec<u128>| v@);
    if has_cycle(graph) {
        let p = choose|p: Seq<u128>| is_cycle(graph, p);
        assert forall|i: int| 0 <= i < p.len() - 1 implies lists.dom().contains(#[trigger] p[i])
            && lists[p[i]].contains(p[i + 1]) by {
            assert(edge(graph, p[i], p[i + 1]));
        }
        assert(is_circle(lists, p));
    }
    if has_circle(lists) {
        let p = choose|p: Seq<u128>| is_circle(lists, p);
        assert forall|i: int| 0 <= i < p.len() - 1 implies edge(graph, #[trigger] p[i], p[i + 1]) by {
            assert(lists.dom().contains(p[i]));
        }
        assert(is_cycle(graph, p));
    }
}

/// A node that leads to itself is a circle, and so are two that lead to each other; where no node
/// leads anywhere there is none.
pub proof fn law_circles_come_back(lists: Map<u128, Seq<u128>>, a: u128, b: u128)
    ensures
        lists.dom().contains(a) && lists[a].contains(a) ==> has_circle(lists),
        lists.dom().contains(a) && lists[a].contains(b) && lists.dom().contains(b)
            && lists[b].contains(a) ==> has_circle(lists),
        (forall|k: u128| #[trigger] lists.dom().contains(k) ==> lists[k].len() == 0) ==> !has_circle(
            lists,
        ),
{
    if lists.dom().contains(a) && lists[a].contains(a) {
        let p = seq![a, a];
        assert(is_circle(lists, p));
    }
    if lists.dom().contains(a) && lists[a].contains(b) && lists.dom().contains(b)
        && lists[b].contains(a) {
        let p = seq![a, b, a];
        assert(is_circle(lists, p));
    }
    if has_circle(lists) {
        let p = choose|p: Seq<u128>| is_circle(lists, p);
        assert(lists.dom().contains(p[0]) && lists[p[0]].contains(p[1]));
        assert(lists[p[0]].len() > 0);
    }
}

} // verus!
