//! Cycles in a directed graph whose nodes are the numbers below `n`.
//!
//! An arc with an end that is no node is ignored. A node lies on a cycle
//! when a path of at least one arc leads from it back to itself.

use vstd::prelude::*;

verus! {

/// Whether an arc leads from node `u` to node `v`.
pub open spec fn has_arc(n: nat, arcs: Seq<(usize, usize)>, u: int, v: int) -> bool {
    &&& 0 <= u < n
    &&& 0 <= v < n
    &&& exists|k: int| 0 <= k < arcs.len() && (#[trigger] arcs[k]).0 == u && arcs[k].1 == v
}

/// A path: at least two nodes, each joined to the next by an arc.
pub open spec fn is_path(n: nat, arcs: Seq<(usize, usize)>, p: Seq<int>) -> bool {
    &&& p.len() >= 2
    &&& forall|i: int| 0 <= i < p.len() - 1 ==> has_arc(n, arcs, #[trigger] p[i], p[i + 1])
}

/// Whether a path leads from `u` to `v`.
pub open spec fn reaches(n: nat, arcs: Seq<(usize, usize)>, u: int, v: int) -> bool {
    exists|p: Seq<int>| #[trigger] is_path(n, arcs, p) && p[0] == u && p.last() == v
}

pub open spec fn on_cycle(n: nat, arcs: Seq<(usize, usize)>, v: int) -> bool {
    reaches(n, arcs, v, v)
}

/// The nodes below `m` that lie on a cycle, in ascending order.
pub open spec fn cyclic_upto(n: nat, arcs: Seq<(usize, usize)>, m: nat) -> Seq<usize>
    decreases m,
{
    if m == 0 || m > n {
        Seq::empty()
    } else {
        let rest = cyclic_upto(n, arcs, (m - 1) as nat);
        if on_cycle(n, arcs, m - 1) {
            rest.push((m - 1) as usize)
        } else {
            rest
        }
    }
}

/// The nodes that lie on a cycle, in ascending order.
pub open spec fn cyclic_nodes_of(n: nat, arcs: Seq<(usize, usize)>) -> Seq<usize> {
    cyclic_upto(n, arcs, n)
}

/// Whether the marks are closed under the first `upto` arcs: an arc that
/// starts at `v` or at a marked node ends at a marked node.
spec fn closed_under(n: nat, arcs: Seq<(usize, usize)>, v: int, marks: Seq<bool>, upto: int) -> bool {
    forall|k: int|
        0 <= k < upto ==> {
            let a = (#[trigger] arcs[k]).0;
            let b = arcs[k].1;
            a < n && b < n && (a == v || marks[a as int]) ==> marks[b as int]
        }
}

spec fn unmarked(marks: Seq<bool>) -> nat
    decreases marks.len(),
{
    if marks.len() == 0 {
        0
    } else {
        unmarked(marks.drop_last()) + if marks.last() {
            0nat
        } else {
            1nat
        }
    }
}

proof fn lemma_mark_one(marks: Seq<bool>, i: int)
    requires
        0 <= i < marks.len(),
        !marks[i],
    ensures
        unmarked(marks.update(i, true)) + 1 == unmarked(marks),
    decreases marks.len(),
{
    let after = marks.update(i, true);
    if i == marks.len() - 1 {
        assert(after.drop_last() =~= marks.drop_last());
    } else {
        assert(after.drop_last() =~= marks.drop_last().update(i, true));
        lemma_mark_one(marks.drop_last(), i);
    }
}

proof fn lemma_one_arc(n: nat, arcs: Seq<(usize, usize)>, u: int, v: int)
    requires
        has_arc(n, arcs, u, v),
    ensures
        reaches(n, arcs, u, v),
{
    let p = seq![u, v];
    assert(is_path(n, arcs, p));
    assert(p[0] == u && p.last() == v);
}

proof fn lemma_one_more_arc(n: nat, arcs: Seq<(usize, usize)>, u: int, v: int, w: int)
    requires
        reaches(n, arcs, u, v),
        has_arc(n, arcs, v, w),
    ensures
        reaches(n, arcs, u, w),
{
    let p = choose|p: Seq<int>| #[trigger] is_path(n, arcs, p) && p[0] == u && p.last() == v;
    let q = p.push(w);
    assert forall|i: int| 0 <= i < q.len() - 1 implies has_arc(n, arcs, #[trigger] q[i], q[i + 1]) by {
        if i < p.len() - 1 {
            assert(has_arc(n, arcs, p[i], p[i + 1]));
        }
    }
    assert(is_path(n, arcs, q));
    assert(q[0] == u && q.last() == w);
}

proof fn lemma_closed_holds_all(n: nat, arcs: Seq<(usize, usize)>, v: int, marks: Seq<bool>, p: Seq<int>)
    requires
        marks.len() == n,
        closed_under(n, arcs, v, marks, arcs.len() as int),
        is_path(n, arcs, p),
        p[0] == v,
    ensures
        marks[p.last()],
    decreases p.len(),
{
    let last = p.len() - 1;
    assert(has_arc(n, arcs, p[last - 1], p[last - 1 + 1]));
    let k = choose|k: int|
        0 <= k < arcs.len() && (#[trigger] arcs[k]).0 == p[last - 1] && arcs[k].1 == p[last];
    if p.len() > 2 {
        let q = p.drop_last();
        assert forall|i: int| 0 <= i < q.len() - 1 implies has_arc(
            n,
            arcs,
            #[trigger] q[i],
            q[i + 1],
        ) by {
            assert(has_arc(n, arcs, p[i], p[i + 1]));
        }
        lemma_closed_holds_all(n, arcs, v, marks, q);
    }
}

/// For each node, whether a path leads to it from `v`.
pub fn reachable_from(n: usize, arcs: &Vec<(usize, usize)>, v: usize) -> (marks: Vec<bool>)
    requires
        v < n,
    ensures
        marks.len() == n,
        forall|u: int| 0 <= u < n ==> marks[u] == reaches(n as nat, arcs@, v as int, u),
{
    let mut marks: Vec<bool> = Vec::new();
    let mut i: usize = 0;
    while i < n
        invariant
            i <= n,
            marks.len() == i,
            forall|u: int| 0 <= u < i ==> !marks[u],
        decreases n - i,
    {
        marks.push(false);
        i += 1;
    }
    loop
        invariant
            v < n,
            marks.len() == n,
            forall|u: int| 0 <= u < n && marks[u] ==> reaches(n as nat, arcs@, v as int, u),
        ensures
            closed_under(n as nat, arcs@, v as int, marks@, arcs.len() as int),
        decreases unmarked(marks@),
    {
        let ghost at_start = marks@;
        let mut changed: bool = false;
        let mut k: usize = 0;
        while k < arcs.len()
            invariant
                k <= arcs.len(),
                v < n,
                marks.len() == n,
                forall|u: int| 0 <= u < n && marks[u] ==> reaches(n as nat, arcs@, v as int, u),
                unmarked(marks@) <= unmarked(at_start),
                changed ==> unmarked(marks@) < unmarked(at_start),
                !changed ==> closed_under(n as nat, arcs@, v as int, marks@, k as int),
            decreases arcs.len() - k,
        {
            let a: usize = arcs[k].0;
            let b: usize = arcs[k].1;
            if a < n && b < n && (a == v || marks[a]) && !marks[b] {
                proof {
                    assert(has_arc(n as nat, arcs@, a as int, b as int));
                    if a == v {
                        lemma_one_arc(n as nat, arcs@, v as int, b as int);
                    } else {
                        lemma_one_more_arc(n as nat, arcs@, v as int, a as int, b as int);
                    }
                    lemma_mark_one(marks@, b as int);
                }
                marks.set(b, true);
                changed = true;
            }
            k += 1;
        }
        if !changed {
            break ;
        }
    }
    proof {
        assert forall|u: int| 0 <= u < n implies marks[u] == reaches(
            n as nat,
            arcs@,
            v as int,
            u,
        ) by {
            if reaches(n as nat, arcs@, v as int, u) {
                let p = choose|p: Seq<int>|
                    #[trigger] is_path(n as nat, arcs@, p) && p[0] == v as int && p.last() == u;
                lemma_closed_holds_all(n as nat, arcs@, v as int, marks@, p);
            }
        }
    }
    marks
}

/// The nodes that lie on a cycle, in ascending order.
pub fn cyclic_nodes(n: usize, arcs: &Vec<(usize, usize)>) -> (out: Vec<usize>)
    ensures
        out@ == cyclic_nodes_of(n as nat, arcs@),
        forall|i: int| 0 <= i < out.len() ==> out[i] < n,
{
    let mut out: Vec<usize> = Vec::new();
    let mut v: usize = 0;
    while v < n
        invariant
            v <= n,
            out@ == cyclic_upto(n as nat, arcs@, v as nat),
            forall|i: int| 0 <= i < out.len() ==> out[i] < v,
        decreases n - v,
    {
        let marks: Vec<bool> = reachable_from(n, arcs, v);
        if marks[v] {
            out.push(v);
        }
        v += 1;
    }
    out
}

} // verus!
