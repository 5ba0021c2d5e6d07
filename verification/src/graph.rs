//! The dependency graph and its scheduler.
//!
//! An edge `(dependent, dependency)` says the dependent node must be built
//! strictly after the dependency.  `schedule` computes the unique
//! deterministic topological order (among eligible nodes, the smallest arena
//! index goes first) or, when none exists, reports a cycle as a closed walk
//! of node indices.

use vstd::prelude::*;

verus! {

/// All edge endpoints lie below `n`.
pub open spec fn edges_in_range(edges: Seq<(usize, usize)>, n: int) -> bool {
    forall|e: int|
        0 <= e < edges.len() ==> ((#[trigger] edges[e]).0 as int) < n && (edges[e].1 as int) < n
}

/// Every dependency of `v` lies in `done`.
pub open spec fn deps_satisfied(v: usize, edges: Seq<(usize, usize)>, done: Seq<usize>) -> bool {
    forall|e: int|
        0 <= e < edges.len() && (#[trigger] edges[e]).0 == v ==> done.contains(edges[e].1)
}

/// `v` may be scheduled next, after the nodes in `done`: it is in range, not
/// yet scheduled, and all its dependencies are scheduled.
pub open spec fn eligible(v: usize, n: int, edges: Seq<(usize, usize)>, done: Seq<usize>) -> bool {
    (v as int) < n && !done.contains(v) && deps_satisfied(v, edges, done)
}

/// A valid deterministic schedule of the nodes `0..n`: each position holds
/// the smallest node eligible after the positions before it.  This pins the
/// whole sequence down (see `lemma_schedule_unique`).
pub open spec fn valid_schedule(order: Seq<usize>, n: int, edges: Seq<(usize, usize)>) -> bool {
    &&& order.len() == n
    &&& forall|k: int| 0 <= k < n ==> eligible(#[trigger] order[k], n, edges, order.take(k))
    &&& forall|k: int, v: usize|
        0 <= k < n && eligible(v, n, edges, order.take(k)) ==> order[k] <= v
}

/// Number of `true` entries.
pub open spec fn count_true(s: Seq<bool>) -> int
    decreases s.len(),
{
    if s.len() == 0 {
        0
    } else {
        count_true(s.drop_last()) + if s.last() {
            1int
        } else {
            0int
        }
    }
}

proof fn lemma_count_true_update(s: Seq<bool>, i: int)
    requires
        0 <= i < s.len(),
        !s[i],
    ensures
        count_true(s.update(i, true)) == count_true(s) + 1,
    decreases s.len(),
{
    let t = s.update(i, true);
    if i == s.len() - 1 {
        assert(t.drop_last() =~= s.drop_last());
    } else {
        assert(t.drop_last() =~= s.drop_last().update(i, true));
        lemma_count_true_update(s.drop_last(), i);
    }
}

proof fn lemma_count_true_full(s: Seq<bool>)
    requires
        forall|i: int| 0 <= i < s.len() ==> s[i],
    ensures
        count_true(s) == s.len(),
    decreases s.len(),
{
    if s.len() > 0 {
        lemma_count_true_full(s.drop_last());
    }
}

proof fn lemma_count_true_none(s: Seq<bool>)
    requires
        forall|i: int| 0 <= i < s.len() ==> !s[i],
    ensures
        count_true(s) == 0,
    decreases s.len(),
{
    if s.len() > 0 {
        lemma_count_true_none(s.drop_last());
    }
}

proof fn lemma_count_true_bound(s: Seq<bool>)
    ensures
        count_true(s) <= s.len(),
    decreases s.len(),
{
    if s.len() > 0 {
        lemma_count_true_bound(s.drop_last());
    }
}

/// Exec-level eligibility relative to a `done` bitmap.
pub open spec fn bit_eligible(v: usize, n: int, edges: Seq<(usize, usize)>, done: Seq<bool>) -> bool {
    (v as int) < n && !done[v as int] && forall|e: int|
        0 <= e < edges.len() && (#[trigger] edges[e]).0 == v ==> done[edges[e].1 as int]
}

/// All of `v`'s dependencies are marked done in the bitmap.
fn deps_done(v: usize, edges: &Vec<(usize, usize)>, done: &Vec<bool>) -> (r: bool)
    requires
        edges_in_range(edges@, done@.len() as int),
    ensures
        r == forall|e: int|
            0 <= e < edges@.len() && (#[trigger] edges@[e]).0 == v ==> done@[edges@[e].1 as int],
{
    let m = edges.len();
    let mut e: usize = 0;
    while e < m
        invariant
            m == edges@.len(),
            e <= m,
            edges_in_range(edges@, done@.len() as int),
            forall|j: int| 0 <= j < e && (#[trigger] edges@[j]).0 == v ==> done@[edges@[j].1 as int],
        decreases m - e,
    {
        if edges[e].0 == v && !done[edges[e].1] {
            return false;
        }
        e += 1;
    }
    true
}

/// The smallest node that is not done and whose dependencies are all done.
fn find_min_eligible(n: usize, edges: &Vec<(usize, usize)>, done: &Vec<bool>) -> (r: Option<usize>)
    requires
        done@.len() == n as int,
        edges_in_range(edges@, n as int),
    ensures
        match r {
            Some(v) => bit_eligible(v, n as int, edges@, done@) && forall|w: usize|
                w < v ==> !bit_eligible(w, n as int, edges@, done@),
            None => forall|w: usize| !bit_eligible(w, n as int, edges@, done@),
        },
{
    let mut v: usize = 0;
    while v < n
        invariant
            done@.len() == n as int,
            edges_in_range(edges@, n as int),
            v <= n,
            forall|w: usize| w < v ==> !bit_eligible(w, n as int, edges@, done@),
        decreases n - v,
    {
        if !done[v] && deps_done(v, edges, done) {
            return Some(v);
        }
        v += 1;
    }
    None
}

/// The first node not yet done.
fn find_undone(n: usize, done: &Vec<bool>) -> (r: Option<usize>)
    requires
        done@.len() == n as int,
    ensures
        match r {
            Some(v) => (v as int) < n as int && !done@[v as int],
            None => forall|w: int| 0 <= w < n as int ==> done@[w],
        },
{
    let mut v: usize = 0;
    while v < n
        invariant
            done@.len() == n as int,
            v <= n,
            forall|w: int| 0 <= w < v as int ==> done@[w],
        decreases n - v,
    {
        if !done[v] {
            return Some(v);
        }
        v += 1;
    }
    None
}

/// An edge from `cur` to a not-yet-done dependency, if any.
fn find_undone_dep(cur: usize, edges: &Vec<(usize, usize)>, done: &Vec<bool>) -> (r: Option<usize>)
    requires
        edges_in_range(edges@, done@.len() as int),
    ensures
        match r {
            Some(d) => edges@.contains((cur, d)) && (d as int) < done@.len() && !done@[d as int],
            None => forall|e: int|
                0 <= e < edges@.len() && (#[trigger] edges@[e]).0 == cur ==> done@[edges@[e].1 as int],
        },
{
    let m = edges.len();
    let mut e: usize = 0;
    while e < m
        invariant
            m == edges@.len(),
            e <= m,
            edges_in_range(edges@, done@.len() as int),
            forall|j: int| 0 <= j < e && (#[trigger] edges@[j]).0 == cur ==> done@[edges@[j].1 as int],
        decreases m - e,
    {
        if edges[e].0 == cur && !done[edges[e].1] {
            let d = edges[e].1;
            assert(edges@[e as int] == (cur, d));
            return Some(d);
        }
        e += 1;
    }
    None
}

/// Index of `d` in `walk` (first occurrence).
fn find_index(walk: &Vec<usize>, d: usize) -> (r: usize)
    requires
        walk@.contains(d),
    ensures
        (r as int) < walk@.len(),
        walk@[r as int] == d,
{
    let m = walk.len();
    let mut i: usize = 0;
    while i < m
        invariant
            m == walk@.len(),
            i <= m,
            walk@.contains(d),
            forall|j: int| 0 <= j < i ==> walk@[j] != d,
        decreases m - i,
    {
        if walk[i] == d {
            return i;
        }
        i += 1;
    }
    proof {
        let w = choose|w: int| 0 <= w < walk@.len() && walk@[w] == d;
        assert(false);
    }
    0
}

/// Close a dependency walk into a reported cycle: the suffix of `walk` from
/// the first occurrence of `d`, with `d` appended again at the end.
#[verifier::rlimit(80)]
fn close_cycle(walk: &Vec<usize>, d: usize, n: usize, edges: &Vec<(usize, usize)>) -> (cyc: Vec<
    usize,
>)
    requires
        walk@.len() >= 1,
        walk@.contains(d),
        forall|j: int| 0 <= j < walk@.len() ==> ((#[trigger] walk@[j]) as int) < n as int,
        forall|j: int|
            0 <= j < walk@.len() - 1 ==> edges@.contains(((#[trigger] walk@[j]), walk@[j + 1])),
        edges@.contains((walk@[walk@.len() - 1], d)),
    ensures
        cyc@.len() >= 2,
        cyc@[0] == cyc@[cyc@.len() - 1],
        forall|i: int| 0 <= i < cyc@.len() ==> ((#[trigger] cyc@[i]) as int) < n as int,
        forall|i: int|
            0 <= i < cyc@.len() - 1 ==> edges@.contains(((#[trigger] cyc@[i]), cyc@[i + 1])),
{
    let start = find_index(walk, d);
    let mut cyc: Vec<usize> = Vec::new();
    let mut j: usize = start;
    while j < walk.len()
        invariant
            start <= j,
            j <= walk@.len(),
            (start as int) < walk@.len(),
            cyc@ =~= walk@.subrange(start as int, j as int),
        decreases walk@.len() - j,
    {
        let x = walk[j];
        cyc.push(x);
        j += 1;
    }
    cyc.push(d);
    proof {
        let wl = walk@.len() as int;
        let cl = cyc@.len() as int;
        assert(cl == wl - start + 1);
        assert(cyc@[0] == walk@[start as int]);
        assert(cyc@[cl - 1] == d);
        assert forall|i: int| 0 <= i < cl - 1 implies edges@.contains(
            ((#[trigger] cyc@[i]), cyc@[i + 1]),
        ) by {
            assert(cyc@[i] == walk@[start as int + i]);
            if i + 1 < cl - 1 {
                assert(cyc@[i + 1] == walk@[start as int + i + 1]);
            } else {
                assert(start as int + i == wl - 1);
            }
        }
        assert forall|i: int| 0 <= i < cl implies ((#[trigger] cyc@[i]) as int) < n as int by {
            if i < cl - 1 {
                assert(cyc@[i] == walk@[start as int + i]);
            }
        }
    }
    cyc
}

/// Compute the deterministic topological order of the nodes `0..n` under
/// `edges`, or report a cycle: a closed walk (first element repeated at the
/// end) in which each node depends on the next.
#[verifier::rlimit(60)]
pub fn schedule(n: usize, edges: &Vec<(usize, usize)>) -> (r: Result<Vec<usize>, Vec<usize>>)
    requires
        edges_in_range(edges@, n as int),
    ensures
        match r {
            Ok(order) => valid_schedule(order@, n as int, edges@),
            Err(cycle) => {
                &&& cycle@.len() >= 2
                &&& cycle@[0] == cycle@[cycle@.len() - 1]
                &&& forall|i: int| 0 <= i < cycle@.len() ==> ((#[trigger] cycle@[i]) as int) < n as int
                &&& forall|i: int|
                    0 <= i < cycle@.len() - 1 ==> edges@.contains(((#[trigger] cycle@[i]), cycle@[i + 1]))
            },
        },
{
    let mut order: Vec<usize> = Vec::new();
    let mut done: Vec<bool> = vec![false; n];
    proof {
        lemma_count_true_none(done@);
    }
    while order.len() < n
        invariant
            done@.len() == n as int,
            order@.len() <= n as int,
            edges_in_range(edges@, n as int),
            count_true(done@) == order@.len(),
            forall|u: int| 0 <= u < n as int ==> done@[u] == order@.contains(u as usize),
            forall|j: int|
                0 <= j < order@.len() ==> eligible(
                    #[trigger] order@[j],
                    n as int,
                    edges@,
                    order@.take(j),
                ),
            forall|j: int, w: usize|
                0 <= j < order@.len() && eligible(w, n as int, edges@, order@.take(j))
                    ==> order@[j] <= w,
        decreases n - order.len(),
    {
        let picked = find_min_eligible(n, edges, &done);
        match picked {
            Some(v) => {
                let ghost o0 = order@;
                let ghost d0 = done@;
                order.push(v);
                done[v] = true;
                proof {
                    lemma_count_true_update(d0, v as int);
                    // the bitmap still mirrors the order
                    assert forall|u: int| 0 <= u < n as int implies done@[u] == order@.contains(
                        u as usize,
                    ) by {
                        if u == v as int {
                            assert(order@[o0.len() as int] == v);
                            assert(order@.contains(v));
                        } else {
                            assert(done@[u] == d0[u]);
                            if order@.contains(u as usize) {
                                let w = choose|w: int|
                                    0 <= w < order@.len() && order@[w] == u as usize;
                                assert(w < o0.len());
                                assert(o0[w] == u as usize);
                                assert(o0.contains(u as usize));
                            }
                            if o0.contains(u as usize) {
                                let w = choose|w: int| 0 <= w < o0.len() && o0[w] == u as usize;
                                assert(order@[w] == u as usize);
                                assert(order@.contains(u as usize));
                            }
                        }
                    }
                    // eligibility of the new element, and stability of the prefix
                    assert(order@.take(o0.len() as int) =~= o0);
                    assert forall|ee: int|
                        0 <= ee < edges@.len() && (#[trigger] edges@[ee]).0 == v implies o0.contains(
                        edges@[ee].1,
                    ) by {
                        assert(d0[edges@[ee].1 as int]);
                    }
                    assert(!o0.contains(v)) by {
                        assert(!d0[v as int]);
                    }
                    assert(eligible(v, n as int, edges@, o0));
                    assert forall|j: int| 0 <= j < order@.len() implies eligible(
                        #[trigger] order@[j],
                        n as int,
                        edges@,
                        order@.take(j),
                    ) by {
                        if j < o0.len() {
                            assert(order@.take(j) =~= o0.take(j));
                            assert(order@[j] == o0[j]);
                        } else {
                            assert(order@[j] == v);
                            assert(order@.take(j) =~= o0);
                        }
                    }
                    assert forall|j: int, w: usize|
                        0 <= j < order@.len() && eligible(w, n as int, edges@, order@.take(j))
                        implies order@[j] <= w by {
                        if j < o0.len() {
                            assert(order@.take(j) =~= o0.take(j));
                        } else {
                            assert(order@.take(j) =~= o0);
                            // w is eligible after o0, so the scanner saw it
                            if w < v {
                                assert(!bit_eligible(w, n as int, edges@, d0));
                                assert(!d0[w as int]) by {
                                    assert(!o0.contains(w));
                                }
                                let ghost bad = choose|ee: int|
                                    0 <= ee < edges@.len() && (#[trigger] edges@[ee]).0 == w
                                        && !d0[edges@[ee].1 as int];
                                assert(o0.contains(edges@[bad].1));
                                assert(false);
                            }
                        }
                    }
                }
            },
            None => {
                // no node is eligible, yet some node is unscheduled: walk the
                // unsatisfied dependencies until a node repeats
                let v0 = match find_undone(n, &done) {
                    Some(v0) => v0,
                    None => {
                        proof {
                            lemma_count_true_full(done@);
                        }
                        return Err(Vec::new());  // contradicts order.len() < n
                    },
                };
                let mut walk: Vec<usize> = Vec::new();
                let mut on_walk: Vec<bool> = vec![false; n];
                proof {
                    lemma_count_true_none(on_walk@);
                }
                let ghost ow_init = on_walk@;
                walk.push(v0);
                on_walk[v0] = true;
                proof {
                    lemma_count_true_update(ow_init, v0 as int);
                    assert forall|u: int| 0 <= u < n as int implies on_walk@[u] == walk@.contains(
                        u as usize,
                    ) by {
                        if u == v0 as int {
                            assert(walk@[0] == v0);
                        } else if walk@.contains(u as usize) {
                            let w = choose|w: int| 0 <= w < walk@.len() && walk@[w] == u as usize;
                            assert(false);
                        }
                    }
                }
                loop
                    invariant
                        done@.len() == n as int,
                        on_walk@.len() == n as int,
                        edges_in_range(edges@, n as int),
                        walk@.len() >= 1,
                        count_true(on_walk@) == walk@.len(),
                        forall|u: int| 0 <= u < n as int ==> on_walk@[u] == walk@.contains(u as usize),
                        forall|j: int|
                            0 <= j < walk@.len() ==> ((#[trigger] walk@[j]) as int) < n as int
                                && !done@[walk@[j] as int],
                        forall|j: int|
                            0 <= j < walk@.len() - 1 ==> edges@.contains(
                                ((#[trigger] walk@[j]), walk@[j + 1]),
                            ),
                        forall|w: usize| !bit_eligible(w, n as int, edges@, done@),
                    decreases n - walk@.len(),
                {
                    proof {
                        lemma_count_true_bound(on_walk@);
                    }
                    let cur = walk[walk.len() - 1];
                    match find_undone_dep(cur, edges, &done) {
                        Some(d) => {
                            if on_walk[d] {
                                let cyc = close_cycle(&walk, d, n, edges);
                                return Err(cyc);
                            } else {
                                let ghost w0 = walk@;
                                let ghost ow0 = on_walk@;
                                walk.push(d);
                                on_walk[d] = true;
                                proof {
                                    assert(!w0.contains(d)) by {
                                        assert(!ow0[d as int]);
                                    }
                                    lemma_count_true_update(ow0, d as int);
                                    lemma_count_true_bound(on_walk@);
                                    assert forall|u: int| 0 <= u < n as int implies on_walk@[u]
                                        == walk@.contains(u as usize) by {
                                        if u == d as int {
                                            assert(walk@[w0.len() as int] == d);
                                        } else {
                                            if walk@.contains(u as usize) {
                                                let w = choose|w: int|
                                                    0 <= w < walk@.len() && walk@[w] == u as usize;
                                                assert(w < w0.len());
                                                assert(w0.contains(u as usize));
                                            }
                                            if w0.contains(u as usize) {
                                                let w = choose|w: int|
                                                    0 <= w < w0.len() && w0[w] == u as usize;
                                                assert(walk@[w] == u as usize);
                                            }
                                        }
                                    }
                                    assert forall|j: int| 0 <= j < walk@.len() - 1 implies edges@.contains(
                                        ((#[trigger] walk@[j]), walk@[j + 1]),
                                    ) by {
                                        if j < w0.len() - 1 {
                                            assert(walk@[j] == w0[j]);
                                            assert(walk@[j + 1] == w0[j + 1]);
                                        } else {
                                            assert(walk@[j] == cur);
                                            assert(walk@[j + 1] == d);
                                        }
                                    }
                                }
                            }
                        },
                        None => {
                            proof {
                                assert(bit_eligible(cur, n as int, edges@, done@));
                                assert(false);
                            }
                            return Err(Vec::new());  // unreachable: cur would be eligible
                        },
                    }
                }
            },
        }
    }
    proof {
        assert(order@.len() == n as int);
    }
    Ok(order)
}

/// The scheduler's contract admits exactly one order: any two sequences
/// that both satisfy `valid_schedule` for the same graph are equal.  The
/// scheduler is the one stage where several build orders would be
/// admissible, and the tie-break pins it down.
pub proof fn lemma_schedule_unique(o1: Seq<usize>, o2: Seq<usize>, n: int, edges: Seq<(usize, usize)>)
    requires
        valid_schedule(o1, n, edges),
        valid_schedule(o2, n, edges),
    ensures
        o1 == o2,
{
    lemma_schedule_unique_prefix(o1, o2, n, edges, n);
    assert(o1 =~= o1.take(n));
    assert(o2 =~= o2.take(n));
}

proof fn lemma_schedule_unique_prefix(
    o1: Seq<usize>,
    o2: Seq<usize>,
    n: int,
    edges: Seq<(usize, usize)>,
    k: int,
)
    requires
        valid_schedule(o1, n, edges),
        valid_schedule(o2, n, edges),
        0 <= k <= n,
    ensures
        o1.take(k) == o2.take(k),
    decreases k,
{
    if k > 0 {
        lemma_schedule_unique_prefix(o1, o2, n, edges, k - 1);
        assert(eligible(o1[k - 1], n, edges, o1.take(k - 1)));
        assert(eligible(o2[k - 1], n, edges, o2.take(k - 1)));
        assert(eligible(o2[k - 1], n, edges, o1.take(k - 1)));
        assert(eligible(o1[k - 1], n, edges, o2.take(k - 1)));
        assert(o1[k - 1] <= o2[k - 1]);
        assert(o2[k - 1] <= o1[k - 1]);
        assert(o1.take(k) =~= o2.take(k));
    } else {
        assert(o1.take(0) =~= o2.take(0));
    }
}

/// In a valid schedule a dependency always stands strictly before its
/// dependent: if `order[ka]` depends on `order[kb]` then `kb < ka`.
pub proof fn lemma_schedule_respects_edges(
    order: Seq<usize>,
    n: int,
    edges: Seq<(usize, usize)>,
    e: int,
    ka: int,
    kb: int,
)
    requires
        valid_schedule(order, n, edges),
        0 <= e < edges.len(),
        0 <= ka < n,
        0 <= kb < n,
        order[ka] == edges[e].0,
        order[kb] == edges[e].1,
    ensures
        kb < ka,
{
    assert(eligible(order[ka], n, edges, order.take(ka)));
    assert(order.take(ka).contains(edges[e].1));
    let j = choose|j: int| 0 <= j < ka && order.take(ka)[j] == edges[e].1;
    assert(order[j] == edges[e].1);
    if kb == ka {
        // a self-loop: the node would be among its own scheduled dependencies
        assert(!order.take(ka).contains(order[ka]));
        assert(false);
    } else if kb > ka {
        assert(eligible(order[kb], n, edges, order.take(kb)));
        assert(!order.take(kb).contains(order[kb]));
        assert(order.take(kb)[j] == order[j]);
        assert(false);
    }
}

} // verus!
