//! The compilation pipeline: registration, the verify pass in tree order,
//! dependency scheduling, the build pass in scheduler order, and assembly
//! of the program.
//!
//! Compilation succeeds only when no error (recoverable or fatal) was
//! recorded; otherwise all accumulated diagnostics are surfaced together
//! and the partial program is discarded.

use vstd::prelude::*;

use crate::builder::{Builder, Materializer};
use crate::diag::{any_error, spec_any_error, Diagnostic, ErrorDetail, ErrorKind, Severity};
use crate::graph::{
    deps_satisfied, eligible, lemma_schedule_respects_edges, schedule, valid_schedule,
};
use crate::node::Tree;
use crate::os_pt;
use crate::program::{Handle, Program, Stmt};
use crate::registry::{
    attach, node_build_post, node_verify_clean, node_verify_count, node_verify_post, run_build,
    run_verify, spec_args_child_of, spec_is_edge, spec_materializer, structural_edge,
    task_ref_edge,
};

verus! {

/// Every dependency of `v` lies in `done`, over the tree's own dependency
/// relation.
pub open spec fn tree_deps_satisfied(t: Tree, v: usize, done: Seq<usize>) -> bool {
    forall|d: int| #[trigger] spec_is_edge(t, v as int, d) ==> done.contains(d as usize)
}

/// `v` may be built next, after the nodes in `done`.
pub open spec fn tree_eligible(t: Tree, v: usize, done: Seq<usize>) -> bool {
    (v as int) < t.node_count() && !done.contains(v) && tree_deps_satisfied(t, v, done)
}

/// The valid deterministic schedule of the tree's nodes: each position holds
/// the smallest node eligible after the positions before it.  At most one
/// sequence satisfies this for a given tree.
pub open spec fn tree_schedule_valid(t: Tree, order: Seq<usize>) -> bool {
    &&& order.len() == t.node_count()
    &&& forall|k: int|
        0 <= k < order.len() ==> tree_eligible(t, #[trigger] order[k], order.take(k))
    &&& forall|k: int, v: usize|
        0 <= k < order.len() && tree_eligible(t, v, order.take(k)) ==> order[k] <= v
}

/// A closed walk of the dependency relation: each node depends on the next,
/// and the first node is repeated at the end.
pub open spec fn tree_closed_walk(t: Tree, walk: Seq<usize>) -> bool {
    &&& walk.len() >= 2
    &&& walk[0] == walk[walk.len() - 1]
    &&& forall|i: int|
        0 <= i < walk.len() - 1 ==> spec_is_edge(t, (#[trigger] walk[i]) as int, walk[i + 1] as int)
}

/// A fatal cycle report: the dependency relation contains a closed walk,
/// and the diagnostic lists that walk's node paths.
pub open spec fn tree_cycle_diag(t: Tree, d: Diagnostic) -> bool {
    &&& d.severity == Severity::Fatal
    &&& d.kind == ErrorKind::DependencyCycleError
    &&& d.detail matches ErrorDetail::Cycle { paths } && (exists|walk: Seq<usize>|
        {
            &&& #[trigger] tree_closed_walk(t, walk)
            &&& paths@.len() == walk.len()
            &&& forall|i: int|
                0 <= i < walk.len() ==> ((#[trigger] paths@[i])@ == t.spec_full_path(
                    walk[i] as int,
                ))
        })
}

/// The diagnostics of the verify pass over the first `k` nodes: the
/// concatenation, in tree (declaration) order, of exactly what each node's
/// verify handler reports.
pub open spec fn verify_phase_ok(t: Tree, k: int, diags: Seq<Diagnostic>) -> bool
    decreases k,
{
    if k <= 0 {
        diags.len() == 0
    } else {
        exists|dp: int|
            #![trigger diags.take(dp)]
            0 <= dp <= diags.len() && verify_phase_ok(t, k - 1, diags.take(dp))
                && node_verify_post(t, k - 1, diags.skip(dp))
    }
}

/// The outputs of the build pass over the first `k` scheduled nodes:
/// starting from nothing, each node that passed verification appends
/// exactly what its build handler dictates (resolving references against
/// the handles bound so far), and a node that failed verification is
/// skipped without blocking the others.
pub open spec fn build_phase_ok(
    t: Tree,
    order: Seq<usize>,
    k: int,
    stmts: Seq<Stmt>,
    handles: Seq<Handle>,
    diags: Seq<Diagnostic>,
) -> bool
    decreases k,
{
    if k <= 0 {
        stmts.len() == 0 && handles.len() == 0 && diags.len() == 0
    } else {
        exists|sp: int, hp: int, dp: int|
            #![trigger stmts.take(sp), handles.take(hp), diags.take(dp)]
            {
                &&& 0 <= sp <= stmts.len()
                &&& 0 <= hp <= handles.len()
                &&& 0 <= dp <= diags.len()
                &&& build_phase_ok(
                    t,
                    order,
                    k - 1,
                    stmts.take(sp),
                    handles.take(hp),
                    diags.take(dp),
                )
                &&& if node_verify_clean(t, order[k - 1] as int) {
                    node_build_post(
                        t,
                        order[k - 1],
                        handles.take(hp),
                        stmts.skip(sp),
                        handles.skip(hp),
                        diags.skip(dp),
                    )
                } else {
                    sp == stmts.len() && hp == handles.len() && dp == diags.len()
                }
            }
    }
}


/// Extending the verify phase by one node's report.
proof fn lemma_verify_phase_snoc(t: Tree, k: int, diags: Seq<Diagnostic>, dp: int)
    requires
        k >= 1,
        0 <= dp <= diags.len(),
        verify_phase_ok(t, k - 1, diags.take(dp)),
        node_verify_post(t, k - 1, diags.skip(dp)),
    ensures
        verify_phase_ok(t, k, diags),
{
    assert(verify_phase_ok(t, k, diags)) by {
        reveal_with_fuel(verify_phase_ok, 2);
        assert(verify_phase_ok(t, k - 1, diags.take(dp)));
    }
}

/// Extending the build phase by one node's outputs.
proof fn lemma_build_phase_snoc(
    t: Tree,
    order: Seq<usize>,
    k: int,
    stmts: Seq<Stmt>,
    handles: Seq<Handle>,
    diags: Seq<Diagnostic>,
    sp: int,
    hp: int,
    dp: int,
)
    requires
        k >= 1,
        0 <= sp <= stmts.len(),
        0 <= hp <= handles.len(),
        0 <= dp <= diags.len(),
        build_phase_ok(t, order, k - 1, stmts.take(sp), handles.take(hp), diags.take(dp)),
        if node_verify_clean(t, order[k - 1] as int) {
            node_build_post(
                t,
                order[k - 1],
                handles.take(hp),
                stmts.skip(sp),
                handles.skip(hp),
                diags.skip(dp),
            )
        } else {
            sp == stmts.len() && hp == handles.len() && dp == diags.len()
        },
    ensures
        build_phase_ok(t, order, k, stmts, handles, diags),
{
    assert(build_phase_ok(t, order, k, stmts, handles, diags)) by {
        reveal_with_fuel(build_phase_ok, 2);
        assert(build_phase_ok(t, order, k - 1, stmts.take(sp), handles.take(hp), diags.take(dp)));
    }
}

/// The tree admits at most one valid schedule: the order `spec_compiled`
/// speaks of is pinned, so the statements of two compilations of one tree
/// are concatenated along one and the same order.
pub proof fn lemma_tree_schedule_unique(t: Tree, o1: Seq<usize>, o2: Seq<usize>)
    requires
        tree_schedule_valid(t, o1),
        tree_schedule_valid(t, o2),
    ensures
        o1 == o2,
{
    lemma_tree_schedule_unique_prefix(t, o1, o2, t.node_count());
    assert(o1 =~= o1.take(t.node_count()));
    assert(o2 =~= o2.take(t.node_count()));
}

proof fn lemma_tree_schedule_unique_prefix(t: Tree, o1: Seq<usize>, o2: Seq<usize>, k: int)
    requires
        tree_schedule_valid(t, o1),
        tree_schedule_valid(t, o2),
        0 <= k <= t.node_count(),
    ensures
        o1.take(k) == o2.take(k),
    decreases k,
{
    if k > 0 {
        lemma_tree_schedule_unique_prefix(t, o1, o2, k - 1);
        assert(tree_eligible(t, o1[k - 1], o1.take(k - 1)));
        assert(tree_eligible(t, o2[k - 1], o2.take(k - 1)));
        assert(tree_eligible(t, o2[k - 1], o1.take(k - 1)));
        assert(tree_eligible(t, o1[k - 1], o2.take(k - 1)));
        assert(o1[k - 1] <= o2[k - 1]);
        assert(o2[k - 1] <= o1[k - 1]);
        assert(o1.take(k) =~= o2.take(k));
    } else {
        assert(o1.take(0) =~= o2.take(0));
    }
}

/// A successful compilation's outputs are pinned: some (unique) valid
/// schedule exists, and the statements and handles are exactly the
/// concatenation, in that order, of what each node's build dictates, with
/// no diagnostic anywhere.
pub open spec fn spec_compiled(t: Tree, stmts: Seq<Stmt>, handles: Seq<Handle>) -> bool {
    exists|order: Seq<usize>|
        tree_schedule_valid(t, order) && #[trigger] build_phase_ok(
            t,
            order,
            t.node_count(),
            stmts,
            handles,
            Seq::<Diagnostic>::empty(),
        )
}

/// A failed compilation's diagnostics are pinned: first the verify pass's
/// reports in tree order (non-empty exactly when some node fails
/// verification), then either the fatal cycle report - the dependency
/// relation really contains a closed walk - or the build pass's reports.
pub open spec fn spec_failed(t: Tree, ds: Seq<Diagnostic>) -> bool {
    exists|m: int|
        {
            &&& 0 <= m <= ds.len()
            &&& #[trigger] verify_phase_ok(t, t.node_count(), ds.take(m))
            &&& (m > 0 <==> exists|v: int|
                0 <= v < t.node_count() && !(#[trigger] node_verify_clean(t, v)))
            &&& ({
                ||| (ds.len() == m + 1 && tree_cycle_diag(t, ds[m]))
                ||| (exists|order: Seq<usize>, stmts: Seq<Stmt>, handles: Seq<Handle>|
                    tree_schedule_valid(t, order) && #[trigger] build_phase_ok(
                        t,
                        order,
                        t.node_count(),
                        stmts,
                        handles,
                        ds.skip(m),
                    ))
            })
        }
}

/// Packaging the failure shape after a scheduling cycle.
proof fn lemma_err_cycle(t: Tree, ds: Seq<Diagnostic>, m: int)
    requires
        0 <= m,
        ds.len() == m + 1,
        verify_phase_ok(t, t.node_count(), ds.take(m)),
        m > 0 <==> exists|v: int| 0 <= v < t.node_count() && !(#[trigger] node_verify_clean(t, v)),
        tree_cycle_diag(t, ds[m]),
        ds[m].is_error(),
    ensures
        ds.len() > 0,
        spec_any_error(ds),
        spec_failed(t, ds),
{
    assert(ds[m].is_error());
    assert(spec_any_error(ds));
}

/// Packaging the failure shape after a completed build pass.
proof fn lemma_err_build(
    t: Tree,
    ds: Seq<Diagnostic>,
    m: int,
    order: Seq<usize>,
    stmts: Seq<Stmt>,
    handles: Seq<Handle>,
)
    requires
        0 <= m <= ds.len(),
        verify_phase_ok(t, t.node_count(), ds.take(m)),
        m > 0 <==> exists|v: int| 0 <= v < t.node_count() && !(#[trigger] node_verify_clean(t, v)),
        tree_schedule_valid(t, order),
        build_phase_ok(t, order, t.node_count(), stmts, handles, ds.skip(m)),
        spec_any_error(ds),
    ensures
        spec_any_error(ds),
        ds.len() > 0,
        spec_failed(t, ds),
{
    let w = choose|i: int| 0 <= i < ds.len() && ds[i].is_error();
    assert(ds.len() > 0);
}


/// Packaging the success shape.
proof fn lemma_ok_shape(t: Tree, order: Seq<usize>, stmts: Seq<Stmt>, handles: Seq<Handle>)
    requires
        tree_schedule_valid(t, order),
        build_phase_ok(t, order, t.node_count(), stmts, handles, Seq::<Diagnostic>::empty()),
    ensures
        spec_compiled(t, stmts, handles),
{
}

/// The two schedule statements agree: `valid_schedule` over any edge list
/// whose membership is the tree's dependency relation says the same as
/// `tree_schedule_valid`.
proof fn lemma_schedule_forms_agree(t: Tree, edges: Seq<(usize, usize)>, order: Seq<usize>)
    requires
        t.node_count() <= usize::MAX as int,
        forall|a: usize, d: usize|
            #[trigger] edges.contains((a, d)) <==> spec_is_edge(t, a as int, d as int),
    ensures
        valid_schedule(order, t.node_count(), edges) <==> tree_schedule_valid(t, order),
{
    assert forall|v: usize, k: int|
        #![trigger eligible(v, t.node_count(), edges, order.take(k))]
        #![trigger tree_eligible(t, v, order.take(k))]
        0 <= k <= order.len() implies (eligible(v, t.node_count(), edges, order.take(k))
        <==> tree_eligible(t, v, order.take(k))) by {
        let done = order.take(k);
        if deps_satisfied(v, edges, done) {
            assert forall|d: int| #[trigger] spec_is_edge(t, v as int, d) implies done.contains(
                d as usize,
            ) by {
                assert(0 <= d < t.node_count());
                assert((d as usize) as int == d);
                assert(edges.contains((v, d as usize)));
                let e = choose|e: int| 0 <= e < edges.len() && edges[e] == (v, d as usize);
                assert(done.contains(edges[e].1));
            }
        }
        if tree_deps_satisfied(t, v, done) {
            assert forall|e: int|
                0 <= e < edges.len() && (#[trigger] edges[e]).0 == v implies done.contains(
                edges[e].1,
            ) by {
                assert(edges[e] == (v, edges[e].1));
                assert(edges.contains((v, edges[e].1)));
                assert(spec_is_edge(t, v as int, edges[e].1 as int));
            }
        }
    }
}

/// The build pass and final assembly, run once scheduling succeeded.
#[verifier::rlimit(100)]
fn finish_build(t: &Tree, b: Builder, ok: Vec<bool>, order: Vec<usize>) -> (r: Result<
    Program,
    Vec<Diagnostic>,
>)
    requires
        t.wf(),
        b.wf(t.node_count()),
        valid_schedule(order@, t.node_count(), b.edges@),
        forall|u: int| 0 <= u < t.node_count() ==> b.materializers@[u] == spec_materializer(*t, u),
        ok@.len() == t.node_count(),
        forall|u: int| 0 <= u < t.node_count() ==> ok@[u] == node_verify_clean(*t, u),
        forall|a: usize, d: usize|
            #[trigger] b.edges@.contains((a, d)) <==> spec_is_edge(*t, a as int, d as int),
        b.stmts@.len() == 0,
        b.handles@.len() == 0,
        verify_phase_ok(*t, t.node_count(), b.diags@),
        (exists|u: int| 0 <= u < t.node_count() && !(#[trigger] node_verify_clean(*t, u)))
            <==> b.diags@.len() > 0,
        forall|i: int| 0 <= i < b.diags@.len() ==> (#[trigger] b.diags@[i]).is_error(),
    ensures
        match r {
            Ok(p) => {
                &&& forall|v: int| 0 <= v < t.node_count() ==> node_verify_clean(*t, v)
                &&& spec_compiled(*t, p.stmts@, p.handles@)
                &&& forall|i: int, j: int|
                    0 <= i < p.stmts@.len() && 0 <= j < p.stmts@.len() && #[trigger] spec_is_edge(
                        *t,
                        p.stmts@[i].node as int,
                        p.stmts@[j].node as int,
                    ) ==> j < i
            },
            Err(ds) => {
                &&& ds@.len() > 0
                &&& spec_any_error(ds@)
                &&& spec_failed(*t, ds@)
            },
        },
{
    let n = t.nodes.len();
    let mut b = b;
    let ghost dvs = b.diags@;

            // build pass, in scheduler order
            let ghost edges_v = b.edges@;
            let ghost dv = b.diags@.len();
            let mut k: usize = 0;
            proof {
                assert(b.diags@.skip(dv as int) =~= Seq::<Diagnostic>::empty());
            }
            while k < n
                invariant
                    t.wf(),
                    b.wf(t.node_count()),
                    n == t.node_count(),
                    k <= n,
                    order@.len() == n,
                    valid_schedule(order@, n as int, edges_v),
                    b.edges@ == edges_v,
                    forall|u: int| 0 <= u < n ==> b.materializers@[u] == spec_materializer(*t, u),
                    ok@.len() == n,
                    forall|u: int| 0 <= u < n ==> ok@[u] == node_verify_clean(*t, u),
                    forall|a: usize, d: usize|
                        #[trigger] b.edges@.contains((a, d)) <==> spec_is_edge(
                            *t,
                            a as int,
                            d as int,
                        ),
                    b.diags@.len() >= dv,
                    dvs.len() == dv,
                    b.diags@.take(dv as int) == dvs,
                    verify_phase_ok(*t, n as int, dvs),
                    (exists|u: int| 0 <= u < n && !(#[trigger] node_verify_clean(*t, u))) <==> dv
                        > 0,
                    forall|i: int| 0 <= i < b.diags@.len() ==> (#[trigger] b.diags@[i]).is_error(),
                    build_phase_ok(
                        *t,
                        order@,
                        k as int,
                        b.stmts@,
                        b.handles@,
                        b.diags@.skip(dv as int),
                    ),
                    forall|i: int|
                        0 <= i < b.stmts@.len() ==> exists|kk: int|
                            0 <= kk < k && order@[kk] == (#[trigger] b.stmts@[i]).node,
                    forall|i: int, j: int|
                        0 <= i < b.stmts@.len() && 0 <= j < b.stmts@.len() && #[trigger] spec_is_edge(
                            *t,
                            b.stmts@[i].node as int,
                            b.stmts@[j].node as int,
                        ) ==> j < i,
                decreases n - k,
            {
                proof {
                    assert(eligible(order@[k as int], n as int, edges_v, order@.take(k as int)));
                }
                let vv = order[k];
                let ghost s_pre = b.stmts@;
                let ghost h_pre = b.handles@;
                let ghost d_pre = b.diags@;
                if ok[vv] {
                    run_build(t, vv, &mut b);
                    proof {
                        assert forall|i: int|
                            0 <= i < b.diags@.len() implies (#[trigger] b.diags@[i]).is_error() by {
                            if i < d_pre.len() {
                                assert(b.diags@[i] == d_pre[i]);
                            }
                        }
                        assert(b.diags@.take(dv as int) =~= dvs);
                        assert forall|i: int|
                            0 <= i < b.stmts@.len() implies exists|kk: int|
                            0 <= kk < k + 1 && order@[kk] == (#[trigger] b.stmts@[i]).node by {
                            if i < s_pre.len() {
                                assert(b.stmts@[i] == s_pre[i]);
                                let kk = choose|kk: int|
                                    0 <= kk < k && order@[kk] == s_pre[i].node;
                                assert(order@[kk] == b.stmts@[i].node);
                            } else {
                                assert(b.stmts@[i].node == vv);
                                assert(order@[k as int] == vv);
                            }
                        }
                        assert forall|i: int, j: int|
                            0 <= i < b.stmts@.len() && 0 <= j < b.stmts@.len()
                                && #[trigger] spec_is_edge(
                                *t,
                                b.stmts@[i].node as int,
                                b.stmts@[j].node as int,
                            ) implies j < i by {
                            if i < s_pre.len() {
                                assert(b.stmts@[i] == s_pre[i]);
                            }
                            if j < s_pre.len() {
                                assert(b.stmts@[j] == s_pre[j]);
                            }
                            if i < s_pre.len() && j < s_pre.len() {
                                // both old: the loop invariant applies
                                assert(spec_is_edge(
                                    *t,
                                    s_pre[i].node as int,
                                    s_pre[j].node as int,
                                ));
                            } else if j < s_pre.len() {
                                // new dependent, old dependency: indices already ordered
                                assert(j < i);
                            } else {
                                // the dependency is a fresh statement of vv: it would have
                                // to be scheduled before a node already built
                                let a_node = b.stmts@[i].node;
                                let d_node = b.stmts@[j].node;
                                assert(d_node == vv);
                                assert(b.edges@.contains((a_node, d_node)));
                                let e = choose|e: int|
                                    0 <= e < b.edges@.len() && b.edges@[e] == (a_node, d_node);
                                if i < s_pre.len() {
                                    let ka = choose|ka: int|
                                        0 <= ka < k && order@[ka] == s_pre[i].node;
                                    lemma_schedule_respects_edges(
                                        order@,
                                        n as int,
                                        edges_v,
                                        e,
                                        ka,
                                        k as int,
                                    );
                                    assert(false);
                                } else {
                                    assert(a_node == vv);
                                    lemma_schedule_respects_edges(
                                        order@,
                                        n as int,
                                        edges_v,
                                        e,
                                        k as int,
                                        k as int,
                                    );
                                    assert(false);
                                }
                            }
                        }
                        // the phase outputs extend by exactly this node's build
                        let sp = s_pre.len() as int;
                        let hp = h_pre.len() as int;
                        let dp = d_pre.len() - dv;
                        assert(b.stmts@.take(sp) =~= s_pre);
                        assert(b.handles@.take(hp) =~= h_pre);
                        assert(b.diags@.take(d_pre.len() as int) =~= d_pre);
                        assert(b.diags@.take(dv as int) =~= dvs);
                        assert(b.diags@.skip(dv as int).take(dp as int) =~= d_pre.skip(dv as int));
                        assert(b.diags@.skip(dv as int).skip(dp as int) =~= b.diags@.skip(
                            d_pre.len() as int,
                        ));
                        assert(node_verify_clean(*t, order@[k as int] as int));
                        lemma_build_phase_snoc(
                            *t,
                            order@,
                            k as int + 1,
                            b.stmts@,
                            b.handles@,
                            b.diags@.skip(dv as int),
                            sp,
                            hp,
                            dp as int,
                        );
                    }
                } else {
                    proof {
                        let sp = b.stmts@.len() as int;
                        let hp = b.handles@.len() as int;
                        let dp = b.diags@.skip(dv as int).len() as int;
                        assert(b.stmts@.take(sp) =~= b.stmts@);
                        assert(b.handles@.take(hp) =~= b.handles@);
                        assert(b.diags@.skip(dv as int).take(dp) =~= b.diags@.skip(dv as int));
                        assert(!node_verify_clean(*t, order@[k as int] as int));
                        lemma_build_phase_snoc(
                            *t,
                            order@,
                            k as int + 1,
                            b.stmts@,
                            b.handles@,
                            b.diags@.skip(dv as int),
                            sp,
                            hp,
                            dp,
                        );
                    }
                }
                k += 1;
            }
            proof {
                lemma_schedule_forms_agree(*t, edges_v, order@);
                assert(tree_schedule_valid(*t, order@));
            }
            if any_error(&b.diags) {
                proof {
                    let m = dv as int;
                    assert(b.diags@.take(m) == dvs);
                    lemma_err_build(*t, b.diags@, m, order@, b.stmts@, b.handles@);
                }
                Err(b.diags)
            } else {
                let p = Program { stmts: b.stmts, handles: b.handles };
                proof {
                    // nothing was reported, so every node verified cleanly and
                    // the build ran without a conflict
                    assert(b.diags@.len() == 0) by {
                        if b.diags@.len() > 0 {
                            assert(b.diags@[0].is_error());
                            assert(spec_any_error(b.diags@));
                        }
                    }
                    assert forall|u: int| 0 <= u < t.node_count() implies node_verify_clean(
                        *t,
                        u,
                    ) by {
                        if !node_verify_clean(*t, u) {
                            assert(dv > 0);
                        }
                    }
                    assert(b.diags@.skip(dv as int) =~= Seq::<Diagnostic>::empty());
                    assert(build_phase_ok(
                        *t,
                        order@,
                        t.node_count(),
                        p.stmts@,
                        p.handles@,
                        Seq::<Diagnostic>::empty(),
                    ));
                    lemma_ok_shape(*t, order@, p.stmts@, p.handles@);
                }
                Ok(p)
            }
}

/// Compile a hardware description tree into a program.
///
/// Success is owed exactly on a flawless tree: every node passes
/// verification, the declared dependencies admit a (unique) build order,
/// and the build pass binds every reference and handle without conflict.
/// The returned program is pinned: its statements and handles are exactly
/// what the build handlers dictate, concatenated in schedule order, and the
/// statement order respects every dependency edge.  On failure the
/// accumulated diagnostics are returned - the verify pass's reports in tree
/// order, followed either by the fatal cycle report or by the build pass's
/// reports - and the partial program is discarded.
#[verifier::rlimit(100)]
pub fn compile(t: &Tree) -> (r: Result<Program, Vec<Diagnostic>>)
    requires
        t.wf(),
    ensures
        match r {
            Ok(p) => {
                &&& forall|v: int| 0 <= v < t.node_count() ==> node_verify_clean(*t, v)
                &&& spec_compiled(*t, p.stmts@, p.handles@)
                &&& forall|i: int, j: int|
                    0 <= i < p.stmts@.len() && 0 <= j < p.stmts@.len() && #[trigger] spec_is_edge(
                        *t,
                        p.stmts@[i].node as int,
                        p.stmts@[j].node as int,
                    ) ==> j < i
            },
            Err(ds) => {
                &&& ds@.len() > 0
                &&& spec_any_error(ds@)
                &&& spec_failed(*t, ds@)
            },
        },
{
    let n = t.nodes.len();
    let mut b = Builder::new(n);
    attach(t, &mut b);
    // verify pass, in tree (declaration) order
    let mut ok: Vec<bool> = Vec::new();
    let mut v: usize = 0;
    while v < n
        invariant
            t.wf(),
            b.wf(t.node_count()),
            n == t.node_count(),
            v <= n,
            forall|u: int| 0 <= u < n ==> b.materializers@[u] == spec_materializer(*t, u),
            ok@.len() == v,
            forall|u: int| 0 <= u < v ==> ok@[u] == node_verify_clean(*t, u),
            forall|a: usize, d: usize|
                #[trigger] b.edges@.contains((a, d)) <==> (structural_edge(*t, a as int, d as int)
                    || (task_ref_edge(*t, a as int, d as int) && (a as int) < v)),
            b.stmts@.len() == 0,
            b.handles@.len() == 0,
            verify_phase_ok(*t, v as int, b.diags@),
            (exists|u: int| 0 <= u < v && !(#[trigger] node_verify_clean(*t, u)))
                <==> b.diags@.len() > 0,
            forall|i: int| 0 <= i < b.diags@.len() ==> (#[trigger] b.diags@[i]).is_error(),
        decreases n - v,
    {
        let ghost e_pre = b.edges@;
        let ghost d_pre = b.diags@;
        let before = b.diags.len();
        run_verify(t, v, &mut b);
        let now = b.diags.len();
        ok.push(now == before);
        proof {
            // the verify-pass diagnostics extend by exactly this node's report
            assert(b.diags@.take(d_pre.len() as int) =~= d_pre);
            lemma_verify_phase_snoc(*t, v as int + 1, b.diags@, d_pre.len() as int);
            if node_verify_count(*t, v as int) == 0 {
                assert(b.diags@ =~= d_pre);
            }
            assert forall|i: int| 0 <= i < b.diags@.len() implies (#[trigger] b.diags@[i]).is_error() by {
                if i < d_pre.len() {
                    assert(b.diags@[i] == d_pre[i]);
                }
            }
            assert((exists|u: int| 0 <= u < v + 1 && !(#[trigger] node_verify_clean(*t, u)))
                <==> b.diags@.len() > 0) by {
                if exists|u: int| 0 <= u < v + 1 && !(#[trigger] node_verify_clean(*t, u)) {
                    let u = choose|u: int|
                        0 <= u < v + 1 && !(#[trigger] node_verify_clean(*t, u));
                    if u < v {
                        assert(d_pre.len() > 0);
                    }
                }
                if b.diags@.len() > 0 {
                    if d_pre.len() == 0 {
                        assert(!node_verify_clean(*t, v as int));
                    }
                }
            }
            // the dependency edges now also carry this node's references
            assert forall|a: usize, d: usize| #[trigger] b.edges@.contains((a, d)) implies (
            structural_edge(*t, a as int, d as int) || (task_ref_edge(*t, a as int, d as int) && (
            a as int) < v + 1)) by {
                let idx = choose|idx: int| 0 <= idx < b.edges@.len() && b.edges@[idx] == (a, d);
                if idx < e_pre.len() {
                    assert(e_pre[idx] == (a, d));
                    assert(e_pre.contains((a, d)));
                } else {
                    assert(spec_materializer(*t, v as int) == Some(Materializer::Task));
                    let added = b.edges@.skip(e_pre.len() as int);
                    let c = spec_args_child_of(*t, v as int)->0;
                    let k = idx - e_pre.len();
                    assert(added[k] == (a, d));
                    os_pt::lemma_edge_count_index(*t, c, t.nodes@[c].attrs@.len() as int, k);
                    let j = choose|j: int|
                        0 <= j < t.nodes@[c].attrs@.len() && #[trigger] os_pt::task_attr_edge(
                            *t,
                            c,
                            j,
                        ) && os_pt::task_edge_count(*t, c, j) == k;
                    assert(added[os_pt::task_edge_count(*t, c, j)].0 == v);
                    t.lemma_find_named_range(0, t.nodes@[c].attrs@[j].1->Ref_0@);
                    assert(task_ref_edge(*t, a as int, d as int));
                }
            }
            assert forall|a: usize, d: usize|
                structural_edge(*t, a as int, d as int) || (task_ref_edge(*t, a as int, d as int)
                    && (a as int) < v + 1) implies #[trigger] b.edges@.contains((a, d)) by {
                if structural_edge(*t, a as int, d as int) || (task_ref_edge(
                    *t,
                    a as int,
                    d as int,
                ) && (a as int) < v) {
                    assert(e_pre.contains((a, d)));
                    let idx = choose|idx: int| 0 <= idx < e_pre.len() && e_pre[idx] == (a, d);
                    assert(b.edges@[idx] == (a, d));
                } else if task_ref_edge(*t, a as int, d as int) && a as int == v as int {
                    assert(spec_materializer(*t, v as int) == Some(Materializer::Task));
                    let c = spec_args_child_of(*t, v as int)->0;
                    let added = b.edges@.skip(e_pre.len() as int);
                    let j = choose|j: int|
                        0 <= j < t.nodes@[c].attrs@.len() && ((#[trigger] t.nodes@[c].attrs@[j]).1
                            matches crate::node::AttrValue::Ref(nm) && os_pt::spec_find_named(
                            *t,
                            nm@,
                        ) == Some(d as int));
                    assert(os_pt::task_attr_edge(*t, c, j));
                    os_pt::lemma_edge_count_mono(*t, c, j + 1, t.nodes@[c].attrs@.len() as int);
                    os_pt::lemma_edge_count_mono(*t, c, 0, j);
                    let k = os_pt::task_edge_count(*t, c, j);
                    assert(added[k].0 == v);
                    assert(Some(added[k].1 as int) == os_pt::spec_find_named(
                        *t,
                        t.nodes@[c].attrs@[j].1->Ref_0@,
                    ));
                    assert(added[k].1 == d);
                    assert(b.edges@[e_pre.len() + k] == (a, d));
                }
            }
        }
        v += 1;
    }
    let ghost dvs = b.diags@;
    // dependency scheduling
    match schedule(n, &b.edges) {
        Err(cycle) => {
            // fatal: report the full cycle as a walk of node paths
            let mut paths: Vec<String> = Vec::new();
            let mut ci: usize = 0;
            while ci < cycle.len()
                invariant
                    t.wf(),
                    n == t.node_count(),
                    ci <= cycle@.len(),
                    paths@.len() == ci,
                    forall|x: int|
                        0 <= x < cycle@.len() ==> ((#[trigger] cycle@[x]) as int) < n as int,
                    forall|x: int|
                        0 <= x < ci ==> ((#[trigger] paths@[x])@ == t.spec_full_path(
                            cycle@[x] as int,
                        )),
                decreases cycle@.len() - ci,
            {
                let p = t.full_path(cycle[ci]);
                paths.push(p);
                ci += 1;
            }
            let head = t.full_path(cycle[0]);
            let d = Diagnostic {
                severity: Severity::Fatal,
                kind: ErrorKind::DependencyCycleError,
                path: head,
                detail: ErrorDetail::Cycle { paths },
            };
            b.report(d);
            proof {
                let m = dvs.len() as int;
                assert(b.diags@[b.diags@.len() - 1].is_error());
                assert(b.diags@.take(m) =~= dvs);
                // the reported walk really is a cycle of the tree's dependencies
                assert forall|i: int| 0 <= i < cycle@.len() - 1 implies spec_is_edge(
                    *t,
                    (#[trigger] cycle@[i]) as int,
                    cycle@[i + 1] as int,
                ) by {
                    assert(b.edges@.contains((cycle@[i], cycle@[i + 1])));
                }
                assert(tree_closed_walk(*t, cycle@));
                assert(tree_cycle_diag(*t, b.diags@[m]));
                assert(verify_phase_ok(*t, t.node_count(), b.diags@.take(m)));
                lemma_err_cycle(*t, b.diags@, m);
            }
            Err(b.diags)
        },
        Ok(order) => finish_build(t, b, ok, order),
    }
}

} // verus!
