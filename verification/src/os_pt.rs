//! Platform-tree driver for application tasks
//! (`os { single_task { loop = "run"; args { x = &p; } } }`).
//!
//! A task names its entry routine in the `loop` attribute and lists the
//! handles it consumes in its `args` block.  Each `&name` reference is
//! resolved at build time against the handles produced by other nodes.  An
//! argument with a fresh name binds an alias handle under that name; one
//! that names its referent consumes the handle as it stands.

use vstd::prelude::*;

use crate::builder::Builder;
use crate::diag::{
    is_duplicate_handle, is_missing_attr, is_unresolved_ref, is_wrong_attr_type, Diagnostic,
    ErrorDetail, ErrorKind, Severity,
};
use crate::node::{AttrValue, Tree};
use crate::program::{spec_find_handle, find_handle, Handle, HandleType, Stmt, StmtKind};

verus! {

/// First child of `v` whose path is `args`, scanning children from slot `k`.
pub open spec fn spec_args_child_from(t: Tree, v: int, k: int) -> Option<int>
    decreases t.nodes@[v].children@.len() - k,
{
    if k < 0 || k >= t.nodes@[v].children@.len() {
        None
    } else if t.nodes@[(t.nodes@[v].children@[k]) as int].path@ == "args"@ {
        Some(t.nodes@[v].children@[k] as int)
    } else {
        spec_args_child_from(t, v, k + 1)
    }
}

/// The task's `args` block, if it has one.
pub open spec fn spec_args_child(t: Tree, v: int) -> Option<int> {
    spec_args_child_from(t, v, 0)
}

proof fn lemma_args_child_hit(t: Tree, v: int, k: int, i: int)
    requires
        0 <= k <= i < t.nodes@[v].children@.len(),
        forall|j: int|
            k <= j < i ==> t.nodes@[(#[trigger] t.nodes@[v].children@[j]) as int].path@ != "args"@,
        t.nodes@[(t.nodes@[v].children@[i]) as int].path@ == "args"@,
    ensures
        spec_args_child_from(t, v, k) == Some(t.nodes@[v].children@[i] as int),
    decreases i - k,
{
    if k < i {
        lemma_args_child_hit(t, v, k + 1, i);
    }
}

proof fn lemma_args_child_miss(t: Tree, v: int, k: int)
    requires
        0 <= k,
        forall|j: int|
            k <= j < t.nodes@[v].children@.len() ==> t.nodes@[(#[trigger] t.nodes@[v].children@[j]) as int].path@ != "args"@,
    ensures
        spec_args_child_from(t, v, k) is None,
    decreases t.nodes@[v].children@.len() - k,
{
    if k < t.nodes@[v].children@.len() {
        lemma_args_child_miss(t, v, k + 1);
    }
}

/// Find the task's `args` block.
pub fn find_args_child(t: &Tree, v: usize) -> (r: Option<usize>)
    requires
        t.wf(),
        t.valid(v as int),
    ensures
        match r {
            Some(c) => spec_args_child(*t, v as int) == Some(c as int) && t.valid(c as int),
            None => spec_args_child(*t, v as int) is None,
        },
{
    let cs_len = t.nodes[v].children.len();
    let mut k: usize = 0;
    while k < cs_len
        invariant
            t.wf(),
            t.valid(v as int),
            cs_len == t.nodes@[v as int].children@.len(),
            k <= cs_len,
            forall|j: int|
                0 <= j < k ==> t.nodes@[(#[trigger] t.nodes@[v as int].children@[j]) as int].path@
                    != "args"@,
        decreases cs_len - k,
    {
        proof {
            assert(t.wf_child_links(v as int));
        }
        let c = t.nodes[v].children[k];
        if t.nodes[c].path == "args".to_owned() {
            proof {
                lemma_args_child_hit(*t, v as int, 0, k as int);
            }
            return Some(c);
        }
        k += 1;
    }
    proof {
        lemma_args_child_miss(*t, v as int, 0);
    }
    None
}

// ---- task verification ----

pub open spec fn task_loop_count(t: Tree, v: int) -> int {
    match t.spec_attr(v, "loop"@) {
        None => 1,
        Some(AttrValue::Str(_)) => 0,
        Some(_) => 1,
    }
}

/// The task node passes verification: it has a string `loop` attribute.
pub open spec fn task_verify_clean(t: Tree, v: int) -> bool {
    task_loop_count(t, v) == 0
}

/// Exactly the diagnostics task verification reports.
pub open spec fn task_verify_post(t: Tree, v: int, added: Seq<Diagnostic>) -> bool {
    let path = t.spec_full_path(v);
    &&& added.len() == task_loop_count(t, v)
    &&& task_loop_count(t, v) == 1 ==> match t.spec_attr(v, "loop"@) {
        None => is_missing_attr(added[0], path, "loop"@),
        Some(_) => is_wrong_attr_type(added[0], path, "loop"@),
    }
}

/// Argument `j` of the `args` block `c` is a reference to a node that
/// exists in the tree; verification declares a dependency edge for it.
pub open spec fn task_attr_edge(t: Tree, c: int, j: int) -> bool {
    t.nodes@[c].attrs@[j].1 matches AttrValue::Ref(nm) && spec_find_named(t, nm@) is Some
}

/// How many of the first `j` arguments declare an edge.
pub open spec fn task_edge_count(t: Tree, c: int, j: int) -> int
    decreases j,
{
    if j <= 0 {
        0
    } else {
        task_edge_count(t, c, j - 1) + if task_attr_edge(t, c, j - 1) {
            1int
        } else {
            0int
        }
    }
}

/// Every position below the edge count is hit by some argument's edge.
pub proof fn lemma_edge_count_index(t: Tree, c: int, j2: int, k: int)
    requires
        0 <= j2,
        0 <= k < task_edge_count(t, c, j2),
    ensures
        exists|j: int|
            0 <= j < j2 && #[trigger] task_attr_edge(t, c, j) && task_edge_count(t, c, j) == k,
    decreases j2,
{
    if j2 > 0 {
        lemma_edge_count_mono(t, c, 0, j2 - 1);
        if k < task_edge_count(t, c, j2 - 1) {
            lemma_edge_count_index(t, c, j2 - 1, k);
        } else {
            assert(task_attr_edge(t, c, j2 - 1));
            assert(task_edge_count(t, c, j2 - 1) == k);
        }
    }
}

/// `spec_find_named` on the whole tree, exposed here so the contracts can
/// name a reference's target.
pub open spec fn spec_find_named(t: Tree, name: Seq<char>) -> Option<int> {
    t.spec_find_named(name)
}

/// Exactly the dependency edges task verification declares: one per
/// argument whose reference names an existing node, in argument order.
pub open spec fn task_edges_post(t: Tree, v: usize, added: Seq<(usize, usize)>) -> bool {
    match spec_args_child(t, v as int) {
        None => added.len() == 0,
        Some(c) => {
            let al = t.nodes@[c].attrs@.len() as int;
            &&& added.len() == task_edge_count(t, c, al)
            &&& forall|j: int|
                0 <= j < al && #[trigger] task_attr_edge(t, c, j) ==> {
                    &&& added[task_edge_count(t, c, j)].0 == v
                    &&& t.nodes@[c].attrs@[j].1 matches AttrValue::Ref(nm) && Some(
                        added[task_edge_count(t, c, j)].1 as int,
                    ) == spec_find_named(t, nm@)
                }
        },
    }
}

/// Verify handler for one task node: check the `loop` attribute and declare
/// a dependency on every node the task's `args` block references.
pub fn verify_task(t: &Tree, v: usize, b: &mut Builder)
    requires
        t.wf(),
        t.valid(v as int),
        old(b).wf(t.node_count()),
    ensures
        final(b).wf(t.node_count()),
        final(b).diags@.len() >= old(b).diags@.len(),
        final(b).diags@.take(old(b).diags@.len() as int) == old(b).diags@,
        task_verify_post(*t, v as int, final(b).diags@.skip(old(b).diags@.len() as int)),
        forall|i: int|
            old(b).diags@.len() <= i < final(b).diags@.len()
                ==> (#[trigger] final(b).diags@[i]).is_error(),
        final(b).edges@.len() >= old(b).edges@.len(),
        final(b).edges@.take(old(b).edges@.len() as int) == old(b).edges@,
        task_edges_post(*t, v, final(b).edges@.skip(old(b).edges@.len() as int)),
        final(b).materializers == old(b).materializers,
        final(b).stmts == old(b).stmts,
        final(b).handles == old(b).handles,
        final(b).resolved == old(b).resolved,
{
    let ghost d0 = b.diags@;
    let ghost e0 = b.edges@;
    let loop_key = "loop".to_owned();
    match t.attr_index(v, &loop_key) {
        None => {
            let d = Diagnostic {
                severity: Severity::Recoverable,
                kind: ErrorKind::StructuralError,
                path: t.full_path(v),
                detail: ErrorDetail::MissingAttr { key: loop_key },
            };
            b.report(d);
        },
        Some(k) => match &t.nodes[v].attrs[k].1 {
            AttrValue::Str(_) => {},
            _ => {
                let d = Diagnostic {
                    severity: Severity::Recoverable,
                    kind: ErrorKind::TypeMismatchError,
                    path: t.full_path(v),
                    detail: ErrorDetail::WrongAttrType { key: loop_key },
                };
                b.report(d);
            },
        },
    }
    match find_args_child(t, v) {
        None => {},
        Some(c) => {
            let al = t.nodes[c].attrs.len();
            let mut j: usize = 0;
            while j < al
                invariant
                    t.wf(),
                    t.valid(v as int),
                    t.valid(c as int),
                    b.wf(t.node_count()),
                    al == t.nodes@[c as int].attrs@.len(),
                    j <= al,
                    b.edges@.len() == e0.len() + task_edge_count(*t, c as int, j as int),
                    b.edges@.take(e0.len() as int) == e0,
                    forall|jj: int|
                        0 <= jj < j && #[trigger] task_attr_edge(*t, c as int, jj) ==> {
                            &&& b.edges@[e0.len() + task_edge_count(*t, c as int, jj)].0 == v
                            &&& t.nodes@[c as int].attrs@[jj].1 matches AttrValue::Ref(nm) && Some(
                                b.edges@[e0.len() + task_edge_count(*t, c as int, jj)].1 as int,
                            ) == spec_find_named(*t, nm@)
                        },
                    b.materializers == old(b).materializers,
                    b.diags@.len() >= d0.len(),
                    b.diags@.take(d0.len() as int) == d0,
                    forall|i: int|
                        d0.len() <= i < b.diags@.len() ==> (#[trigger] b.diags@[i]).is_error(),
                    task_verify_post(*t, v as int, b.diags@.skip(d0.len() as int)),
                    b.stmts == old(b).stmts,
                    b.handles == old(b).handles,
                    b.resolved == old(b).resolved,
                decreases al - j,
            {
                let ghost e_pre = b.edges@;
                let kv = &t.nodes[c].attrs[j];
                match &kv.1 {
                    AttrValue::Ref(nm) => {
                        match t.find_named(nm) {
                            Some(i) => {
                                b.add_dependency(t, v, i);
                                proof {
                                    lemma_edge_count_mono(*t, c as int, 0, j as int);
                                    assert(b.edges@.take(e0.len() as int) =~= e0);
                                }
                            },
                            None => {},
                        }
                    },
                    _ => {},
                }
                proof {
                    assert forall|jj: int|
                        0 <= jj < j + 1 && #[trigger] task_attr_edge(*t, c as int, jj) implies {
                        &&& b.edges@[e0.len() + task_edge_count(*t, c as int, jj)].0 == v
                        &&& t.nodes@[c as int].attrs@[jj].1 matches AttrValue::Ref(nm) && Some(
                            b.edges@[e0.len() + task_edge_count(*t, c as int, jj)].1 as int,
                        ) == spec_find_named(*t, nm@)
                    } by {
                        if jj < j {
                            lemma_edge_count_mono(*t, c as int, 0, jj);
                            lemma_edge_count_mono(*t, c as int, jj + 1, j as int);
                            assert(b.edges@[e0.len() + task_edge_count(*t, c as int, jj)]
                                == e_pre[e0.len() + task_edge_count(*t, c as int, jj)]);
                        }
                    }
                }
                j += 1;
            }
            proof {
                lemma_edge_count_mono(*t, c as int, 0, al as int);
                assert forall|jj: int|
                    0 <= jj < al as int && #[trigger] task_attr_edge(*t, c as int, jj) implies 0
                    <= task_edge_count(*t, c as int, jj) < task_edge_count(
                    *t,
                    c as int,
                    al as int,
                ) by {
                    lemma_edge_count_mono(*t, c as int, 0, jj);
                    lemma_edge_count_mono(*t, c as int, jj + 1, al as int);
                }
            }
        },
    }
    proof {
        assert(b.diags@.take(d0.len() as int) =~= d0);
        assert(b.edges@.take(e0.len() as int) =~= e0);
    }
}



pub proof fn lemma_edge_count_mono(t: Tree, c: int, j1: int, j2: int)
    requires
        0 <= j1 <= j2,
    ensures
        task_edge_count(t, c, j1) <= task_edge_count(t, c, j2),
    decreases j2 - j1,
{
    if j1 < j2 {
        lemma_edge_count_mono(t, c, j1, j2 - 1);
    }
}

/// Argument `j` resolves against the handle table `h0`.
pub open spec fn task_attr_resolvable(t: Tree, c: int, h0: Seq<Handle>, j: int) -> bool {
    t.nodes@[c].attrs@[j].1 matches AttrValue::Ref(nm) && spec_find_handle(h0, nm@) is Some
}

/// Argument `j` names its referent: `timer = &timer;` consumes the handle
/// under its own name, so no alias is bound.
pub open spec fn task_attr_same_name(t: Tree, c: int, h0: Seq<Handle>, j: int) -> bool {
    t.nodes@[c].attrs@[j].1 matches AttrValue::Ref(nm) && nm@ == t.nodes@[c].attrs@[j].0@
}

/// Argument `j` is accepted: its reference resolves, and its own name is
/// either the referent's or still free.
pub open spec fn task_attr_ok(t: Tree, c: int, h0: Seq<Handle>, j: int) -> bool {
    t.nodes@[c].attrs@[j].1 is Ref && task_attr_resolvable(t, c, h0, j) && (task_attr_same_name(
        t,
        c,
        h0,
        j,
    ) || spec_find_handle(h0, t.nodes@[c].attrs@[j].0@) is None)
}

/// Argument `j` produces a diagnostic: its reference is unresolved, or its
/// distinct name is already bound.
pub open spec fn task_attr_diag(t: Tree, c: int, h0: Seq<Handle>, j: int) -> bool {
    t.nodes@[c].attrs@[j].1 is Ref && !task_attr_ok(t, c, h0, j)
}

/// The outcome of resolving the first `j` arguments of the `args` block `c`
/// against the handle table `h0`: `ps` lists, in argument order, one entry
/// (argument name, referenced name, referent's type) per accepted argument,
/// and `ds` one diagnostic per refused one.
pub open spec fn task_scan_ok(
    t: Tree,
    c: int,
    h0: Seq<Handle>,
    v: usize,
    j: int,
    ps: Seq<(String, String, HandleType)>,
    ds: Seq<Diagnostic>,
) -> bool
    decreases j,
{
    let path = t.spec_full_path(v as int);
    if j <= 0 {
        ps.len() == 0 && ds.len() == 0
    } else {
        let at = t.nodes@[c].attrs@[j - 1];
        if task_attr_ok(t, c, h0, j - 1) {
            &&& ps.len() >= 1
            &&& task_scan_ok(t, c, h0, v, j - 1, ps.drop_last(), ds)
            &&& ps.last().0@ == at.0@
            &&& at.1 matches AttrValue::Ref(nm) && ps.last().1@ == nm@ && ps.last().2
                == spec_find_handle(h0, nm@)->0.typ
        } else if task_attr_diag(t, c, h0, j - 1) {
            &&& ds.len() >= 1
            &&& task_scan_ok(t, c, h0, v, j - 1, ps, ds.drop_last())
            &&& at.1 matches AttrValue::Ref(nm) && (if spec_find_handle(h0, nm@) is None {
                is_unresolved_ref(ds.last(), path, nm@)
            } else {
                is_duplicate_handle(ds.last(), path, at.0@)
            })
        } else {
            task_scan_ok(t, c, h0, v, j - 1, ps, ds)
        }
    }
}

/// How the bound aliases relate to the accepted arguments: every accepted
/// argument with a name distinct from its referent binds one alias handle
/// under the argument's name, typed as the referent; an argument that names
/// its referent binds nothing.
pub open spec fn task_bind_ok(ps: Seq<(String, String, HandleType)>, hs: Seq<Handle>, v: usize) -> bool
    decreases ps.len(),
{
    if ps.len() == 0 {
        hs.len() == 0
    } else if ps.last().0@ != ps.last().1@ {
        &&& hs.len() >= 1
        &&& task_bind_ok(ps.drop_last(), hs.drop_last(), v)
        &&& hs.last().name@ == ps.last().0@
        &&& hs.last().typ == ps.last().2
        &&& hs.last().node == v
    } else {
        task_bind_ok(ps.drop_last(), hs, v)
    }
}

/// Exactly what building one verified task adds: one `TaskRun` statement
/// whose argument list holds every accepted reference in argument order,
/// one alias handle per accepted reference under a distinct name, and one
/// diagnostic per reference that is unresolved or whose distinct argument
/// name is already bound.
pub open spec fn task_build_post(
    t: Tree,
    v: usize,
    h0: Seq<Handle>,
    stmts_added: Seq<Stmt>,
    handles_added: Seq<Handle>,
    diags_added: Seq<Diagnostic>,
) -> bool {
    &&& stmts_added.len() == 1
    &&& stmts_added[0].node == v
    &&& stmts_added[0].kind matches StmtKind::TaskRun { entry, args } && (t.spec_attr(
        v as int,
        "loop"@,
    ) matches Some(AttrValue::Str(s)) && entry@ == s@) && (match spec_args_child(t, v as int) {
        None => args@.len() == 0 && handles_added.len() == 0 && diags_added.len() == 0,
        Some(c) => exists|ps: Seq<(String, String, HandleType)>|
            {
                &&& #[trigger] task_scan_ok(
                    t,
                    c,
                    h0,
                    v,
                    t.nodes@[c].attrs@.len() as int,
                    ps,
                    diags_added,
                )
                &&& task_bind_ok(ps, handles_added, v)
                &&& args@.len() == ps.len()
                &&& forall|x: int|
                    0 <= x < ps.len() ==> (#[trigger] args@[x]).0@ == ps[x].0@ && args@[x].1@
                        == ps[x].1@
            },
    })
}

/// First pass of the task build: resolve each reference of the `args` block
/// against the handles other nodes produced, report unresolved references
/// and duplicate argument names, and collect the accepted arguments.
fn scan_task_args(t: &Tree, v: usize, c: usize, b: &mut Builder) -> (pending: Vec<
    (String, String, HandleType),
>)
    requires
        t.wf(),
        t.valid(v as int),
        t.valid(c as int),
        old(b).wf(t.node_count()),
    ensures
        final(b).wf(t.node_count()),
        final(b).materializers == old(b).materializers,
        final(b).edges == old(b).edges,
        final(b).resolved == old(b).resolved,
        final(b).stmts == old(b).stmts,
        final(b).handles@ == old(b).handles@,
        final(b).diags@.len() >= old(b).diags@.len(),
        final(b).diags@.take(old(b).diags@.len() as int) == old(b).diags@,
        task_scan_ok(
            *t,
            c as int,
            old(b).handles@,
            v,
            t.nodes@[c as int].attrs@.len() as int,
            pending@,
            final(b).diags@.skip(old(b).diags@.len() as int),
        ),
        forall|i: int|
            old(b).diags@.len() <= i < final(b).diags@.len()
                ==> (#[trigger] final(b).diags@[i]).is_error(),
{
    let ghost h0 = b.handles@;
    let ghost d0 = b.diags@;
    let mut pending: Vec<(String, String, HandleType)> = Vec::new();
    let al = t.nodes[c].attrs.len();
    let mut j: usize = 0;
    while j < al
        invariant
            t.wf(),
            t.valid(v as int),
            t.valid(c as int),
            b.wf(t.node_count()),
            al == t.nodes@[c as int].attrs@.len(),
            j <= al,
            b.handles@ == h0,
            b.stmts == old(b).stmts,
            b.materializers == old(b).materializers,
            b.edges == old(b).edges,
            b.resolved == old(b).resolved,
            b.diags@.len() >= d0.len(),
            b.diags@.take(d0.len() as int) == d0,
            forall|i: int|
                d0.len() <= i < b.diags@.len() ==> (#[trigger] b.diags@[i]).is_error(),
            task_scan_ok(
                *t,
                c as int,
                h0,
                v,
                j as int,
                pending@,
                b.diags@.skip(d0.len() as int),
            ),
        decreases al - j,
    {
        let ghost p_pre = pending@;
        let ghost ds_pre = b.diags@.skip(d0.len() as int);
        let kv = &t.nodes[c].attrs[j];
        match &kv.1 {
            AttrValue::Ref(nm) => {
                match find_handle(&b.handles, nm) {
                    Some(hi) => {
                        let typ = b.handles[hi].typ;
                        let same = kv.0 == *nm;
                        let taken = match find_handle(&b.handles, &kv.0) {
                            Some(_) => true,
                            None => false,
                        };
                        if same || !taken {
                            pending.push((kv.0.clone(), nm.clone(), typ));
                            proof {
                                assert(pending@.drop_last() =~= p_pre);
                            }
                        } else {
                            let d = Diagnostic {
                                severity: Severity::Recoverable,
                                kind: ErrorKind::StructuralError,
                                path: t.full_path(v),
                                detail: ErrorDetail::DuplicateHandle { name: kv.0.clone() },
                            };
                            b.report(d);
                            proof {
                                assert(b.diags@.take(d0.len() as int) =~= d0);
                                assert(b.diags@.skip(d0.len() as int).drop_last() =~= ds_pre);
                            }
                        }
                    },
                    None => {
                        let d = Diagnostic {
                            severity: Severity::Recoverable,
                            kind: ErrorKind::ReferenceError,
                            path: t.full_path(v),
                            detail: ErrorDetail::UnresolvedRef { name: nm.clone() },
                        };
                        b.report(d);
                        proof {
                            assert(b.diags@.take(d0.len() as int) =~= d0);
                            assert(b.diags@.skip(d0.len() as int).drop_last() =~= ds_pre);
                        }
                    },
                }
            },
            _ => {},
        }
        j += 1;
    }
    pending
}

/// Build handler for one task node: resolve its references against the
/// handles produced by other nodes, bind the aliases, and emit the task's
/// entry statement.
pub fn build_task(t: &Tree, v: usize, b: &mut Builder)
    requires
        t.wf(),
        t.valid(v as int),
        task_verify_clean(*t, v as int),
        old(b).wf(t.node_count()),
    ensures
        final(b).wf(t.node_count()),
        final(b).materializers == old(b).materializers,
        final(b).edges == old(b).edges,
        final(b).resolved == old(b).resolved,
        final(b).stmts@.len() >= old(b).stmts@.len(),
        final(b).stmts@.take(old(b).stmts@.len() as int) == old(b).stmts@,
        final(b).handles@.len() >= old(b).handles@.len(),
        final(b).handles@.take(old(b).handles@.len() as int) == old(b).handles@,
        final(b).diags@.len() >= old(b).diags@.len(),
        final(b).diags@.take(old(b).diags@.len() as int) == old(b).diags@,
        task_build_post(
            *t,
            v,
            old(b).handles@,
            final(b).stmts@.skip(old(b).stmts@.len() as int),
            final(b).handles@.skip(old(b).handles@.len() as int),
            final(b).diags@.skip(old(b).diags@.len() as int),
        ),
        forall|i: int|
            old(b).diags@.len() <= i < final(b).diags@.len()
                ==> (#[trigger] final(b).diags@[i]).is_error(),
{
    let ghost s0 = b.stmts@;
    let ghost h0 = b.handles@;
    let ghost d0 = b.diags@;
    let entry = match t.get_string_attr(v, &"loop".to_owned()) {
        Some(s) => s,
        None => {
            proof {
                assert(false);
            }
            return ;
        },
    };
    let mut args: Vec<(String, String)> = Vec::new();
    let ghost mut wit: Seq<(String, String, HandleType)> = Seq::empty();
    match find_args_child(t, v) {
        None => {},
        Some(c) => {
            let pending = scan_task_args(t, v, c, b);
            let ghost d1 = b.diags@;
            let pl = pending.len();
            let mut i: usize = 0;
            while i < pl
                invariant
                    i <= pl,
                    pl == pending@.len(),
                    b.wf(t.node_count()),
                    b.stmts@ == s0,
                    b.materializers == old(b).materializers,
                    b.edges == old(b).edges,
                    b.resolved == old(b).resolved,
                    b.diags@ == d1,
                    b.handles@.len() >= h0.len(),
                    b.handles@.take(h0.len() as int) == h0,
                    args@.len() == i,
                    task_bind_ok(pending@.take(i as int), b.handles@.skip(h0.len() as int), v),
                    forall|x: int|
                        0 <= x < i ==> (#[trigger] args@[x]).0@ == pending@[x].0@ && args@[x].1@
                            == pending@[x].1@,
                decreases pl - i,
            {
                let ghost hs_pre = b.handles@.skip(h0.len() as int);
                let nm2 = pending[i].0.clone();
                let ty2 = pending[i].2;
                let distinct = !(pending[i].0 == pending[i].1);
                if distinct {
                    b.handles.push(Handle { name: nm2, typ: ty2, node: v });
                }
                args.push((pending[i].0.clone(), pending[i].1.clone()));
                proof {
                    assert(b.handles@.take(h0.len() as int) =~= h0);
                    assert(pending@.take(i + 1).drop_last() =~= pending@.take(i as int));
                    assert(pending@.take(i + 1).last() == pending@[i as int]);
                    if distinct {
                        assert(b.handles@.skip(h0.len() as int).drop_last() =~= hs_pre);
                    }
                }
                i += 1;
            }
            proof {
                wit = pending@;
                assert(pending@.take(pl as int) =~= pending@);
            }
        },
    }
    b.add_statement(Stmt { node: v, kind: StmtKind::TaskRun { entry, args } });
    proof {
        assert(b.stmts@.take(s0.len() as int) =~= s0);
        assert(b.handles@.take(h0.len() as int) =~= h0);
        assert(b.diags@.take(d0.len() as int) =~= d0);
        assert(b.stmts@.skip(s0.len() as int) =~= seq![b.stmts@.last()]);
        if spec_args_child(*t, v as int) is Some {
            let c_g = spec_args_child(*t, v as int)->0;
            assert(task_scan_ok(
                *t,
                c_g,
                old(b).handles@,
                v,
                t.nodes@[c_g].attrs@.len() as int,
                wit,
                b.diags@.skip(old(b).diags@.len() as int),
            ));
            assert(task_bind_ok(wit, b.handles@.skip(old(b).handles@.len() as int), v));
        }
    }
}

} // verus!
