//! The materializer registry: which node kinds exist, how a tree's nodes are
//! classified, and which structural dependency edges the drivers declare.
//!
//! Classification is purely positional: the `mcu` root owns the `clock`,
//! `gpio`, `timer` and `uart` blocks; ports live under `gpio` and pins under
//! ports; tasks live under the `os` root.  Registration also declares the
//! structural rules: every pin depends on its port, and every pin, port,
//! timer and UART depends on the clock node.

use vstd::prelude::*;

use crate::builder::{Builder, Materializer};
use crate::diag::{is_no_materializer, Diagnostic, ErrorDetail, ErrorKind, Severity};
use crate::node::AttrValue;
use crate::program::{Handle, Stmt};
use crate::hal::tiva_c::clock_pt;
use crate::hal::tiva_c::pin_pt;
use crate::hal::tiva_c::timer_pt;
use crate::hal::tiva_c::uart_pt;
use crate::node::Tree;
use crate::os_pt;

verus! {

/// The materializer a tree position gets at registration, if any.
pub open spec fn spec_materializer(t: Tree, v: int) -> Option<Materializer>
    decreases v,
{
    let nd = t.nodes@[v];
    match nd.parent {
        None => if nd.path@ == "mcu"@ {
            Some(Materializer::Mcu)
        } else if nd.path@ == "os"@ {
            Some(Materializer::Os)
        } else {
            None
        },
        Some(p) => if 0 <= (p as int) < v {
            match spec_materializer(t, p as int) {
                Some(Materializer::Mcu) => if nd.path@ == "clock"@ {
                    Some(Materializer::Clock)
                } else if nd.path@ == "gpio"@ {
                    Some(Materializer::Gpio)
                } else if nd.path@ == "timer"@ {
                    Some(Materializer::TimerGroup)
                } else if nd.path@ == "uart"@ {
                    Some(Materializer::UartGroup)
                } else {
                    None
                },
                Some(Materializer::Gpio) => Some(Materializer::Port),
                Some(Materializer::Port) => Some(Materializer::Pin),
                Some(Materializer::TimerGroup) => Some(Materializer::Timer),
                Some(Materializer::UartGroup) => Some(Materializer::Uart),
                Some(Materializer::Os) => Some(Materializer::Task),
                Some(Materializer::Task) => if nd.path@ == "args"@ {
                    Some(Materializer::Args)
                } else {
                    None
                },
                _ => None,
            }
        } else {
            None
        },
    }
}

/// First node classified as the clock, scanning from `k`.
pub open spec fn spec_find_clock_from(t: Tree, k: int) -> Option<int>
    decreases t.node_count() - k,
{
    if k < 0 || k >= t.node_count() {
        None
    } else if spec_materializer(t, k) == Some(Materializer::Clock) {
        Some(k)
    } else {
        spec_find_clock_from(t, k + 1)
    }
}

/// The tree's clock node, if any.
pub open spec fn spec_find_clock(t: Tree) -> Option<int> {
    spec_find_clock_from(t, 0)
}

proof fn lemma_find_clock_hit(t: Tree, k: int, i: int)
    requires
        0 <= k <= i < t.node_count(),
        forall|j: int| k <= j < i ==> spec_materializer(t, j) != Some(Materializer::Clock),
        spec_materializer(t, i) == Some(Materializer::Clock),
    ensures
        spec_find_clock_from(t, k) == Some(i),
    decreases i - k,
{
    if k < i {
        lemma_find_clock_hit(t, k + 1, i);
    }
}

proof fn lemma_find_clock_miss(t: Tree, k: int)
    requires
        0 <= k,
        forall|j: int| k <= j < t.node_count() ==> spec_materializer(t, j) != Some(
            Materializer::Clock,
        ),
    ensures
        spec_find_clock_from(t, k) is None,
    decreases t.node_count() - k,
{
    if k < t.node_count() {
        lemma_find_clock_miss(t, k + 1);
    }
}

/// Kinds whose build must follow the clock node's build.
pub open spec fn clock_dependent(m: Option<Materializer>) -> bool {
    ||| m == Some(Materializer::Pin)
    ||| m == Some(Materializer::Port)
    ||| m == Some(Materializer::Timer)
    ||| m == Some(Materializer::Uart)
}

/// The structural dependency rules the drivers register: every pin depends
/// on its port, and every pin, port, timer and UART depends on the clock.
pub open spec fn structural_edge(t: Tree, a: int, b: int) -> bool {
    &&& 0 <= a < t.node_count()
    &&& 0 <= b < t.node_count()
    &&& ({
        ||| (spec_materializer(t, a) == Some(Materializer::Pin) && (t.nodes@[a].parent matches Some(
            p,
        ) && p as int == b))
        ||| (clock_dependent(spec_materializer(t, a)) && spec_find_clock(t) == Some(b))
    })
}

/// A task's reference-driven dependency: `a`'s `args` block names node `b`.
pub open spec fn task_ref_edge(t: Tree, a: int, b: int) -> bool {
    &&& 0 <= a < t.node_count()
    &&& 0 <= b < t.node_count()
    &&& spec_materializer(t, a) == Some(Materializer::Task)
    &&& spec_args_child_of(t, a) matches Some(c) && exists|j: int|
        0 <= j < t.nodes@[c].attrs@.len() && ((#[trigger] t.nodes@[c].attrs@[j]).1 matches
            AttrValue::Ref(nm) && os_pt::spec_find_named(t, nm@) == Some(b))
}

/// Re-export of the task driver's `args` lookup, under a registry-local name.
pub open spec fn spec_args_child_of(t: Tree, v: int) -> Option<int> {
    os_pt::spec_args_child(t, v)
}

/// All dependency edges the compiler ever declares for this tree.
pub open spec fn spec_is_edge(t: Tree, a: int, b: int) -> bool {
    structural_edge(t, a, b) || task_ref_edge(t, a, b)
}

proof fn lemma_contains_push<A>(s: Seq<A>, x: A, y: A)
    ensures
        s.push(x).contains(y) <==> (s.contains(y) || x == y),
{
    if s.push(x).contains(y) {
        let i = choose|i: int| 0 <= i < s.push(x).len() && s.push(x)[i] == y;
        if i < s.len() {
            assert(s[i] == y);
        }
    }
    if s.contains(y) {
        let i = choose|i: int| 0 <= i < s.len() && s[i] == y;
        assert(s.push(x)[i] == y);
    }
    assert(s.push(x)[s.len() as int] == x);
}

/// Registration: classify every node and declare the structural dependency
/// rules.  Runs on a fresh builder, before the verify pass.
pub fn attach(t: &Tree, b: &mut Builder)
    requires
        t.wf(),
        old(b).wf(t.node_count()),
        forall|u: int| 0 <= u < t.node_count() ==> old(b).materializers@[u] is None,
        old(b).edges@.len() == 0,
    ensures
        final(b).wf(t.node_count()),
        forall|u: int|
            0 <= u < t.node_count() ==> final(b).materializers@[u] == spec_materializer(*t, u),
        forall|a: usize, d: usize|
            final(b).edges@.contains((a, d)) <==> structural_edge(*t, a as int, d as int),
        final(b).diags == old(b).diags,
        final(b).stmts == old(b).stmts,
        final(b).handles == old(b).handles,
        final(b).resolved == old(b).resolved,
{
    let n = t.nodes.len();
    let mut v: usize = 0;
    while v < n
        invariant
            t.wf(),
            b.wf(t.node_count()),
            n == t.node_count(),
            v <= n,
            forall|u: int| 0 <= u < v ==> b.materializers@[u] == spec_materializer(*t, u),
            forall|u: int| v <= u < n ==> b.materializers@[u] is None,
            b.edges@.len() == 0,
            b.diags == old(b).diags,
            b.stmts == old(b).stmts,
            b.handles == old(b).handles,
            b.resolved == old(b).resolved,
        decreases n - v,
    {
        let par = t.nodes[v].parent;
        let m: Option<Materializer> = match par {
            None => {
                if t.nodes[v].path == "mcu".to_owned() {
                    Some(Materializer::Mcu)
                } else if t.nodes[v].path == "os".to_owned() {
                    Some(Materializer::Os)
                } else {
                    None
                }
            },
            Some(p) => {
                proof {
                    assert(t.wf_parent_link(v as int));
                }
                match b.materializers[p] {
                    Some(Materializer::Mcu) => {
                        if t.nodes[v].path == "clock".to_owned() {
                            Some(Materializer::Clock)
                        } else if t.nodes[v].path == "gpio".to_owned() {
                            Some(Materializer::Gpio)
                        } else if t.nodes[v].path == "timer".to_owned() {
                            Some(Materializer::TimerGroup)
                        } else if t.nodes[v].path == "uart".to_owned() {
                            Some(Materializer::UartGroup)
                        } else {
                            None
                        }
                    },
                    Some(Materializer::Gpio) => Some(Materializer::Port),
                    Some(Materializer::Port) => Some(Materializer::Pin),
                    Some(Materializer::TimerGroup) => Some(Materializer::Timer),
                    Some(Materializer::UartGroup) => Some(Materializer::Uart),
                    Some(Materializer::Os) => Some(Materializer::Task),
                    Some(Materializer::Task) => {
                        if t.nodes[v].path == "args".to_owned() {
                            Some(Materializer::Args)
                        } else {
                            None
                        }
                    },
                    _ => None,
                }
            },
        };
        proof {
            match par {
                Some(p) => {
                    assert(t.wf_parent_link(v as int));
                    assert((p as int) < v as int);
                    assert(b.materializers@[p as int] == spec_materializer(*t, p as int));
                    assert(t.nodes@[v as int].parent == Some(p));
                },
                None => {
                    assert(t.nodes@[v as int].parent is None);
                },
            }
            assert(m == spec_materializer(*t, v as int));
        }
        match m {
            Some(mm) => {
                b.bind(t, v, mm);
            },
            None => {},
        }
        v += 1;
    }
    let clock = find_clock_node(t, b);
    let mut w: usize = 0;
    while w < n
        invariant
            t.wf(),
            b.wf(t.node_count()),
            n == t.node_count(),
            w <= n,
            forall|u: int| 0 <= u < n ==> b.materializers@[u] == spec_materializer(*t, u),
            match clock {
                Some(cl) => spec_find_clock(*t) == Some(cl as int) && (cl as int) < n,
                None => spec_find_clock(*t) is None,
            },
            forall|a: usize, d: usize|
                #[trigger] b.edges@.contains((a, d)) <==> (structural_edge(*t, a as int, d as int)
                    && (a as int) < w),
            b.diags == old(b).diags,
            b.stmts == old(b).stmts,
            b.handles == old(b).handles,
            b.resolved == old(b).resolved,
        decreases n - w,
    {
        let is_pin = match b.materializers[w] {
            Some(Materializer::Pin) => true,
            _ => false,
        };
        let needs_clock = match b.materializers[w] {
            Some(Materializer::Pin) => true,
            Some(Materializer::Port) => true,
            Some(Materializer::Timer) => true,
            Some(Materializer::Uart) => true,
            _ => false,
        };
        let ghost e0 = b.edges@;
        if is_pin {
            proof {
                assert(spec_materializer(*t, w as int) == Some(Materializer::Pin));
                if t.nodes@[w as int].parent is None {
                    assert(spec_materializer(*t, w as int) != Some(Materializer::Pin));
                }
                assert(t.nodes@[w as int].parent is Some);
            }
            let p = match t.nodes[w].parent {
                Some(p) => p,
                None => {
                    proof {
                        assert(false);
                    }
                    return ;
                },
            };
            proof {
                assert(t.wf_parent_link(w as int));
            }
            b.add_dependency(t, w, p);
        }
        let ghost e1 = b.edges@;
        if needs_clock {
            match clock {
                Some(cl) => {
                    b.add_dependency(t, w, cl);
                },
                None => {},
            }
        }
        proof {
            assert forall|a: usize, d: usize| #[trigger] b.edges@.contains((a, d)) <==> (
            structural_edge(*t, a as int, d as int) && (a as int) < w + 1) by {
                if is_pin {
                    lemma_contains_push(e0, (w, t.nodes@[w as int].parent->0), (a, d));
                }
                if needs_clock && clock is Some {
                    lemma_contains_push(e1, (w, clock->0), (a, d));
                }
            }
        }
        w += 1;
    }
}

/// Find the node the clock materializer was bound to, if any.
fn find_clock_node(t: &Tree, b: &Builder) -> (r: Option<usize>)
    requires
        t.wf(),
        b.wf(t.node_count()),
        forall|u: int| 0 <= u < t.node_count() ==> b.materializers@[u] == spec_materializer(*t, u),
    ensures
        match r {
            Some(cl) => spec_find_clock(*t) == Some(cl as int) && (cl as int) < t.node_count(),
            None => spec_find_clock(*t) is None,
        },
{
    let n = t.nodes.len();
    let mut v: usize = 0;
    while v < n
        invariant
            t.wf(),
            b.wf(t.node_count()),
            n == t.node_count(),
            v <= n,
            forall|u: int| 0 <= u < n ==> b.materializers@[u] == spec_materializer(*t, u),
            forall|u: int| 0 <= u < v ==> spec_materializer(*t, u) != Some(Materializer::Clock),
        decreases n - v,
    {
        let hit = match b.materializers[v] {
            Some(Materializer::Clock) => true,
            _ => false,
        };
        if hit {
            proof {
                lemma_find_clock_hit(*t, 0, v as int);
            }
            return Some(v);
        }
        v += 1;
    }
    proof {
        lemma_find_clock_miss(*t, 0);
    }
    None
}

/// Purely structural container kinds, all verified by the same handler.
pub open spec fn is_container(m: Materializer) -> bool {
    ||| m == Materializer::Mcu
    ||| m == Materializer::Gpio
    ||| m == Materializer::Port
    ||| m == Materializer::Os
    ||| m == Materializer::TimerGroup
    ||| m == Materializer::UartGroup
}

/// How many diagnostics verifying node `v` reports.
pub open spec fn node_verify_count(t: Tree, v: int) -> int {
    match spec_materializer(t, v) {
        None => 0,
        Some(m) => if is_container(m) {
            pin_pt::no_attrs_count(t, v)
        } else {
            match m {
                Materializer::Clock => clock_pt::clock_verify_count(t, v),
                Materializer::Pin => pin_pt::pin_verify_count(t, v),
                Materializer::Timer => timer_pt::timer_verify_count(t, v),
                Materializer::Uart => uart_pt::uart_verify_count(t, v),
                Materializer::Task => os_pt::task_loop_count(t, v),
                _ => 0,
            }
        },
    }
}

/// Node `v` passes verification without a diagnostic.
pub open spec fn node_verify_clean(t: Tree, v: int) -> bool {
    node_verify_count(t, v) == 0
}

/// Exactly the diagnostics verifying node `v` reports, by its kind.
pub open spec fn node_verify_post(t: Tree, v: int, added: Seq<Diagnostic>) -> bool {
    match spec_materializer(t, v) {
        None => added.len() == 0,
        Some(m) => if is_container(m) {
            pin_pt::no_attrs_post(t, v, added)
        } else {
            match m {
                Materializer::Clock => clock_pt::clock_verify_post(t, v, added),
                Materializer::Pin => pin_pt::pin_verify_post(t, v, added),
                Materializer::Timer => timer_pt::timer_verify_post(t, v, added),
                Materializer::Uart => uart_pt::uart_verify_post(t, v, added),
                Materializer::Task => os_pt::task_verify_post(t, v, added),
                _ => added.len() == 0,
            }
        },
    }
}

/// Dispatch the verify phase for one node by its bound materializer.
pub fn run_verify(t: &Tree, v: usize, b: &mut Builder)
    requires
        t.wf(),
        t.valid(v as int),
        old(b).wf(t.node_count()),
        old(b).materializers@[v as int] == spec_materializer(*t, v as int),
    ensures
        final(b).wf(t.node_count()),
        final(b).diags@.len() == old(b).diags@.len() + node_verify_count(*t, v as int),
        final(b).diags@.take(old(b).diags@.len() as int) == old(b).diags@,
        node_verify_post(*t, v as int, final(b).diags@.skip(old(b).diags@.len() as int)),
        forall|i: int|
            old(b).diags@.len() <= i < final(b).diags@.len()
                ==> (#[trigger] final(b).diags@[i]).is_error(),
        final(b).edges@.len() >= old(b).edges@.len(),
        final(b).edges@.take(old(b).edges@.len() as int) == old(b).edges@,
        spec_materializer(*t, v as int) == Some(Materializer::Task) ==> os_pt::task_edges_post(
            *t,
            v,
            final(b).edges@.skip(old(b).edges@.len() as int),
        ),
        spec_materializer(*t, v as int) != Some(Materializer::Task) ==> final(b).edges == old(
            b,
        ).edges,
        final(b).materializers == old(b).materializers,
        final(b).stmts == old(b).stmts,
        final(b).handles == old(b).handles,
        final(b).resolved == old(b).resolved,
{
    let ghost d0 = b.diags@;
    let ghost e0 = b.edges@;
    match b.materializers[v] {
        None => {},
        Some(m) => match m {
            Materializer::Mcu => pin_pt::verify(t, v, b),
            Materializer::Gpio => pin_pt::verify(t, v, b),
            Materializer::Port => pin_pt::verify(t, v, b),
            Materializer::Os => pin_pt::verify(t, v, b),
            Materializer::TimerGroup => pin_pt::verify(t, v, b),
            Materializer::UartGroup => pin_pt::verify(t, v, b),
            Materializer::Clock => clock_pt::verify_clock(t, v, b),
            Materializer::Pin => pin_pt::verify_pin(t, v, b),
            Materializer::Timer => timer_pt::verify_timer(t, v, b),
            Materializer::Uart => uart_pt::verify_uart(t, v, b),
            Materializer::Task => os_pt::verify_task(t, v, b),
            Materializer::Args => {},
        },
    }
    proof {
        assert(b.diags@.skip(d0.len() as int).len() == b.diags@.len() - d0.len());
        assert(b.diags@.take(d0.len() as int) =~= d0);
        assert(b.edges@.take(e0.len() as int) =~= e0);
    }
}

/// Exactly what building node `v` adds, by its kind.  A node that reached
/// the build phase without a bound materializer fails with a recoverable
/// structural diagnostic.
pub open spec fn node_build_post(
    t: Tree,
    v: usize,
    h0: Seq<Handle>,
    stmts_a: Seq<Stmt>,
    handles_a: Seq<Handle>,
    diags_a: Seq<Diagnostic>,
) -> bool {
    match spec_materializer(t, v as int) {
        None => {
            &&& stmts_a.len() == 0
            &&& handles_a.len() == 0
            &&& diags_a.len() == 1
            &&& is_no_materializer(diags_a[0], t.spec_full_path(v as int))
        },
        Some(m) => match m {
            Materializer::Clock => clock_pt::clock_build_post(t, v, stmts_a) && handles_a.len()
                == 0 && diags_a.len() == 0,
            Materializer::Pin => pin_pt::pin_build_post(t, v, h0, stmts_a, handles_a, diags_a),
            Materializer::Timer => timer_pt::timer_build_post(
                t,
                v,
                h0,
                stmts_a,
                handles_a,
                diags_a,
            ),
            Materializer::Uart => uart_pt::uart_build_post(t, v, h0, stmts_a, handles_a, diags_a),
            Materializer::Task => os_pt::task_build_post(t, v, h0, stmts_a, handles_a, diags_a),
            _ => stmts_a.len() == 0 && handles_a.len() == 0 && diags_a.len() == 0,
        },
    }
}

/// Dispatch the build phase for one node that passed verification.
pub fn run_build(t: &Tree, v: usize, b: &mut Builder)
    requires
        t.wf(),
        t.valid(v as int),
        old(b).wf(t.node_count()),
        old(b).materializers@[v as int] == spec_materializer(*t, v as int),
        node_verify_clean(*t, v as int),
    ensures
        final(b).wf(t.node_count()),
        final(b).materializers == old(b).materializers,
        final(b).edges == old(b).edges,
        final(b).stmts@.len() >= old(b).stmts@.len(),
        final(b).stmts@.take(old(b).stmts@.len() as int) == old(b).stmts@,
        final(b).handles@.len() >= old(b).handles@.len(),
        final(b).handles@.take(old(b).handles@.len() as int) == old(b).handles@,
        final(b).diags@.len() >= old(b).diags@.len(),
        final(b).diags@.take(old(b).diags@.len() as int) == old(b).diags@,
        node_build_post(
            *t,
            v,
            old(b).handles@,
            final(b).stmts@.skip(old(b).stmts@.len() as int),
            final(b).handles@.skip(old(b).handles@.len() as int),
            final(b).diags@.skip(old(b).diags@.len() as int),
        ),
        forall|i: int|
            old(b).diags@.len() <= i < final(b).diags@.len()
                ==> (#[trigger] final(b).diags@[i]).is_error(),
        forall|i: int|
            old(b).stmts@.len() <= i < final(b).stmts@.len() ==> (#[trigger] final(b).stmts@[i]).node
                == v,
{
    let ghost s0 = b.stmts@;
    let ghost h0 = b.handles@;
    let ghost d0 = b.diags@;
    match b.materializers[v] {
        None => {
            let d = Diagnostic {
                severity: Severity::Recoverable,
                kind: ErrorKind::StructuralError,
                path: t.full_path(v),
                detail: ErrorDetail::NoMaterializer,
            };
            b.report(d);
        },
        Some(m) => match m {
            Materializer::Clock => clock_pt::build_clock(t, v, b),
            Materializer::Pin => {
                proof {
                    assert(spec_materializer(*t, v as int) == Some(Materializer::Pin));
                    if t.nodes@[v as int].parent is None {
                        assert(spec_materializer(*t, v as int) != Some(Materializer::Pin));
                    }
                }
                pin_pt::build_pin(t, v, b);
            },
            Materializer::Timer => timer_pt::build_timer(t, v, b),
            Materializer::Uart => uart_pt::build_uart(t, v, b),
            Materializer::Task => os_pt::build_task(t, v, b),
            _ => {},
        },
    }
    proof {
        assert(b.stmts@.take(s0.len() as int) =~= s0);
        assert(b.handles@.take(h0.len() as int) =~= h0);
        assert(b.diags@.take(d0.len() as int) =~= d0);
    }
}

} // verus!
