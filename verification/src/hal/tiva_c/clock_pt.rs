//! Platform-tree driver for the clock-source node
//! (`clock { source = "MOSC"; source_frequency = 16_000_000; }`).

use vstd::prelude::*;

use crate::builder::Builder;
use crate::diag::{
    is_missing_attr, is_unknown_value, is_wrong_attr_type, Diagnostic, ErrorDetail, ErrorKind,
    Severity,
};
use crate::node::{AttrValue, Tree};
use crate::program::{Stmt, StmtKind};

verus! {

/// The clock sources the system-control block understands.
pub open spec fn known_clock_source(s: Seq<char>) -> bool {
    ||| s == "MOSC"@
    ||| s == "PIOSC"@
    ||| s == "PIOSC4MHz"@
    ||| s == "LFIOSC"@
    ||| s == "HOSC"@
}

pub open spec fn clock_src_count(t: Tree, v: int) -> int {
    match t.spec_attr(v, "source"@) {
        None => 1,
        Some(AttrValue::Str(s)) => if known_clock_source(s@) {
            0
        } else {
            1
        },
        Some(_) => 1,
    }
}

pub open spec fn clock_freq_count(t: Tree, v: int) -> int {
    match t.spec_attr(v, "source_frequency"@) {
        None => 1,
        Some(AttrValue::Int(_)) => 0,
        Some(_) => 1,
    }
}

pub open spec fn clock_verify_count(t: Tree, v: int) -> int {
    clock_src_count(t, v) + clock_freq_count(t, v)
}

/// The clock node passes verification: `source` is one of the known source
/// names and `source_frequency` is an integer.
pub open spec fn clock_verify_clean(t: Tree, v: int) -> bool {
    clock_verify_count(t, v) == 0
}

/// Exactly the diagnostics clock verification reports, in check order:
/// source, then frequency.
pub open spec fn clock_verify_post(t: Tree, v: int, added: Seq<Diagnostic>) -> bool {
    let path = t.spec_full_path(v);
    let c1 = clock_src_count(t, v);
    let c2 = clock_freq_count(t, v);
    &&& added.len() == c1 + c2
    &&& c1 == 1 ==> match t.spec_attr(v, "source"@) {
        None => is_missing_attr(added[0], path, "source"@),
        Some(AttrValue::Str(s)) => is_unknown_value(added[0], path, "source"@, s@),
        Some(_) => is_wrong_attr_type(added[0], path, "source"@),
    }
    &&& c2 == 1 ==> match t.spec_attr(v, "source_frequency"@) {
        None => is_missing_attr(added[c1], path, "source_frequency"@),
        Some(_) => is_wrong_attr_type(added[c1], path, "source_frequency"@),
    }
}

/// Verify handler for the clock node.
pub fn verify_clock(t: &Tree, v: usize, b: &mut Builder)
    requires
        t.wf(),
        t.valid(v as int),
        old(b).wf(t.node_count()),
    ensures
        final(b).wf(t.node_count()),
        final(b).diags@.len() >= old(b).diags@.len(),
        final(b).diags@.take(old(b).diags@.len() as int) == old(b).diags@,
        clock_verify_post(*t, v as int, final(b).diags@.skip(old(b).diags@.len() as int)),
        forall|i: int|
            old(b).diags@.len() <= i < final(b).diags@.len()
                ==> (#[trigger] final(b).diags@[i]).is_error(),
        final(b).materializers == old(b).materializers,
        final(b).edges == old(b).edges,
        final(b).stmts == old(b).stmts,
        final(b).handles == old(b).handles,
        final(b).resolved == old(b).resolved,
{
    let ghost d0 = b.diags@;
    let src_key = "source".to_owned();
    match t.attr_index(v, &src_key) {
        None => {
            let d = Diagnostic {
                severity: Severity::Recoverable,
                kind: ErrorKind::StructuralError,
                path: t.full_path(v),
                detail: ErrorDetail::MissingAttr { key: src_key },
            };
            b.report(d);
        },
        Some(k) => match &t.nodes[v].attrs[k].1 {
            AttrValue::Str(s) => {
                let known = *s == "MOSC".to_owned() || *s == "PIOSC".to_owned() || *s
                    == "PIOSC4MHz".to_owned() || *s == "LFIOSC".to_owned() || *s
                    == "HOSC".to_owned();
                if !known {
                    let d = Diagnostic {
                        severity: Severity::Recoverable,
                        kind: ErrorKind::TypeMismatchError,
                        path: t.full_path(v),
                        detail: ErrorDetail::UnknownValue { key: src_key, value: s.clone() },
                    };
                    b.report(d);
                }
            },
            _ => {
                let d = Diagnostic {
                    severity: Severity::Recoverable,
                    kind: ErrorKind::TypeMismatchError,
                    path: t.full_path(v),
                    detail: ErrorDetail::WrongAttrType { key: src_key },
                };
                b.report(d);
            },
        },
    }
    let freq_key = "source_frequency".to_owned();
    match t.attr_index(v, &freq_key) {
        None => {
            let d = Diagnostic {
                severity: Severity::Recoverable,
                kind: ErrorKind::StructuralError,
                path: t.full_path(v),
                detail: ErrorDetail::MissingAttr { key: freq_key },
            };
            b.report(d);
        },
        Some(k) => match &t.nodes[v].attrs[k].1 {
            AttrValue::Int(_) => {},
            _ => {
                let d = Diagnostic {
                    severity: Severity::Recoverable,
                    kind: ErrorKind::TypeMismatchError,
                    path: t.full_path(v),
                    detail: ErrorDetail::WrongAttrType { key: freq_key },
                };
                b.report(d);
            },
        },
    }
    proof {
        assert(b.diags@.take(d0.len() as int) =~= d0);
    }
}

/// Exactly what building the verified clock node adds: one `ClockInit`
/// statement carrying the source name and frequency.
pub open spec fn clock_build_post(t: Tree, v: usize, stmts_added: Seq<Stmt>) -> bool {
    &&& stmts_added.len() == 1
    &&& stmts_added[0].node == v
    &&& stmts_added[0].kind matches StmtKind::ClockInit { source, frequency } && (
    t.spec_attr(v as int, "source"@) matches Some(AttrValue::Str(s)) && source@ == s@) && Some(
        AttrValue::Int(frequency),
    ) == t.spec_attr(v as int, "source_frequency"@)
}

/// Build handler for the clock node.
pub fn build_clock(t: &Tree, v: usize, b: &mut Builder)
    requires
        t.wf(),
        t.valid(v as int),
        clock_verify_clean(*t, v as int),
        old(b).wf(t.node_count()),
    ensures
        final(b).wf(t.node_count()),
        final(b).stmts@.len() == old(b).stmts@.len() + 1,
        final(b).stmts@.take(old(b).stmts@.len() as int) == old(b).stmts@,
        clock_build_post(*t, v, final(b).stmts@.skip(old(b).stmts@.len() as int)),
        final(b).materializers == old(b).materializers,
        final(b).edges == old(b).edges,
        final(b).diags == old(b).diags,
        final(b).handles == old(b).handles,
        final(b).resolved == old(b).resolved,
{
    let ghost s0 = b.stmts@;
    let source = match t.get_string_attr(v, &"source".to_owned()) {
        Some(s) => s,
        None => {
            proof {
                assert(false);
            }
            return ;
        },
    };
    let frequency = match t.get_int_attr(v, &"source_frequency".to_owned()) {
        Some(f) => f,
        None => {
            proof {
                assert(false);
            }
            return ;
        },
    };
    b.add_statement(Stmt { node: v, kind: StmtKind::ClockInit { source, frequency } });
    proof {
        assert(b.stmts@.take(s0.len() as int) =~= s0);
    }
}

} // verus!
