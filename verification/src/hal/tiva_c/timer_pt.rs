//! Platform-tree driver for timer counters
//! (`timer { timer@w0 { prescale = 80; mode = "periodic"; } }`).

use vstd::prelude::*;

use crate::builder::Builder;
use crate::diag::{
    is_duplicate_handle, is_missing_attr, is_missing_name, is_unknown_value, is_value_too_large,
    is_wrong_attr_type, Diagnostic, ErrorDetail, ErrorKind, Severity,
};
use crate::node::{AttrValue, Tree};
use crate::program::{spec_find_handle, Handle, HandleType, Stmt, StmtKind};

verus! {

/// The largest prescale value the 16-bit prescaler register accepts.
pub const PRESCALE_MAX: u32 = 65535;

pub open spec fn timer_name_count(t: Tree, v: int) -> int {
    if t.nodes@[v].name is None {
        1
    } else {
        0
    }
}

pub open spec fn timer_prescale_count(t: Tree, v: int) -> int {
    match t.spec_attr(v, "prescale"@) {
        None => 1,
        Some(AttrValue::Int(p)) => if p <= PRESCALE_MAX {
            0
        } else {
            1
        },
        Some(_) => 1,
    }
}

pub open spec fn timer_mode_count(t: Tree, v: int) -> int {
    match t.spec_attr(v, "mode"@) {
        None => 1,
        Some(AttrValue::Str(s)) => if s@ == "periodic"@ || s@ == "oneshot"@ {
            0
        } else {
            1
        },
        Some(_) => 1,
    }
}

pub open spec fn timer_verify_count(t: Tree, v: int) -> int {
    timer_name_count(t, v) + timer_prescale_count(t, v) + timer_mode_count(t, v)
}

/// The timer node passes verification: it has a name, an integer `prescale`
/// that fits the prescaler register, and a `mode` of `periodic` or
/// `oneshot`.
pub open spec fn timer_verify_clean(t: Tree, v: int) -> bool {
    timer_verify_count(t, v) == 0
}

/// Exactly the diagnostics timer verification reports, in check order:
/// missing name, then prescale, then mode.
pub open spec fn timer_verify_post(t: Tree, v: int, added: Seq<Diagnostic>) -> bool {
    let path = t.spec_full_path(v);
    let c1 = timer_name_count(t, v);
    let c2 = timer_prescale_count(t, v);
    let c3 = timer_mode_count(t, v);
    &&& added.len() == c1 + c2 + c3
    &&& c1 == 1 ==> is_missing_name(added[0], path)
    &&& c2 == 1 ==> match t.spec_attr(v, "prescale"@) {
        None => is_missing_attr(added[c1], path, "prescale"@),
        Some(AttrValue::Int(_)) => is_value_too_large(added[c1], path, "prescale"@, PRESCALE_MAX),
        Some(_) => is_wrong_attr_type(added[c1], path, "prescale"@),
    }
    &&& c3 == 1 ==> match t.spec_attr(v, "mode"@) {
        None => is_missing_attr(added[c1 + c2], path, "mode"@),
        Some(AttrValue::Str(s)) => is_unknown_value(added[c1 + c2], path, "mode"@, s@),
        Some(_) => is_wrong_attr_type(added[c1 + c2], path, "mode"@),
    }
}

/// Verify handler for one timer node.
pub fn verify_timer(t: &Tree, v: usize, b: &mut Builder)
    requires
        t.wf(),
        t.valid(v as int),
        old(b).wf(t.node_count()),
    ensures
        final(b).wf(t.node_count()),
        final(b).diags@.len() >= old(b).diags@.len(),
        final(b).diags@.take(old(b).diags@.len() as int) == old(b).diags@,
        timer_verify_post(*t, v as int, final(b).diags@.skip(old(b).diags@.len() as int)),
        forall|i: int|
            old(b).diags@.len() <= i < final(b).diags@.len()
                ==> (#[trigger] final(b).diags@[i]).is_error(),
        final(b).materializers == old(b).materializers,
        final(b).edges == old(b).edges,
        final(b).stmts == old(b).stmts,
        final(b).handles == old(b).handles,
        final(b).resolved == old(b).resolved,
{
    let ghost d0 = b.diags@;
    if t.nodes[v].name.is_none() {
        let d = Diagnostic {
            severity: Severity::Recoverable,
            kind: ErrorKind::StructuralError,
            path: t.full_path(v),
            detail: ErrorDetail::MissingName,
        };
        b.report(d);
    }
    let pre_key = "prescale".to_owned();
    match t.attr_index(v, &pre_key) {
        None => {
            let d = Diagnostic {
                severity: Severity::Recoverable,
                kind: ErrorKind::StructuralError,
                path: t.full_path(v),
                detail: ErrorDetail::MissingAttr { key: pre_key },
            };
            b.report(d);
        },
        Some(k) => match &t.nodes[v].attrs[k].1 {
            AttrValue::Int(p) => {
                if *p > PRESCALE_MAX {
                    let d = Diagnostic {
                        severity: Severity::Recoverable,
                        kind: ErrorKind::TypeMismatchError,
                        path: t.full_path(v),
                        detail: ErrorDetail::ValueTooLarge { key: pre_key, max: PRESCALE_MAX },
                    };
                    b.report(d);
                }
            },
            _ => {
                let d = Diagnostic {
                    severity: Severity::Recoverable,
                    kind: ErrorKind::TypeMismatchError,
                    path: t.full_path(v),
                    detail: ErrorDetail::WrongAttrType { key: pre_key },
                };
                b.report(d);
            },
        },
    }
    let mode_key = "mode".to_owned();
    match t.attr_index(v, &mode_key) {
        None => {
            let d = Diagnostic {
                severity: Severity::Recoverable,
                kind: ErrorKind::StructuralError,
                path: t.full_path(v),
                detail: ErrorDetail::MissingAttr { key: mode_key },
            };
            b.report(d);
        },
        Some(k) => match &t.nodes[v].attrs[k].1 {
            AttrValue::Str(s) => {
                if !(*s == "periodic".to_owned() || *s == "oneshot".to_owned()) {
                    let d = Diagnostic {
                        severity: Severity::Recoverable,
                        kind: ErrorKind::TypeMismatchError,
                        path: t.full_path(v),
                        detail: ErrorDetail::UnknownValue { key: mode_key, value: s.clone() },
                    };
                    b.report(d);
                }
            },
            _ => {
                let d = Diagnostic {
                    severity: Severity::Recoverable,
                    kind: ErrorKind::TypeMismatchError,
                    path: t.full_path(v),
                    detail: ErrorDetail::WrongAttrType { key: mode_key },
                };
                b.report(d);
            },
        },
    }
    proof {
        assert(b.diags@.take(d0.len() as int) =~= d0);
    }
}

/// Exactly what building one verified timer adds: a duplicate handle name
/// yields one diagnostic and nothing else; otherwise one `TimerInit`
/// statement and one `Timer`-typed handle under the node's name.
pub open spec fn timer_build_post(
    t: Tree,
    v: usize,
    h0: Seq<Handle>,
    stmts_added: Seq<Stmt>,
    handles_added: Seq<Handle>,
    diags_added: Seq<Diagnostic>,
) -> bool {
    let nm = t.nodes@[v as int].name->0;
    let path = t.spec_full_path(v as int);
    if spec_find_handle(h0, nm@) is Some {
        &&& stmts_added.len() == 0
        &&& handles_added.len() == 0
        &&& diags_added.len() == 1
        &&& is_duplicate_handle(diags_added[0], path, nm@)
    } else {
        &&& diags_added.len() == 0
        &&& handles_added.len() == 1
        &&& handles_added[0].name@ == nm@
        &&& handles_added[0].typ == HandleType::Timer
        &&& handles_added[0].node == v
        &&& stmts_added.len() == 1
        &&& stmts_added[0].node == v
        &&& stmts_added[0].kind matches StmtKind::TimerInit { name, slot, prescale, periodic }
            && name@ == nm@ && slot@ == t.nodes@[v as int].path@ && Some(AttrValue::Int(prescale))
            == t.spec_attr(v as int, "prescale"@) && periodic == (t.spec_attr(v as int, "mode"@)
            matches Some(AttrValue::Str(s)) && s@ == "periodic"@)
    }
}

/// Build handler for one timer node.
pub fn build_timer(t: &Tree, v: usize, b: &mut Builder)
    requires
        t.wf(),
        t.valid(v as int),
        timer_verify_clean(*t, v as int),
        old(b).wf(t.node_count()),
    ensures
        final(b).wf(t.node_count()),
        final(b).materializers == old(b).materializers,
        final(b).edges == old(b).edges,
        final(b).stmts@.len() >= old(b).stmts@.len(),
        final(b).stmts@.take(old(b).stmts@.len() as int) == old(b).stmts@,
        final(b).handles@.len() >= old(b).handles@.len(),
        final(b).handles@.take(old(b).handles@.len() as int) == old(b).handles@,
        final(b).diags@.len() >= old(b).diags@.len(),
        final(b).diags@.take(old(b).diags@.len() as int) == old(b).diags@,
        timer_build_post(
            *t,
            v,
            old(b).handles@,
            final(b).stmts@.skip(old(b).stmts@.len() as int),
            final(b).handles@.skip(old(b).handles@.len() as int),
            final(b).diags@.skip(old(b).diags@.len() as int),
        ),
        forall|i: int|
            old(b).diags@.len() <= i < final(b).diags@.len()
                ==> (#[trigger] final(b).diags@[i]).is_error(),
        spec_find_handle(old(b).handles@, t.nodes@[v as int].name->0@) is Some ==> final(b).resolved
            == old(b).resolved,
        spec_find_handle(old(b).handles@, t.nodes@[v as int].name->0@) is None ==> final(b).resolved@
            == old(b).resolved@.update(v as int, Some(HandleType::Timer)),
{
    let ghost s0 = b.stmts@;
    let ghost h0 = b.handles@;
    let ghost d0 = b.diags@;
    let name = match &t.nodes[v].name {
        Some(nm) => nm.clone(),
        None => {
            proof {
                assert(false);
            }
            return ;
        },
    };
    let slot = t.nodes[v].path.clone();
    let prescale = match t.get_int_attr(v, &"prescale".to_owned()) {
        Some(p) => p,
        None => {
            proof {
                assert(false);
            }
            return ;
        },
    };
    let mode = match t.get_string_attr(v, &"mode".to_owned()) {
        Some(s) => s,
        None => {
            proof {
                assert(false);
            }
            return ;
        },
    };
    let periodic = mode == "periodic".to_owned();
    if b.bind_handle(t, v, name.clone(), HandleType::Timer) {
        b.add_statement(
            Stmt { node: v, kind: StmtKind::TimerInit { name, slot, prescale, periodic } },
        );
    }
    proof {
        assert(b.stmts@.take(s0.len() as int) =~= s0);
        assert(b.handles@.take(h0.len() as int) =~= h0);
        assert(b.diags@.take(d0.len() as int) =~= d0);
    }
}

} // verus!
