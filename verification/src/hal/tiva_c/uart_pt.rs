//! Platform-tree driver for UARTs (`uart { uart@0 { mode = "115200,8n1"; } }`).

use vstd::prelude::*;

use crate::builder::Builder;
use crate::diag::{
    is_duplicate_handle, is_missing_attr, is_missing_name, is_wrong_attr_type, Diagnostic,
    ErrorDetail, ErrorKind, Severity,
};
use crate::node::{AttrValue, Tree};
use crate::program::{spec_find_handle, Handle, HandleType, Stmt, StmtKind};

verus! {

pub open spec fn uart_name_count(t: Tree, v: int) -> int {
    if t.nodes@[v].name is None {
        1
    } else {
        0
    }
}

pub open spec fn uart_mode_count(t: Tree, v: int) -> int {
    match t.spec_attr(v, "mode"@) {
        None => 1,
        Some(AttrValue::Str(_)) => 0,
        Some(_) => 1,
    }
}

pub open spec fn uart_verify_count(t: Tree, v: int) -> int {
    uart_name_count(t, v) + uart_mode_count(t, v)
}

/// The UART node passes verification: it has a name and a string `mode`.
pub open spec fn uart_verify_clean(t: Tree, v: int) -> bool {
    uart_verify_count(t, v) == 0
}

/// Exactly the diagnostics UART verification reports, in check order:
/// missing name, then mode.
pub open spec fn uart_verify_post(t: Tree, v: int, added: Seq<Diagnostic>) -> bool {
    let path = t.spec_full_path(v);
    let c1 = uart_name_count(t, v);
    let c2 = uart_mode_count(t, v);
    &&& added.len() == c1 + c2
    &&& c1 == 1 ==> is_missing_name(added[0], path)
    &&& c2 == 1 ==> match t.spec_attr(v, "mode"@) {
        None => is_missing_attr(added[c1], path, "mode"@),
        Some(_) => is_wrong_attr_type(added[c1], path, "mode"@),
    }
}

/// Verify handler for one UART node.
pub fn verify_uart(t: &Tree, v: usize, b: &mut Builder)
    requires
        t.wf(),
        t.valid(v as int),
        old(b).wf(t.node_count()),
    ensures
        final(b).wf(t.node_count()),
        final(b).diags@.len() >= old(b).diags@.len(),
        final(b).diags@.take(old(b).diags@.len() as int) == old(b).diags@,
        uart_verify_post(*t, v as int, final(b).diags@.skip(old(b).diags@.len() as int)),
        forall|i: int|
            old(b).diags@.len() <= i < final(b).diags@.len()
                ==> (#[trigger] final(b).diags@[i]).is_error(),
        final(b).materializers == old(b).materializers,
        final(b).edges == old(b).edges,
        final(b).stmts == old(b).stmts,
        final(b).handles == old(b).handles,
        final(b).resolved == old(b).resolved,
{
    let ghost d0 = b.diags@;
    if t.nodes[v].name.is_none() {
        let d = Diagnostic {
            severity: Severity::Recoverable,
            kind: ErrorKind::StructuralError,
            path: t.full_path(v),
            detail: ErrorDetail::MissingName,
        };
        b.report(d);
    }
    let mode_key = "mode".to_owned();
    match t.attr_index(v, &mode_key) {
        None => {
            let d = Diagnostic {
                severity: Severity::Recoverable,
                kind: ErrorKind::StructuralError,
                path: t.full_path(v),
                detail: ErrorDetail::MissingAttr { key: mode_key },
            };
            b.report(d);
        },
        Some(k) => match &t.nodes[v].attrs[k].1 {
            AttrValue::Str(_) => {},
            _ => {
                let d = Diagnostic {
                    severity: Severity::Recoverable,
                    kind: ErrorKind::TypeMismatchError,
                    path: t.full_path(v),
                    detail: ErrorDetail::WrongAttrType { key: mode_key },
                };
                b.report(d);
            },
        },
    }
    proof {
        assert(b.diags@.take(d0.len() as int) =~= d0);
    }
}

/// Exactly what building one verified UART adds: a duplicate handle name
/// yields one diagnostic and nothing else; otherwise one `UartInit`
/// statement and one `Uart`-typed handle under the node's name.
pub open spec fn uart_build_post(
    t: Tree,
    v: usize,
    h0: Seq<Handle>,
    stmts_added: Seq<Stmt>,
    handles_added: Seq<Handle>,
    diags_added: Seq<Diagnostic>,
) -> bool {
    let nm = t.nodes@[v as int].name->0;
    let path = t.spec_full_path(v as int);
    if spec_find_handle(h0, nm@) is Some {
        &&& stmts_added.len() == 0
        &&& handles_added.len() == 0
        &&& diags_added.len() == 1
        &&& is_duplicate_handle(diags_added[0], path, nm@)
    } else {
        &&& diags_added.len() == 0
        &&& handles_added.len() == 1
        &&& handles_added[0].name@ == nm@
        &&& handles_added[0].typ == HandleType::Uart
        &&& handles_added[0].node == v
        &&& stmts_added.len() == 1
        &&& stmts_added[0].node == v
        &&& stmts_added[0].kind matches StmtKind::UartInit { name, slot, mode } && name@ == nm@
            && slot@ == t.nodes@[v as int].path@ && (t.spec_attr(v as int, "mode"@) matches Some(
            AttrValue::Str(s),
        ) && mode@ == s@)
    }
}

/// Build handler for one UART node.
pub fn build_uart(t: &Tree, v: usize, b: &mut Builder)
    requires
        t.wf(),
        t.valid(v as int),
        uart_verify_clean(*t, v as int),
        old(b).wf(t.node_count()),
    ensures
        final(b).wf(t.node_count()),
        final(b).materializers == old(b).materializers,
        final(b).edges == old(b).edges,
        final(b).stmts@.len() >= old(b).stmts@.len(),
        final(b).stmts@.take(old(b).stmts@.len() as int) == old(b).stmts@,
        final(b).handles@.len() >= old(b).handles@.len(),
        final(b).handles@.take(old(b).handles@.len() as int) == old(b).handles@,
        final(b).diags@.len() >= old(b).diags@.len(),
        final(b).diags@.take(old(b).diags@.len() as int) == old(b).diags@,
        uart_build_post(
            *t,
            v,
            old(b).handles@,
            final(b).stmts@.skip(old(b).stmts@.len() as int),
            final(b).handles@.skip(old(b).handles@.len() as int),
            final(b).diags@.skip(old(b).diags@.len() as int),
        ),
        forall|i: int|
            old(b).diags@.len() <= i < final(b).diags@.len()
                ==> (#[trigger] final(b).diags@[i]).is_error(),
        spec_find_handle(old(b).handles@, t.nodes@[v as int].name->0@) is Some ==> final(b).resolved
            == old(b).resolved,
        spec_find_handle(old(b).handles@, t.nodes@[v as int].name->0@) is None ==> final(b).resolved@
            == old(b).resolved@.update(v as int, Some(HandleType::Uart)),
{
    let ghost s0 = b.stmts@;
    let ghost h0 = b.handles@;
    let ghost d0 = b.diags@;
    let name = match &t.nodes[v].name {
        Some(nm) => nm.clone(),
        None => {
            proof {
                assert(false);
            }
            return ;
        },
    };
    let slot = t.nodes[v].path.clone();
    let mode = match t.get_string_attr(v, &"mode".to_owned()) {
        Some(s) => s,
        None => {
            proof {
                assert(false);
            }
            return ;
        },
    };
    if b.bind_handle(t, v, name.clone(), HandleType::Uart) {
        b.add_statement(Stmt { node: v, kind: StmtKind::UartInit { name, slot, mode } });
    }
    proof {
        assert(b.stmts@.take(s0.len() as int) =~= s0);
        assert(b.handles@.take(h0.len() as int) =~= h0);
        assert(b.diags@.take(d0.len() as int) =~= d0);
    }
}

} // verus!
