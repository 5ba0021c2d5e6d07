//! Platform-tree driver for GPIO pins: structural verification and code
//! emission for `gpio { Port { pin@N { direction = ...; } } }` subtrees.

use vstd::prelude::*;

use crate::builder::Builder;
use crate::diag::{
    is_bad_index, is_duplicate_handle, is_index_out_of_range, is_missing_attr, is_missing_name,
    is_unexpected_attrs, is_unknown_value, is_wrong_attr_type, Diagnostic, ErrorDetail, ErrorKind,
    Severity,
};
use crate::node::{AttrValue, Tree};
use crate::program::{spec_find_handle, Handle, HandleType, Stmt, StmtKind};

verus! {

/// Value of a decimal digit.
pub open spec fn spec_digit(c: char) -> Option<u32> {
    if c == '0' {
        Some(0u32)
    } else if c == '1' {
        Some(1u32)
    } else if c == '2' {
        Some(2u32)
    } else if c == '3' {
        Some(3u32)
    } else if c == '4' {
        Some(4u32)
    } else if c == '5' {
        Some(5u32)
    } else if c == '6' {
        Some(6u32)
    } else if c == '7' {
        Some(7u32)
    } else if c == '8' {
        Some(8u32)
    } else if c == '9' {
        Some(9u32)
    } else {
        None
    }
}

pub open spec fn spec_parse_u32_rec(s: Seq<char>, acc: u32) -> Option<u32>
    decreases s.len(),
{
    if s.len() == 0 {
        Some(acc)
    } else {
        match spec_digit(s[0]) {
            None => None,
            Some(d) => if acc as int * 10 + d as int <= u32::MAX as int {
                spec_parse_u32_rec(s.skip(1), (acc as int * 10 + d as int) as u32)
            } else {
                None
            },
        }
    }
}

/// Decimal parse of a slot path: all digits, non-empty, value within `u32`.
pub open spec fn spec_parse_u32(s: Seq<char>) -> Option<u32> {
    if s.len() == 0 {
        None
    } else {
        spec_parse_u32_rec(s, 0)
    }
}

/// Parse a decimal slot path.
pub fn parse_u32(s: &String) -> (r: Option<u32>)
    ensures
        r == spec_parse_u32(s@),
{
    let len = s.as_str().unicode_len();
    if len == 0 {
        return None;
    }
    let mut acc: u32 = 0;
    let mut i: usize = 0;
    proof {
        assert(s@.skip(0) =~= s@);
    }
    while i < len
        invariant
            len == s@.len(),
            i <= len,
            len > 0,
            spec_parse_u32_rec(s@.skip(i as int), acc) == spec_parse_u32(s@),
        decreases len - i,
    {
        let c = s.as_str().get_char(i);
        proof {
            assert(s@.skip(i as int)[0] == s@[i as int]);
        }
        let d: u32 = if c == '0' {
            0
        } else if c == '1' {
            1
        } else if c == '2' {
            2
        } else if c == '3' {
            3
        } else if c == '4' {
            4
        } else if c == '5' {
            5
        } else if c == '6' {
            6
        } else if c == '7' {
            7
        } else if c == '8' {
            8
        } else if c == '9' {
            9
        } else {
            assert(spec_digit(s@[i as int]) is None);
            return None;
        };
        assert(spec_digit(s@[i as int]) == Some(d));
        let wide: u64 = acc as u64 * 10 + d as u64;
        if wide > u32::MAX as u64 {
            return None;
        }
        acc = wide as u32;
        proof {
            assert(s@.skip(i as int).skip(1) =~= s@.skip(i as int + 1));
        }
        i += 1;
    }
    proof {
        assert(s@.skip(len as int) =~= Seq::<char>::empty());
    }
    Some(acc)
}

// ---- verify handler for purely structural containers ----

/// One diagnostic when a structural node carries attributes.
pub open spec fn no_attrs_count(t: Tree, v: int) -> int {
    if t.nodes@[v].attrs@.len() > 0 {
        1
    } else {
        0
    }
}

pub open spec fn no_attrs_post(t: Tree, v: int, added: Seq<Diagnostic>) -> bool {
    &&& added.len() == no_attrs_count(t, v)
    &&& t.nodes@[v].attrs@.len() > 0 ==> is_unexpected_attrs(added[0], t.spec_full_path(v))
}

/// Verify handler for purely structural container nodes (the `gpio` block,
/// a port, the `mcu` and `os` roots, ...): they must carry no attributes.
pub fn verify(t: &Tree, v: usize, b: &mut Builder)
    requires
        t.wf(),
        t.valid(v as int),
        old(b).wf(t.node_count()),
    ensures
        final(b).wf(t.node_count()),
        final(b).diags@.len() >= old(b).diags@.len(),
        final(b).diags@.take(old(b).diags@.len() as int) == old(b).diags@,
        no_attrs_post(*t, v as int, final(b).diags@.skip(old(b).diags@.len() as int)),
        forall|i: int|
            old(b).diags@.len() <= i < final(b).diags@.len()
                ==> (#[trigger] final(b).diags@[i]).is_error(),
        final(b).materializers == old(b).materializers,
        final(b).edges == old(b).edges,
        final(b).stmts == old(b).stmts,
        final(b).handles == old(b).handles,
        final(b).resolved == old(b).resolved,
{
    let ghost d0 = b.diags@;
    if t.nodes[v].attrs.len() > 0 {
        let d = Diagnostic {
            severity: Severity::Recoverable,
            kind: ErrorKind::StructuralError,
            path: t.full_path(v),
            detail: ErrorDetail::UnexpectedAttrs,
        };
        b.report(d);
    }
    proof {
        assert(b.diags@.take(d0.len() as int) =~= d0);
    }
}

// ---- pin verification ----

pub open spec fn pin_name_count(t: Tree, v: int) -> int {
    if t.nodes@[v].name is None {
        1
    } else {
        0
    }
}

pub open spec fn pin_dir_count(t: Tree, v: int) -> int {
    match t.spec_attr(v, "direction"@) {
        None => 1,
        Some(AttrValue::Str(s)) => if s@ == "in"@ || s@ == "out"@ {
            0
        } else {
            1
        },
        Some(_) => 1,
    }
}

pub open spec fn pin_idx_count(t: Tree, v: int) -> int {
    match spec_parse_u32(t.nodes@[v].path@) {
        None => 1,
        Some(i) => if i <= 7 {
            0
        } else {
            1
        },
    }
}

pub open spec fn pin_fun_count(t: Tree, v: int) -> int {
    match t.spec_attr(v, "function"@) {
        None => 0,
        Some(AttrValue::Int(_)) => 0,
        Some(_) => 1,
    }
}

pub open spec fn pin_verify_count(t: Tree, v: int) -> int {
    pin_name_count(t, v) + pin_dir_count(t, v) + pin_idx_count(t, v) + pin_fun_count(t, v)
}

/// The pin node passes verification: it has a name, a `direction` attribute
/// that is the string `in` or `out`, a decimal slot path in `0..7`, and (if
/// present) an integer `function` attribute.
pub open spec fn pin_verify_clean(t: Tree, v: int) -> bool {
    pin_verify_count(t, v) == 0
}

/// Exactly the diagnostics pin verification reports, in check order:
/// missing name, then direction, then slot index, then function.
pub open spec fn pin_verify_post(t: Tree, v: int, added: Seq<Diagnostic>) -> bool {
    let path = t.spec_full_path(v);
    let c1 = pin_name_count(t, v);
    let c2 = pin_dir_count(t, v);
    let c3 = pin_idx_count(t, v);
    let c4 = pin_fun_count(t, v);
    &&& added.len() == c1 + c2 + c3 + c4
    &&& c1 == 1 ==> is_missing_name(added[0], path)
    &&& c2 == 1 ==> match t.spec_attr(v, "direction"@) {
        None => is_missing_attr(added[c1], path, "direction"@),
        Some(AttrValue::Str(s)) => is_unknown_value(added[c1], path, "direction"@, s@),
        Some(_) => is_wrong_attr_type(added[c1], path, "direction"@),
    }
    &&& c3 == 1 ==> match spec_parse_u32(t.nodes@[v].path@) {
        None => is_bad_index(added[c1 + c2], path),
        Some(i) => is_index_out_of_range(added[c1 + c2], path, i, 0, 7),
    }
    &&& c4 == 1 ==> is_wrong_attr_type(added[c1 + c2 + c3], path, "function"@)
}

/// Verify handler for one GPIO pin.
pub fn verify_pin(t: &Tree, v: usize, b: &mut Builder)
    requires
        t.wf(),
        t.valid(v as int),
        old(b).wf(t.node_count()),
    ensures
        final(b).wf(t.node_count()),
        final(b).diags@.len() >= old(b).diags@.len(),
        final(b).diags@.take(old(b).diags@.len() as int) == old(b).diags@,
        pin_verify_post(*t, v as int, final(b).diags@.skip(old(b).diags@.len() as int)),
        forall|i: int|
            old(b).diags@.len() <= i < final(b).diags@.len()
                ==> (#[trigger] final(b).diags@[i]).is_error(),
        final(b).materializers == old(b).materializers,
        final(b).edges == old(b).edges,
        final(b).stmts == old(b).stmts,
        final(b).handles == old(b).handles,
        final(b).resolved == old(b).resolved,
{
    let ghost d0 = b.diags@;
    if t.nodes[v].name.is_none() {
        let d = Diagnostic {
            severity: Severity::Recoverable,
            kind: ErrorKind::StructuralError,
            path: t.full_path(v),
            detail: ErrorDetail::MissingName,
        };
        b.report(d);
    }
    let dir_key = "direction".to_owned();
    match t.attr_index(v, &dir_key) {
        None => {
            let d = Diagnostic {
                severity: Severity::Recoverable,
                kind: ErrorKind::StructuralError,
                path: t.full_path(v),
                detail: ErrorDetail::MissingAttr { key: dir_key },
            };
            b.report(d);
        },
        Some(k) => match &t.nodes[v].attrs[k].1 {
            AttrValue::Str(s) => {
                if !(*s == "in".to_owned() || *s == "out".to_owned()) {
                    let d = Diagnostic {
                        severity: Severity::Recoverable,
                        kind: ErrorKind::TypeMismatchError,
                        path: t.full_path(v),
                        detail: ErrorDetail::UnknownValue { key: dir_key, value: s.clone() },
                    };
                    b.report(d);
                }
            },
            _ => {
                let d = Diagnostic {
                    severity: Severity::Recoverable,
                    kind: ErrorKind::TypeMismatchError,
                    path: t.full_path(v),
                    detail: ErrorDetail::WrongAttrType { key: dir_key },
                };
                b.report(d);
            },
        },
    }
    match parse_u32(&t.nodes[v].path) {
        None => {
            let d = Diagnostic {
                severity: Severity::Recoverable,
                kind: ErrorKind::TypeMismatchError,
                path: t.full_path(v),
                detail: ErrorDetail::BadIndex,
            };
            b.report(d);
        },
        Some(i) => {
            if i > 7 {
                let d = Diagnostic {
                    severity: Severity::Recoverable,
                    kind: ErrorKind::TypeMismatchError,
                    path: t.full_path(v),
                    detail: ErrorDetail::IndexOutOfRange { index: i, lo: 0, hi: 7 },
                };
                b.report(d);
            }
        },
    }
    match t.attr_index(v, &"function".to_owned()) {
        None => {},
        Some(k) => match &t.nodes[v].attrs[k].1 {
            AttrValue::Int(_) => {},
            _ => {
                let d = Diagnostic {
                    severity: Severity::Recoverable,
                    kind: ErrorKind::TypeMismatchError,
                    path: t.full_path(v),
                    detail: ErrorDetail::WrongAttrType { key: "function".to_owned() },
                };
                b.report(d);
            },
        },
    }
    proof {
        assert(b.diags@.take(d0.len() as int) =~= d0);
    }
}

// ---- pin build ----

/// Exactly what building one verified pin adds: a duplicate handle name
/// yields one diagnostic and nothing else; otherwise one `PinInit`
/// statement and one `Pin`-typed handle under the node's name.
pub open spec fn pin_build_post(
    t: Tree,
    v: usize,
    h0: Seq<Handle>,
    stmts_added: Seq<Stmt>,
    handles_added: Seq<Handle>,
    diags_added: Seq<Diagnostic>,
) -> bool {
    let nm = t.nodes@[v as int].name->0;
    let path = t.spec_full_path(v as int);
    if spec_find_handle(h0, nm@) is Some {
        &&& stmts_added.len() == 0
        &&& handles_added.len() == 0
        &&& diags_added.len() == 1
        &&& is_duplicate_handle(diags_added[0], path, nm@)
    } else {
        &&& diags_added.len() == 0
        &&& handles_added.len() == 1
        &&& handles_added[0].name@ == nm@
        &&& handles_added[0].typ == HandleType::Pin
        &&& handles_added[0].node == v
        &&& stmts_added.len() == 1
        &&& stmts_added[0].node == v
        &&& stmts_added[0].kind matches StmtKind::PinInit { name, port, index, output, function }
            && name@ == nm@ && port@ == t.nodes@[t.nodes@[v as int].parent->0 as int].path@
            && Some(index) == spec_parse_u32(t.nodes@[v as int].path@) && output == (
        t.spec_attr(v as int, "direction"@) matches Some(AttrValue::Str(s)) && s@ == "out"@)
            && function == (match t.spec_attr(v as int, "function"@) {
            Some(AttrValue::Int(f)) => f,
            _ => 0u32,
        })
    }
}

/// Build handler for one GPIO pin: emit its initialization statement and
/// bind its handle.
pub fn build_pin(t: &Tree, v: usize, b: &mut Builder)
    requires
        t.wf(),
        t.valid(v as int),
        t.nodes@[v as int].parent is Some,
        pin_verify_clean(*t, v as int),
        old(b).wf(t.node_count()),
    ensures
        final(b).wf(t.node_count()),
        final(b).materializers == old(b).materializers,
        final(b).edges == old(b).edges,
        final(b).stmts@.len() >= old(b).stmts@.len(),
        final(b).stmts@.take(old(b).stmts@.len() as int) == old(b).stmts@,
        final(b).handles@.len() >= old(b).handles@.len(),
        final(b).handles@.take(old(b).handles@.len() as int) == old(b).handles@,
        final(b).diags@.len() >= old(b).diags@.len(),
        final(b).diags@.take(old(b).diags@.len() as int) == old(b).diags@,
        pin_build_post(
            *t,
            v,
            old(b).handles@,
            final(b).stmts@.skip(old(b).stmts@.len() as int),
            final(b).handles@.skip(old(b).handles@.len() as int),
            final(b).diags@.skip(old(b).diags@.len() as int),
        ),
        forall|i: int|
            old(b).diags@.len() <= i < final(b).diags@.len()
                ==> (#[trigger] final(b).diags@[i]).is_error(),
        spec_find_handle(old(b).handles@, t.nodes@[v as int].name->0@) is Some ==> final(b).resolved
            == old(b).resolved,
        spec_find_handle(old(b).handles@, t.nodes@[v as int].name->0@) is None ==> final(b).resolved@
            == old(b).resolved@.update(v as int, Some(HandleType::Pin)),
{
    let ghost s0 = b.stmts@;
    let ghost h0 = b.handles@;
    let ghost d0 = b.diags@;
    let name = match &t.nodes[v].name {
        Some(nm) => nm.clone(),
        None => {
            proof {
                assert(false);
            }
            return ;
        },
    };
    let parent = match t.nodes[v].parent {
        Some(p) => p,
        None => {
            proof {
                assert(false);
            }
            return ;
        },
    };
    proof {
        assert(t.wf_parent_link(v as int));
    }
    let port = t.nodes[parent].path.clone();
    let index = match parse_u32(&t.nodes[v].path) {
        Some(i) => i,
        None => {
            proof {
                assert(false);
            }
            return ;
        },
    };
    let dir = match t.get_string_attr(v, &"direction".to_owned()) {
        Some(s) => s,
        None => {
            proof {
                assert(false);
            }
            return ;
        },
    };
    let output = dir == "out".to_owned();
    let function = match t.get_int_attr(v, &"function".to_owned()) {
        Some(f) => f,
        None => 0,
    };
    if b.bind_handle(t, v, name.clone(), HandleType::Pin) {
        b.add_statement(
            Stmt { node: v, kind: StmtKind::PinInit { name, port, index, output, function } },
        );
    }
    proof {
        assert(b.stmts@.take(s0.len() as int) =~= s0);
        assert(b.handles@.take(h0.len() as int) =~= h0);
        assert(b.diags@.take(d0.len() as int) =~= d0);
    }
}

} // verus!
