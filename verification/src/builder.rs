//! The builder: the mutable state of one compilation.
//!
//! Driver handlers call into this mutation API: binding a node's
//! materializer, declaring dependency edges, appending generated statements,
//! and binding named handles.  The node tree itself stays immutable; all
//! per-node compilation state (materializer, resolved handle type) lives
//! here, owned by the single compilation pass.

use vstd::prelude::*;

use crate::diag::{
    is_double_bind, is_duplicate_handle, Diagnostic, ErrorDetail, ErrorKind, Severity,
};
use crate::graph::edges_in_range;
use crate::node::Tree;
use crate::program::{spec_find_handle, find_handle, Handle, HandleType, Stmt};

verus! {

/// The closed set of node kinds the materializer registry dispatches on.
/// Extending the compiler to a new kind means adding a variant here together
/// with its `verify`/`build` handlers at the registration point.
#[derive(Clone, Copy, PartialEq, Eq, Structural, Debug)]
pub enum Materializer {
    /// The `mcu` root: a purely structural container.
    Mcu,
    /// The clock-source node.
    Clock,
    /// The `gpio` container.
    Gpio,
    /// One GPIO port (a container of pins).
    Port,
    /// One GPIO pin.
    Pin,
    /// The `timer` container.
    TimerGroup,
    /// One timer counter.
    Timer,
    /// The `uart` container.
    UartGroup,
    /// One UART.
    Uart,
    /// The `os` root: a purely structural container.
    Os,
    /// One application task.
    Task,
    /// The `args` block of a task.
    Args,
}

/// Mutable compilation state shared by all handlers.
pub struct Builder {
    /// Bound materializer per node; bound at most once.
    pub materializers: Vec<Option<Materializer>>,
    /// Dependency edges `(dependent, dependency)`.
    pub edges: Vec<(usize, usize)>,
    /// Accumulated diagnostics.
    pub diags: Vec<Diagnostic>,
    /// Generated statements, in build order.
    pub stmts: Vec<Stmt>,
    /// Bound handles, in build order.
    pub handles: Vec<Handle>,
    /// Resolved handle type per node, set when a handle is bound.
    pub resolved: Vec<Option<HandleType>>,
}

impl Builder {
    pub open spec fn wf(self, n: int) -> bool {
        &&& self.materializers@.len() == n
        &&& self.resolved@.len() == n
        &&& edges_in_range(self.edges@, n)
    }

    pub fn new(n: usize) -> (r: Builder)
        ensures
            r.wf(n as int),
            forall|i: int| 0 <= i < n as int ==> r.materializers@[i] is None,
            forall|i: int| 0 <= i < n as int ==> r.resolved@[i] is None,
            r.edges@.len() == 0,
            r.diags@.len() == 0,
            r.stmts@.len() == 0,
            r.handles@.len() == 0,
    {
        Builder {
            materializers: vec![None; n],
            edges: Vec::new(),
            diags: Vec::new(),
            stmts: Vec::new(),
            handles: Vec::new(),
            resolved: vec![None; n],
        }
    }

    /// Bind `node`'s materializer.  Binding twice is a driver-registration
    /// bug: it leaves the first binding in place and records a fatal
    /// internal-contract diagnostic.
    pub fn bind(&mut self, t: &Tree, node: usize, m: Materializer)
        requires
            t.wf(),
            t.valid(node as int),
            old(self).wf(t.node_count()),
        ensures
            final(self).wf(t.node_count()),
            final(self).edges == old(self).edges,
            final(self).stmts == old(self).stmts,
            final(self).handles == old(self).handles,
            final(self).resolved == old(self).resolved,
            match old(self).materializers@[node as int] {
                Some(_) => {
                    &&& final(self).materializers == old(self).materializers
                    &&& final(self).diags@.len() == old(self).diags@.len() + 1
                    &&& forall|i: int|
                        0 <= i < old(self).diags@.len() ==> final(self).diags@[i] == old(
                            self,
                        ).diags@[i]
                    &&& is_double_bind(
                        final(self).diags@.last(),
                        t.spec_full_path(node as int),
                    )
                    &&& final(self).diags@.last().is_error()
                },
                None => {
                    &&& final(self).materializers@ == old(self).materializers@.update(
                        node as int,
                        Some(m),
                    )
                    &&& final(self).diags == old(self).diags
                },
            },
    {
        if self.materializers[node].is_some() {
            let d = Diagnostic {
                severity: Severity::Fatal,
                kind: ErrorKind::InternalContractError,
                path: t.full_path(node),
                detail: ErrorDetail::DoubleBind,
            };
            self.diags.push(d);
        } else {
            self.materializers[node] = Some(m);
        }
    }

    /// Declare that `dependent` must be built strictly after `dependency`.
    pub fn add_dependency(&mut self, t: &Tree, dependent: usize, dependency: usize)
        requires
            old(self).wf(t.node_count()),
            t.valid(dependent as int),
            t.valid(dependency as int),
        ensures
            final(self).wf(t.node_count()),
            final(self).edges@ == old(self).edges@.push((dependent, dependency)),
            final(self).materializers == old(self).materializers,
            final(self).diags == old(self).diags,
            final(self).stmts == old(self).stmts,
            final(self).handles == old(self).handles,
            final(self).resolved == old(self).resolved,
    {
        self.edges.push((dependent, dependency));
    }

    /// Append one generated statement to the ordered init sequence.
    pub fn add_statement(&mut self, stmt: Stmt)
        ensures
            final(self).stmts@ == old(self).stmts@.push(stmt),
            final(self).materializers == old(self).materializers,
            final(self).edges == old(self).edges,
            final(self).diags == old(self).diags,
            final(self).handles == old(self).handles,
            final(self).resolved == old(self).resolved,
    {
        self.stmts.push(stmt);
    }

    /// Record a diagnostic.
    pub fn report(&mut self, d: Diagnostic)
        ensures
            final(self).diags@ == old(self).diags@.push(d),
            final(self).materializers == old(self).materializers,
            final(self).edges == old(self).edges,
            final(self).stmts == old(self).stmts,
            final(self).handles == old(self).handles,
            final(self).resolved == old(self).resolved,
    {
        self.diags.push(d);
    }

    /// Bind a named handle of type `typ`, produced by `node`.  A duplicate
    /// name is refused with a recoverable diagnostic; the first binding
    /// stays.
    pub fn bind_handle(&mut self, t: &Tree, node: usize, name: String, typ: HandleType) -> (r:
        bool)
        requires
            t.wf(),
            t.valid(node as int),
            old(self).wf(t.node_count()),
        ensures
            final(self).wf(t.node_count()),
            final(self).materializers == old(self).materializers,
            final(self).edges == old(self).edges,
            final(self).stmts == old(self).stmts,
            r == (spec_find_handle(old(self).handles@, name@) is None),
            match spec_find_handle(old(self).handles@, name@) {
                Some(_) => {
                    &&& final(self).handles == old(self).handles
                    &&& final(self).resolved == old(self).resolved
                    &&& final(self).diags@.len() == old(self).diags@.len() + 1
                    &&& forall|i: int|
                        0 <= i < old(self).diags@.len() ==> final(self).diags@[i] == old(
                            self,
                        ).diags@[i]
                    &&& is_duplicate_handle(
                        final(self).diags@.last(),
                        t.spec_full_path(node as int),
                        name@,
                    )
                    &&& final(self).diags@.last().is_error()
                },
                None => {
                    &&& final(self).handles@ == old(self).handles@.push(
                        (Handle { name, typ, node }),
                    )
                    &&& final(self).resolved@ == old(self).resolved@.update(
                        node as int,
                        Some(typ),
                    )
                    &&& final(self).diags == old(self).diags
                },
            },
    {
        match find_handle(&self.handles, &name) {
            Some(_) => {
                let d = Diagnostic {
                    severity: Severity::Recoverable,
                    kind: ErrorKind::StructuralError,
                    path: t.full_path(node),
                    detail: ErrorDetail::DuplicateHandle { name },
                };
                self.diags.push(d);
                false
            },
            None => {
                self.handles.push(Handle { name, typ, node });
                self.resolved[node] = Some(typ);
                true
            },
        }
    }
}

} // verus!
