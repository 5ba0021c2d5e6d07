//! The compiler's output artifact: an ordered sequence of generated
//! initialization statements and a table of named, typed handles.

use vstd::prelude::*;

verus! {

/// The semantic type of a bound handle.
#[derive(Clone, Copy, PartialEq, Eq, Structural, Debug)]
pub enum HandleType {
    Pin,
    Timer,
    Uart,
}

/// One handle-table entry: a name, the handle's resolved type, and the node
/// that produced it.
#[derive(Debug, PartialEq)]
pub struct Handle {
    pub name: String,
    pub typ: HandleType,
    pub node: usize,
}

/// One generated initialization statement, tagged with the node that
/// produced it.
#[derive(Debug, PartialEq)]
pub struct Stmt {
    pub node: usize,
    pub kind: StmtKind,
}

/// What a statement does, in structured form; a code-generation backend
/// renders these into a target's entry point.
#[derive(Debug, PartialEq)]
pub enum StmtKind {
    /// Bring up the system clock from the named source.
    ClockInit { source: String, frequency: u32 },
    /// Create and configure one GPIO pin as a named handle.
    PinInit { name: String, port: String, index: u32, output: bool, function: u32 },
    /// Create and configure one timer counter as a named handle.
    TimerInit { name: String, slot: String, prescale: u32, periodic: bool },
    /// Create and configure one UART as a named handle.
    UartInit { name: String, slot: String, mode: String },
    /// Enter the application's task loop, feeding it the listed handles
    /// (argument name, handle name).
    TaskRun { entry: String, args: Vec<(String, String)> },
}

/// The assembled, immutable program.
#[derive(Debug, PartialEq)]
pub struct Program {
    pub stmts: Vec<Stmt>,
    pub handles: Vec<Handle>,
}

/// First handle bound under `name`, if any.
pub open spec fn spec_find_handle(handles: Seq<Handle>, name: Seq<char>) -> Option<Handle>
    decreases handles.len(),
{
    if handles.len() == 0 {
        None
    } else if handles[0].name@ == name {
        Some(handles[0])
    } else {
        spec_find_handle(handles.skip(1), name)
    }
}

pub proof fn lemma_find_handle_hit(handles: Seq<Handle>, name: Seq<char>, i: int)
    requires
        0 <= i < handles.len(),
        forall|k: int| 0 <= k < i ==> handles[k].name@ != name,
        handles[i].name@ == name,
    ensures
        spec_find_handle(handles, name) == Some(handles[i]),
    decreases i,
{
    if i > 0 {
        lemma_find_handle_hit(handles.skip(1), name, i - 1);
    }
}

pub proof fn lemma_find_handle_miss(handles: Seq<Handle>, name: Seq<char>)
    requires
        forall|k: int| 0 <= k < handles.len() ==> handles[k].name@ != name,
    ensures
        spec_find_handle(handles, name) is None,
    decreases handles.len(),
{
    if handles.len() > 0 {
        lemma_find_handle_miss(handles.skip(1), name);
    }
}

/// Look a handle up by name; returns its index.
pub fn find_handle(handles: &Vec<Handle>, name: &String) -> (r: Option<usize>)
    ensures
        match r {
            Some(i) => {
                &&& (i as int) < handles@.len()
                &&& handles@[i as int].name@ == name@
                &&& spec_find_handle(handles@, name@) == Some(handles@[i as int])
            },
            None => spec_find_handle(handles@, name@) is None,
        },
{
    let n = handles.len();
    let mut i: usize = 0;
    while i < n
        invariant
            n == handles@.len(),
            i <= n,
            forall|k: int| 0 <= k < i ==> handles@[k].name@ != name@,
        decreases n - i,
    {
        if handles[i].name == *name {
            proof {
                lemma_find_handle_hit(handles@, name@, i as int);
            }
            return Some(i);
        }
        i += 1;
    }
    proof {
        lemma_find_handle_miss(handles@, name@);
    }
    None
}

} // verus!
