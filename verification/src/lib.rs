//! A build-time compiler for declarative hardware descriptions.
//!
//! A description is a tree of named, nested configuration nodes (clock tree,
//! pin assignments, timers, UARTs, and the application's entry task).  The
//! compiler validates the tree, orders the nodes by their "must build after"
//! dependencies, and assembles a program: an ordered sequence of generated
//! initialization statements together with a table of named, typed handles
//! that the application body consumes.

pub mod builder;
pub mod compile;
pub mod diag;
pub mod graph;
pub mod hal;
pub mod node;
pub mod os_pt;
pub mod program;
pub mod registry;
