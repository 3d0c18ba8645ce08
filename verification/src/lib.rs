//! A small dataflow execution engine.
//!
//! Programs are finite sets of operator instances ("agents") connected by
//! named, append-only broadcast channels ("pipes").  A build phase deduces
//! one element type per pipe key by a constraint-propagation fixpoint, then
//! materializes the pipes and the agents; a run phase advances every live
//! agent one step per tick until no agent can make further progress.

pub mod channel;
pub mod cli_arg;
pub mod controller;
pub mod deduct;
pub mod elem;
pub mod op_imm;
pub mod operator;
pub mod pipe;
pub mod pipe_board;
pub mod type_enum;

use vstd::prelude::*;

verus! {

/// The errors of the build phase.  Once an `Executor` exists no error is
/// possible: running is exhaustion, not failure.
#[derive(Clone, Copy, Debug, PartialEq, Eq, Structural)]
pub enum BuildError {
    /// A pipe key was required at two different element types, or a handle
    /// was requested at a type other than the pipe's bound type.
    TypeConflict,
    /// A pipe key needed at build time has no binding in the frozen index.
    Unresolved,
    /// The resolved type combination has no operator implementation yet;
    /// reported distinctly from a type conflict.
    Unsupported,
    /// An immediate configuration literal could not be parsed.
    BadImmediate,
}

} // verus!
