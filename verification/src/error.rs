//! Run-level failures of an analysis.
//!
//! Only broken caller invariants and cancellation abort a run; type
//! conflicts and unresolvable storage keys are ordinary outcomes encoded in
//! the output data.

use vstd::prelude::*;

verus! {

/// A failure that aborts a whole analysis run.
#[derive(Clone, Copy, Debug, PartialEq, Eq, Structural)]
pub enum AnalysisError {
    /// The input graph refers to a node at or after the referring node, so
    /// it is not the promised acyclic, topologically ordered graph.
    CyclicGraph,
    /// A rule was asked to operate on an identity that was never
    /// registered: a broken invariant of the caller.
    UnregisteredIdentity,
    /// The cancellation signal reported that the analysis budget expired.
    Cancelled,
    /// The defensive ceiling on rule passes was reached before a fixpoint.
    PassCeilingExceeded,
}

} // verus!
