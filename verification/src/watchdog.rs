//! Cooperative cancellation.
//!
//! The engine queries an externally supplied signal before each rule pass;
//! when the signal reports expiry, the run terminates with a timeout
//! outcome. The query must be cheap, repeatable and side-effect free.

use vstd::prelude::*;

verus! {

/// An externally owned execution budget, queried cooperatively.
pub trait Watchdog {
    /// Whether this signal reports expiry unconditionally, whatever the
    /// time or remaining budget. Nothing can be promised of an ordinary
    /// clock, but a signal that is always expired cancels every run before
    /// its first rule pass.
    spec fn always_expired(&self) -> bool;

    /// Whether the budget for this analysis has expired.
    fn has_expired(&self) -> (r: bool)
        ensures
            self.always_expired() ==> r,
    ;
}

/// A watchdog that never expires: analysis runs to completion.
#[derive(Clone, Copy, Debug, PartialEq, Eq)]
pub struct LazyWatchdog;

impl Watchdog for LazyWatchdog {
    open spec fn always_expired(&self) -> bool {
        false
    }

    fn has_expired(&self) -> bool {
        false
    }
}

/// A watchdog that is always expired: every run is cancelled before its
/// first rule pass.
#[derive(Clone, Copy, Debug, PartialEq, Eq)]
pub struct ExpiredWatchdog;

impl Watchdog for ExpiredWatchdog {
    open spec fn always_expired(&self) -> bool {
        true
    }

    fn has_expired(&self) -> bool {
        true
    }
}

} // verus!
