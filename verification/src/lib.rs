//! Storage layout reconstruction core for compiled smart contracts.
//!
//! The crate takes a deduplicated, acyclic graph of symbolic values — the
//! result of an external symbolic-execution pass over a contract's bytecode
//! — and derives, slot by slot, the most specific consistent ABI-level type
//! that the contract's code implies for its storage, including detection of
//! several independently-typed fields packed into one 32-byte slot.
//!
//! The pipeline: every graph node is registered into an [`InferenceState`];
//! a fixed catalogue of inference rules ([`rule`]) is run to a fixpoint by
//! the engine ([`engine`]), accumulating partial type knowledge as type
//! expressions ([`TE`]); the unifier ([`unifier`]) reduces each node's
//! accumulated constraints to a single best-known type; and the layout
//! builder ([`analyzer`]) groups storage accesses by concrete slot and bit
//! offset into a [`StorageLayout`].
//!
//! Contradictory evidence never aborts a run: it degrades the affected
//! place to an explicit conflicted type carrying every candidate seen.
//! Only broken caller invariants and cooperative cancellation
//! ([`watchdog`]) end a run early.

pub mod abi;
pub mod analyzer;
pub mod constant;
pub mod engine;
pub mod error;
pub mod expression;
pub mod knowledge;
pub mod layout;
pub mod rule;
pub mod state;
pub mod unifier;
pub mod value;
pub mod watchdog;

pub use abi::AbiType;
pub use analyzer::analyze;
pub use error::AnalysisError;
pub use expression::TE;
pub use layout::{StorageLayout, StorageSlot};
pub use state::InferenceState;
