//! Tests for registration, the rule catalogue and the fixpoint engine.

use storage_layout_analyzer::abi::{resolve, AbiType};
use storage_layout_analyzer::engine::{run_catalogue_pass, run_to_fixpoint};
use storage_layout_analyzer::error::AnalysisError;
use storage_layout_analyzer::expression::TE;
use storage_layout_analyzer::rule::{InferenceRule, OffsetSizeRule};
use storage_layout_analyzer::state::InferenceState;
use storage_layout_analyzer::value::{Provenance, SymbolicValue, Word, SVD};
use storage_layout_analyzer::watchdog::{ExpiredWatchdog, LazyWatchdog};

fn sv(data: SVD) -> SymbolicValue {
    SymbolicValue { provenance: Provenance::Synthetic, data }
}

fn lit(v: u64) -> SymbolicValue {
    SymbolicValue { provenance: Provenance::Constant, data: SVD::Literal { value: Word::from_u64(v) } }
}

fn mask_lit(bits: u16) -> SymbolicValue {
    SymbolicValue { provenance: Provenance::Constant, data: SVD::Literal { value: Word::mask(bits) } }
}

#[test]
fn creates_correct_equations_for_call_data() {
    let offset_v = sv(SVD::Unknown { id: 0 });
    let size_v = sv(SVD::Unknown { id: 1 });

    let mut state = InferenceState::empty();
    let offset_tv = state.register(offset_v);
    let size_tv = state.register(size_v);
    let value_tv = state.register(sv(SVD::CallData { id: 0, offset: offset_tv, size: size_tv }));

    OffsetSizeRule.infer(value_tv, &mut state).unwrap();

    assert!(state.inferences(offset_tv).contains(&TE::UnsignedWord { width: None }));
    assert!(state.inferences(size_tv).contains(&TE::UnsignedWord { width: None }));
    assert!(state.inferences(value_tv).is_empty());
}

#[test]
fn creates_correct_equations_for_code_copy() {
    let mut state = InferenceState::empty();
    let offset_tv = state.register(sv(SVD::Unknown { id: 0 }));
    let size_tv = state.register(sv(SVD::Unknown { id: 1 }));
    let value_tv = state.register(sv(SVD::CodeCopy { offset: offset_tv, size: size_tv }));

    OffsetSizeRule.infer(value_tv, &mut state).unwrap();

    assert!(state.inferences(offset_tv).contains(&TE::UnsignedWord { width: None }));
    assert!(state.inferences(size_tv).contains(&TE::UnsignedWord { width: None }));
    assert!(state.inferences(value_tv).is_empty());
}

#[test]
fn creates_correct_equations_for_return_data() {
    let mut state = InferenceState::empty();
    let offset_tv = state.register(sv(SVD::Unknown { id: 0 }));
    let size_tv = state.register(sv(SVD::Unknown { id: 1 }));
    let value_tv = state.register(sv(SVD::ReturnData { offset: offset_tv, size: size_tv }));

    OffsetSizeRule.infer(value_tv, &mut state).unwrap();

    assert!(state.inferences(offset_tv).contains(&TE::UnsignedWord { width: None }));
    assert!(state.inferences(size_tv).contains(&TE::UnsignedWord { width: None }));
    assert!(state.inferences(value_tv).is_empty());
}

#[test]
fn offset_size_rule_fires_within_one_engine_pass() {
    let mut state = InferenceState::empty();
    let offset_tv = state.register(sv(SVD::Unknown { id: 0 }));
    let size_tv = state.register(sv(SVD::Unknown { id: 1 }));
    let value_tv = state.register(sv(SVD::CallData { id: 7, offset: offset_tv, size: size_tv }));

    let changed = run_catalogue_pass(&mut state);

    assert!(changed);
    assert!(state.inferences(offset_tv).contains(&TE::UnsignedWord { width: None }));
    assert!(state.inferences(size_tv).contains(&TE::UnsignedWord { width: None }));
    assert!(state.inferences(value_tv).is_empty());
}

#[test]
fn registration_is_idempotent() {
    let mut state = InferenceState::empty();
    let a = state.register(sv(SVD::Unknown { id: 42 }));
    state.infer(a, TE::Bool);
    let b = state.register(sv(SVD::Unknown { id: 42 }));

    assert_eq!(a, b);
    assert_eq!(state.len(), 1);
    assert_eq!(state.inferences(a).len(), 1);
}

#[test]
fn registration_distinguishes_different_values() {
    let mut state = InferenceState::empty();
    let a = state.register(sv(SVD::Unknown { id: 0 }));
    let b = state.register(sv(SVD::Unknown { id: 1 }));
    assert_ne!(a, b);
    assert_eq!(state.len(), 2);
}

#[test]
fn duplicate_constraints_are_not_accumulated() {
    let mut state = InferenceState::empty();
    let a = state.register(sv(SVD::Unknown { id: 0 }));
    assert!(state.infer(a, TE::Bool));
    assert!(!state.infer(a, TE::Bool));
    assert_eq!(state.inferences(a).len(), 1);
}

#[test]
fn fixpoint_run_is_idempotent() {
    let mut state = InferenceState::empty();
    let offset_tv = state.register(sv(SVD::Unknown { id: 0 }));
    let size_tv = state.register(sv(SVD::Unknown { id: 1 }));
    let _ = state.register(sv(SVD::CallData { id: 0, offset: offset_tv, size: size_tv }));

    run_to_fixpoint(&mut state, &LazyWatchdog, 64).unwrap();

    // The engine reached a fixpoint: a further full pass adds nothing, and
    // a further full engine run changes nothing either.
    assert!(!run_catalogue_pass(&mut state));
    run_to_fixpoint(&mut state, &LazyWatchdog, 64).unwrap();
    assert!(!run_catalogue_pass(&mut state));
}

#[test]
fn equality_rule_propagates_across_passes() {
    let mut state = InferenceState::empty();
    let a = state.register(sv(SVD::Unknown { id: 0 }));
    let b = state.register(sv(SVD::Unknown { id: 1 }));
    let _eq = state.register(sv(SVD::Equals { left: a, right: b }));
    let m = state.register(mask_lit(160));
    let _and = state.register(sv(SVD::And { left: a, right: m }));

    // The mask evidence for `a` appears after the equality node in identity
    // order, so sharing it with `b` needs a second pass.
    run_to_fixpoint(&mut state, &LazyWatchdog, 64).unwrap();

    assert!(state.inferences(a).contains(&TE::Address));
    assert!(state.inferences(b).contains(&TE::Address));
}

#[test]
fn rules_reject_unregistered_identities() {
    let mut state = InferenceState::empty();
    let r = OffsetSizeRule.infer(5, &mut state);
    assert_eq!(r, Err(AnalysisError::UnregisteredIdentity));
}

#[test]
fn cancellation_stops_the_engine_before_any_pass() {
    let mut state = InferenceState::empty();
    let offset_tv = state.register(sv(SVD::Unknown { id: 0 }));
    let size_tv = state.register(sv(SVD::Unknown { id: 1 }));
    let value_tv = state.register(sv(SVD::CallData { id: 0, offset: offset_tv, size: size_tv }));

    let r = run_to_fixpoint(&mut state, &ExpiredWatchdog, 64);

    assert_eq!(r, Err(AnalysisError::Cancelled));
    assert!(state.inferences(offset_tv).is_empty());
    assert!(state.inferences(size_tv).is_empty());
    assert!(state.inferences(value_tv).is_empty());
}

#[test]
fn resolution_applies_the_conflict_policy() {
    let mut state = InferenceState::empty();
    let a = state.register(sv(SVD::Unknown { id: 0 }));
    state.infer(a, TE::UnsignedWord { width: None });
    state.infer(a, TE::UnsignedWord { width: Some(256) });
    assert_eq!(resolve(&state, a), AbiType::UInt { size: Some(256) });

    let b = state.register(sv(SVD::Unknown { id: 1 }));
    state.infer(b, TE::Bool);
    state.infer(b, TE::Address);
    assert_eq!(
        resolve(&state, b),
        AbiType::ConflictedType { candidates: vec![AbiType::Bool, AbiType::Address] }
    );

    let c = state.register(sv(SVD::Unknown { id: 2 }));
    assert_eq!(resolve(&state, c), AbiType::Any);
}

#[test]
fn mask_literal_widths_are_recognized() {
    assert_eq!(Word::mask(160).mask_width(), Some(160));
    assert_eq!(Word::mask(256).mask_width(), Some(256));
    assert_eq!(Word::from_u64(7).mask_width(), Some(3));
    assert_eq!(Word::from_u64(5).mask_width(), None);
    assert_eq!(lit(0).data, SVD::Literal { value: Word::from_u64(0) });
}
