//! The inference engine: runs the fixed rule catalogue over every
//! registered identity, pass after pass, until a full pass adds no new
//! constraint.
//!
//! A constraint discovered late for one identity may enable another rule to
//! fire on a later pass, so the engine repeats full passes until the state
//! is stable. Graphs are finite and constraints are drawn from a finite
//! lattice per identity, so a fixpoint is always reached; a configurable
//! maximum-pass ceiling is kept as a defensive fallback and surfaced as
//! [`AnalysisError::PassCeilingExceeded`] rather than silent truncation.

use vstd::prelude::*;

use crate::error::AnalysisError;
use crate::expression::TeView;
use crate::rule::{
    comparison_spec, equality_spec, mask_rule_spec, offset_size_spec, shift_spec,
    storage_key_spec, ComparisonRule, EqualityRule, MaskRule, OffsetSizeRule, ShiftRule,
    StorageKeyRule,
};
use crate::rule::{
    lemma_comparison_grows, lemma_equality_grows, lemma_mask_grows, lemma_offset_size_grows,
    lemma_shift_grows, lemma_storage_key_grows,
};
use crate::state::{
    lemma_grows_refl, lemma_grows_trans, state_grows, sum_lens, InferenceState, StateView,
};
use crate::unifier::{lemma_reduce_monotone, reduce_spec, specificity_le};
use crate::watchdog::Watchdog;

verus! {

/// One pass of the whole catalogue over the single identity `i`, in the
/// fixed catalogue order.
pub open spec fn catalogue_spec(s: StateView, i: int) -> StateView {
    equality_spec(
        storage_key_spec(
            shift_spec(comparison_spec(mask_rule_spec(offset_size_spec(s, i), i), i), i),
            i,
        ),
        i,
    )
}

/// One catalogue step never changes which values are registered.
pub proof fn lemma_catalogue_values(s: StateView, i: int)
    ensures
        catalogue_spec(s, i).values == s.values,
{
}

/// One full pass: the whole catalogue over every identity, in identity
/// order, starting at `i`.
pub open spec fn pass_from(s: StateView, i: int) -> StateView
    decreases s.values.len() - i
    via pass_from_dec
{
    if i < 0 || i >= s.values.len() {
        s
    } else {
        pass_from(catalogue_spec(s, i), i + 1)
    }
}

#[via_fn]
proof fn pass_from_dec(s: StateView, i: int) {
    if 0 <= i < s.values.len() {
        lemma_catalogue_values(s, i);
    }
}

/// One full pass of the catalogue over every registered identity.
pub open spec fn pass_spec(s: StateView) -> StateView {
    pass_from(s, 0)
}

/// The state that running passes to a fixpoint reaches, if it is reached
/// within `fuel` further passes after the first.
pub open spec fn run_model(s: StateView, fuel: nat) -> Option<StateView>
    decreases fuel,
{
    if pass_spec(s) == s {
        Some(s)
    } else if fuel == 0 {
        None
    } else {
        run_model(pass_spec(s), (fuel - 1) as nat)
    }
}

/// One catalogue step only extends the state.
pub proof fn lemma_catalogue_grows(s: StateView, i: int)
    ensures
        state_grows(s, catalogue_spec(s, i)),
{
    let s1 = offset_size_spec(s, i);
    let s2 = mask_rule_spec(s1, i);
    let s3 = comparison_spec(s2, i);
    let s4 = shift_spec(s3, i);
    let s5 = storage_key_spec(s4, i);
    lemma_offset_size_grows(s, i);
    lemma_mask_grows(s1, i);
    lemma_grows_trans(s, s1, s2);
    lemma_comparison_grows(s2, i);
    lemma_grows_trans(s, s2, s3);
    lemma_shift_grows(s3, i);
    lemma_grows_trans(s, s3, s4);
    lemma_storage_key_grows(s4, i);
    lemma_grows_trans(s, s4, s5);
    lemma_equality_grows(s5, i);
    lemma_grows_trans(s, s5, catalogue_spec(s, i));
}

/// A partial pass only extends the state.
proof fn lemma_pass_from_grows(s: StateView, i: int)
    ensures
        state_grows(s, pass_from(s, i)),
    decreases s.values.len() - i,
{
    if i < 0 || i >= s.values.len() {
        lemma_grows_refl(s);
    } else {
        lemma_catalogue_grows(s, i);
        lemma_catalogue_values(s, i);
        lemma_pass_from_grows(catalogue_spec(s, i), i + 1);
        lemma_grows_trans(s, catalogue_spec(s, i), pass_from(s, i));
    }
}

/// One full pass only extends the state: constraints are never removed.
pub proof fn lemma_pass_grows(s: StateView)
    ensures
        state_grows(s, pass_spec(s)),
{
    lemma_pass_from_grows(s, 0);
}

/// Monotonicity of inference: a full rule pass never makes any identity's
/// reduced type less specific, and never reverts it to `Any` — knowledge
/// only becomes more specific or conflicted.
pub proof fn lemma_pass_monotone(s: StateView, id: int)
    requires
        0 <= id < s.infs.len(),
    ensures
        specificity_le(reduce_spec(s.infs[id]), reduce_spec(pass_spec(s).infs[id])),
        reduce_spec(s.infs[id]) != TeView::Any ==> reduce_spec(pass_spec(s).infs[id])
            != TeView::Any,
{
    lemma_pass_grows(s);
    let pre = s.infs[id];
    let post = pass_spec(s).infs[id];
    assert(pre.is_prefix_of(post));
    let ext = post.subrange(pre.len() as int, post.len() as int);
    assert(post =~= pre + ext);
    lemma_reduce_monotone(pre, ext);
}

/// Applies the whole catalogue to identity `i`.
fn apply_catalogue(state: &mut InferenceState, i: usize) -> (changed: bool)
    requires
        old(state).wf(),
        i < old(state)@.values.len(),
    ensures
        final(state).wf(),
        final(state)@ == catalogue_spec(old(state)@, i as int),
        final(state)@.values == old(state)@.values,
        changed == (final(state)@ != old(state)@),
        changed ==> sum_lens(final(state)@.infs) > sum_lens(old(state)@.infs),
{
    let c1 = OffsetSizeRule::apply(state, i);
    let c2 = MaskRule::apply(state, i);
    let c3 = ComparisonRule::apply(state, i);
    let c4 = ShiftRule::apply(state, i);
    let c5 = StorageKeyRule::apply(state, i);
    let c6 = EqualityRule::apply(state, i);
    c1 || c2 || c3 || c4 || c5 || c6
}

/// Runs the whole catalogue over every registered identity once. Returns
/// whether any rule added any constraint.
pub fn run_catalogue_pass(state: &mut InferenceState) -> (changed: bool)
    requires
        old(state).wf(),
    ensures
        final(state).wf(),
        final(state)@ == pass_spec(old(state)@),
        final(state)@.values == old(state)@.values,
        changed == (final(state)@ != old(state)@),
{
    let ghost s0 = state@;
    let mut changed = false;
    let mut i: usize = 0;
    let n = state.len();
    while i < n
        invariant
            state.wf(),
            s0 == old(state)@,
            n == s0.values.len(),
            state@.values == s0.values,
            i <= n,
            pass_from(state@, i as int) == pass_from(s0, 0),
            changed == (state@ != s0),
            changed ==> sum_lens(state@.infs) > sum_lens(s0.infs),
        decreases n - i,
    {
        let ghost cur = state@;
        let c = apply_catalogue(state, i);
        proof {
            assert(pass_from(cur, i as int) == pass_from(catalogue_spec(cur, i as int), i as int
                + 1));
        }
        changed = changed || c;
        i = i + 1;
    }
    changed
}

/// Runs the rule catalogue to a fixpoint: full passes are repeated until
/// one adds no constraint. Before each pass the cancellation signal is
/// queried; expiry terminates the run with a timeout outcome. At most
/// `max_passes` passes are made; reaching the ceiling before stability is
/// an internal error. Running the engine on an already stable state adds
/// nothing, and a signal that is always expired cancels the run before any
/// pass, leaving the state untouched.
pub fn run_to_fixpoint<W: Watchdog>(
    state: &mut InferenceState,
    watchdog: &W,
    max_passes: usize,
) -> (r: Result<(), AnalysisError>)
    requires
        old(state).wf(),
        max_passes >= 1,
    ensures
        final(state).wf(),
        final(state)@.values == old(state)@.values,
        r is Ok ==> run_model(old(state)@, (max_passes - 1) as nat) == Some(final(state)@)
            && pass_spec(final(state)@) == final(state)@,
        pass_spec(old(state)@) == old(state)@ ==> final(state)@ == old(state)@,
        r matches Err(e) ==> e == AnalysisError::Cancelled || e
            == AnalysisError::PassCeilingExceeded,
        r == Err::<(), AnalysisError>(AnalysisError::PassCeilingExceeded) ==> run_model(
            old(state)@,
            (max_passes - 1) as nat,
        ) is None,
        watchdog.always_expired() ==> r == Err::<(), AnalysisError>(AnalysisError::Cancelled)
            && final(state)@ == old(state)@,
{
    let ghost s0 = state@;
    let mut fuel: usize = max_passes - 1;
    loop
        invariant
            state.wf(),
            s0 == old(state)@,
            state@.values == s0.values,
            run_model(state@, fuel as nat) == run_model(s0, (max_passes - 1) as nat),
            pass_spec(s0) == s0 ==> state@ == s0,
            watchdog.always_expired() ==> state@ == s0,
        decreases fuel,
    {
        if watchdog.has_expired() {
            return Err(AnalysisError::Cancelled);
        }
        let ghost cur = state@;
        let changed = run_catalogue_pass(state);
        if !changed {
            return Ok(());
        }
        if fuel == 0 {
            return Err(AnalysisError::PassCeilingExceeded);
        }
        fuel = fuel - 1;
    }
}

} // verus!
