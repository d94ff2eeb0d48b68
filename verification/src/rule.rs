//! The inference rule catalogue.
//!
//! Each rule owns exactly one structural pattern and one set of constraints:
//! it inspects the payload of one registered value and asserts constraints
//! on the value's operands and/or on the value itself. Rules never remove
//! constraints and never need to know about each other. The fixed catalogue
//! is run to a fixpoint by [`crate::engine`].

use vstd::prelude::*;

use crate::error::AnalysisError;
use crate::expression::{TeView, TE};
use crate::state::{
    infer_spec, lemma_grows_refl, lemma_grows_trans, lemma_infer_grows, state_grows, sum_lens,
    InferenceState, StateView,
};
use crate::unifier::{reduce, reduce_spec};
use crate::value::{mask_width_spec, SVD};

verus! {

/// The width-less unsigned word constraint.
pub open spec fn uword() -> TeView {
    TeView::UnsignedWord { width: None }
}

/// The constraint asserted for a value masked to `bits` low bits: the
/// 160-bit mask isolates an address, any other an unsigned word of that
/// width.
pub open spec fn mask_te(bits: u16) -> TeView {
    if bits == 160 {
        TeView::Address
    } else {
        TeView::UnsignedWord { width: Some(bits) }
    }
}

/// The mask width of the literal registered at `id`, if it is a literal
/// all-ones mask.
pub open spec fn literal_mask_width(s: StateView, id: int) -> Option<u16> {
    match s.values[id].data {
        SVD::Literal { value } => mask_width_spec(value),
        _ => None,
    }
}

/// What the offset/size rule adds: for call data, code copies and return
/// data, both the offset and the size operand are unsigned machine words.
pub open spec fn offset_size_spec(s: StateView, i: int) -> StateView {
    match s.values[i].data {
        SVD::CallData { offset, size, .. } => infer_spec(
            infer_spec(s, offset as int, uword()),
            size as int,
            uword(),
        ),
        SVD::CodeCopy { offset, size } => infer_spec(
            infer_spec(s, offset as int, uword()),
            size as int,
            uword(),
        ),
        SVD::ReturnData { offset, size } => infer_spec(
            infer_spec(s, offset as int, uword()),
            size as int,
            uword(),
        ),
        _ => s,
    }
}

/// What the mask rule adds: a conjunction with a literal all-ones mask of
/// `n` bits types the other operand, and the conjunction itself, as the
/// `n`-bit form.
pub open spec fn mask_rule_spec(s: StateView, i: int) -> StateView {
    match s.values[i].data {
        SVD::And { left, right } => match (
            literal_mask_width(s, left as int),
            literal_mask_width(s, right as int),
        ) {
            (Some(n), _) => infer_spec(infer_spec(s, right as int, mask_te(n)), i, mask_te(n)),
            (None, Some(n)) => infer_spec(infer_spec(s, left as int, mask_te(n)), i, mask_te(n)),
            (None, None) => s,
        },
        _ => s,
    }
}

/// What the comparison rule adds: comparisons produce booleans, and the
/// ordered comparisons read their operands as unsigned words.
pub open spec fn comparison_spec(s: StateView, i: int) -> StateView {
    match s.values[i].data {
        SVD::LessThan { left, right } => infer_spec(
            infer_spec(infer_spec(s, left as int, uword()), right as int, uword()),
            i,
            TeView::Bool,
        ),
        SVD::GreaterThan { left, right } => infer_spec(
            infer_spec(infer_spec(s, left as int, uword()), right as int, uword()),
            i,
            TeView::Bool,
        ),
        SVD::Equals { .. } => infer_spec(s, i, TeView::Bool),
        _ => s,
    }
}

/// What the shift rule adds: a shift amount is an unsigned machine word.
pub open spec fn shift_spec(s: StateView, i: int) -> StateView {
    match s.values[i].data {
        SVD::ShiftLeft { shift, .. } => infer_spec(s, shift as int, uword()),
        SVD::ShiftRight { shift, .. } => infer_spec(s, shift as int, uword()),
        _ => s,
    }
}

/// What the storage key rule adds: the slot-addressing operand of a storage
/// read, a storage write or a mapping access is an unsigned machine word.
pub open spec fn storage_key_spec(s: StateView, i: int) -> StateView {
    match s.values[i].data {
        SVD::StorageRead { key } => infer_spec(s, key as int, uword()),
        SVD::StorageWrite { key, .. } => infer_spec(s, key as int, uword()),
        SVD::MappingAccess { slot, .. } => infer_spec(s, slot as int, uword()),
        _ => s,
    }
}

/// What the equality rule adds: two values compared for equality share
/// their reduced type evidence, in both directions; no evidence is shared
/// while a side reduces to `Any`.
pub open spec fn equality_spec(s: StateView, i: int) -> StateView {
    match s.values[i].data {
        SVD::Equals { left, right } => {
            let tl = reduce_spec(s.infs[left as int]);
            let tr = reduce_spec(s.infs[right as int]);
            let s1 = if tl != TeView::Any {
                infer_spec(s, right as int, tl)
            } else {
                s
            };
            if tr != TeView::Any {
                infer_spec(s1, left as int, tr)
            } else {
                s1
            }
        },
        _ => s,
    }
}

/// Decides whether a type expression is `Any`.
fn te_is_any(t: &TE) -> (r: bool)
    ensures
        r == (t@ == TeView::Any),
{
    match t {
        TE::Any => true,
        TE::UnsignedWord { .. } => false,
        TE::SignedWord { .. } => false,
        TE::Bool => false,
        TE::Address => false,
        TE::Bytes { .. } => false,
        TE::Mapping { .. } => false,
        TE::Conflict { .. } => false,
    }
}

/// The mask width of the literal registered at `id`, if any.
fn literal_mask(state: &InferenceState, id: usize) -> (r: Option<u16>)
    requires
        id < state@.values.len(),
    ensures
        r == literal_mask_width(state@, id as int),
{
    match state.value(id).data {
        SVD::Literal { value } => value.mask_width(),
        _ => None,
    }
}

/// This rule creates the following equations for any expressions of the
/// following form:
///
/// ```text
///   call_data(id, offset, size)
///   code_copy(    offset, size)
/// return_data(    offset, size)
///                    a      b
/// ```
///
/// - `a = unsigned`
/// - `b = unsigned`
#[derive(Copy, Clone, Debug, Eq, Hash, PartialEq)]
pub struct OffsetSizeRule;

/// This rule types the non-literal side of a conjunction with a literal
/// all-ones mask, and the conjunction itself: the 160-bit mask as an
/// address, any other as an unsigned word of the mask's width.
#[derive(Copy, Clone, Debug, Eq, Hash, PartialEq)]
pub struct MaskRule;

/// This rule types comparisons as booleans and the operands of ordered
/// comparisons as unsigned words.
#[derive(Copy, Clone, Debug, Eq, Hash, PartialEq)]
pub struct ComparisonRule;

/// This rule types shift amounts as unsigned words.
#[derive(Copy, Clone, Debug, Eq, Hash, PartialEq)]
pub struct ShiftRule;

/// This rule types the slot-addressing operands of storage reads, storage
/// writes and mapping accesses as unsigned words.
#[derive(Copy, Clone, Debug, Eq, Hash, PartialEq)]
pub struct StorageKeyRule;

/// This rule shares reduced type evidence between the two sides of an
/// equality comparison.
#[derive(Copy, Clone, Debug, Eq, Hash, PartialEq)]
pub struct EqualityRule;

impl OffsetSizeRule {
    /// Applies the rule to identity `value`; returns whether the state
    /// changed.
    pub fn apply(state: &mut InferenceState, value: usize) -> (changed: bool)
        requires
            old(state).wf(),
            value < old(state)@.values.len(),
        ensures
            final(state).wf(),
            final(state)@ == offset_size_spec(old(state)@, value as int),
            final(state)@.values == old(state)@.values,
            changed == (final(state)@ != old(state)@),
            changed ==> sum_lens(final(state)@.infs) > sum_lens(old(state)@.infs),
    {
        let d = state.value(value).data;
        match d {
            SVD::CallData { offset, size, .. }
            | SVD::CodeCopy { offset, size }
            | SVD::ReturnData { offset, size } => {
                let c1 = state.infer(offset, TE::unsigned_word(None));
                let c2 = state.infer(size, TE::unsigned_word(None));
                c1 || c2
            },
            _ => false,
        }
    }
}

impl MaskRule {
    /// Applies the rule to identity `value`; returns whether the state
    /// changed.
    pub fn apply(state: &mut InferenceState, value: usize) -> (changed: bool)
        requires
            old(state).wf(),
            value < old(state)@.values.len(),
        ensures
            final(state).wf(),
            final(state)@ == mask_rule_spec(old(state)@, value as int),
            final(state)@.values == old(state)@.values,
            changed == (final(state)@ != old(state)@),
            changed ==> sum_lens(final(state)@.infs) > sum_lens(old(state)@.infs),
    {
        let d = state.value(value).data;
        match d {
            SVD::And { left, right } => {
                let lw = literal_mask(state, left);
                let rw = literal_mask(state, right);
                match (lw, rw) {
                    (Some(n), _) => {
                        let c1 = state.infer(right, Self::mask_expr(n));
                        let c2 = state.infer(value, Self::mask_expr(n));
                        c1 || c2
                    },
                    (None, Some(n)) => {
                        let c1 = state.infer(left, Self::mask_expr(n));
                        let c2 = state.infer(value, Self::mask_expr(n));
                        c1 || c2
                    },
                    (None, None) => false,
                }
            },
            _ => false,
        }
    }

    /// The constraint asserted for a value masked to `bits` low bits.
    fn mask_expr(bits: u16) -> (r: TE)
        ensures
            r@ == mask_te(bits),
    {
        if bits == 160 {
            TE::Address
        } else {
            TE::UnsignedWord { width: Some(bits) }
        }
    }
}

impl ComparisonRule {
    /// Applies the rule to identity `value`; returns whether the state
    /// changed.
    pub fn apply(state: &mut InferenceState, value: usize) -> (changed: bool)
        requires
            old(state).wf(),
            value < old(state)@.values.len(),
        ensures
            final(state).wf(),
            final(state)@ == comparison_spec(old(state)@, value as int),
            final(state)@.values == old(state)@.values,
            changed == (final(state)@ != old(state)@),
            changed ==> sum_lens(final(state)@.infs) > sum_lens(old(state)@.infs),
    {
        let d = state.value(value).data;
        match d {
            SVD::LessThan { left, right } | SVD::GreaterThan { left, right } => {
                let c1 = state.infer(left, TE::unsigned_word(None));
                let c2 = state.infer(right, TE::unsigned_word(None));
                let c3 = state.infer(value, TE::Bool);
                c1 || c2 || c3
            },
            SVD::Equals { .. } => state.infer(value, TE::Bool),
            _ => false,
        }
    }
}

impl ShiftRule {
    /// Applies the rule to identity `value`; returns whether the state
    /// changed.
    pub fn apply(state: &mut InferenceState, value: usize) -> (changed: bool)
        requires
            old(state).wf(),
            value < old(state)@.values.len(),
        ensures
            final(state).wf(),
            final(state)@ == shift_spec(old(state)@, value as int),
            final(state)@.values == old(state)@.values,
            changed == (final(state)@ != old(state)@),
            changed ==> sum_lens(final(state)@.infs) > sum_lens(old(state)@.infs),
    {
        let d = state.value(value).data;
        match d {
            SVD::ShiftLeft { shift, .. } | SVD::ShiftRight { shift, .. } => state.infer(
                shift,
                TE::unsigned_word(None),
            ),
            _ => false,
        }
    }
}

impl StorageKeyRule {
    /// Applies the rule to identity `value`; returns whether the state
    /// changed.
    pub fn apply(state: &mut InferenceState, value: usize) -> (changed: bool)
        requires
            old(state).wf(),
            value < old(state)@.values.len(),
        ensures
            final(state).wf(),
            final(state)@ == storage_key_spec(old(state)@, value as int),
            final(state)@.values == old(state)@.values,
            changed == (final(state)@ != old(state)@),
            changed ==> sum_lens(final(state)@.infs) > sum_lens(old(state)@.infs),
    {
        let d = state.value(value).data;
        match d {
            SVD::StorageRead { key } => state.infer(key, TE::unsigned_word(None)),
            SVD::StorageWrite { key, .. } => state.infer(key, TE::unsigned_word(None)),
            SVD::MappingAccess { slot, .. } => state.infer(slot, TE::unsigned_word(None)),
            _ => false,
        }
    }
}

impl EqualityRule {
    /// Applies the rule to identity `value`; returns whether the state
    /// changed.
    pub fn apply(state: &mut InferenceState, value: usize) -> (changed: bool)
        requires
            old(state).wf(),
            value < old(state)@.values.len(),
        ensures
            final(state).wf(),
            final(state)@ == equality_spec(old(state)@, value as int),
            final(state)@.values == old(state)@.values,
            changed == (final(state)@ != old(state)@),
            changed ==> sum_lens(final(state)@.infs) > sum_lens(old(state)@.infs),
    {
        let d = state.value(value).data;
        match d {
            SVD::Equals { left, right } => {
                let tl = reduce(state.inferences(left));
                let tr = reduce(state.inferences(right));
                let mut changed = false;
                if !te_is_any(&tl) {
                    let c = state.infer(right, tl);
                    changed = changed || c;
                }
                if !te_is_any(&tr) {
                    let c = state.infer(left, tr);
                    changed = changed || c;
                }
                changed
            },
            _ => false,
        }
    }
}

/// A two-constraint rule step only extends the state.
pub proof fn lemma_infer2_grows(s: StateView, a: int, ta: TeView, b: int, tb: TeView)
    ensures
        state_grows(s, infer_spec(infer_spec(s, a, ta), b, tb)),
{
    lemma_infer_grows(s, a, ta);
    lemma_infer_grows(infer_spec(s, a, ta), b, tb);
    lemma_grows_trans(s, infer_spec(s, a, ta), infer_spec(infer_spec(s, a, ta), b, tb));
}

/// The offset/size rule only extends the state.
pub proof fn lemma_offset_size_grows(s: StateView, i: int)
    ensures
        state_grows(s, offset_size_spec(s, i)),
{
    lemma_grows_refl(s);
    match s.values[i].data {
        SVD::CallData { offset, size, .. } => {
            lemma_infer2_grows(s, offset as int, uword(), size as int, uword());
        },
        SVD::CodeCopy { offset, size } => {
            lemma_infer2_grows(s, offset as int, uword(), size as int, uword());
        },
        SVD::ReturnData { offset, size } => {
            lemma_infer2_grows(s, offset as int, uword(), size as int, uword());
        },
        _ => {},
    }
}

/// The mask rule only extends the state.
pub proof fn lemma_mask_grows(s: StateView, i: int)
    ensures
        state_grows(s, mask_rule_spec(s, i)),
{
    lemma_grows_refl(s);
    match s.values[i].data {
        SVD::And { left, right } => {
            match (
                literal_mask_width(s, left as int),
                literal_mask_width(s, right as int),
            ) {
                (Some(n), _) => {
                    lemma_infer2_grows(s, right as int, mask_te(n), i, mask_te(n));
                },
                (None, Some(n)) => {
                    lemma_infer2_grows(s, left as int, mask_te(n), i, mask_te(n));
                },
                (None, None) => {},
            }
        },
        _ => {},
    }
}

/// The comparison rule only extends the state.
pub proof fn lemma_comparison_grows(s: StateView, i: int)
    ensures
        state_grows(s, comparison_spec(s, i)),
{
    lemma_grows_refl(s);
    match s.values[i].data {
        SVD::LessThan { left, right } => {
            lemma_infer2_grows(s, left as int, uword(), right as int, uword());
            let s2 = infer_spec(infer_spec(s, left as int, uword()), right as int, uword());
            lemma_infer_grows(s2, i, TeView::Bool);
            lemma_grows_trans(s, s2, infer_spec(s2, i, TeView::Bool));
        },
        SVD::GreaterThan { left, right } => {
            lemma_infer2_grows(s, left as int, uword(), right as int, uword());
            let s2 = infer_spec(infer_spec(s, left as int, uword()), right as int, uword());
            lemma_infer_grows(s2, i, TeView::Bool);
            lemma_grows_trans(s, s2, infer_spec(s2, i, TeView::Bool));
        },
        SVD::Equals { .. } => {
            lemma_infer_grows(s, i, TeView::Bool);
        },
        _ => {},
    }
}

/// The shift rule only extends the state.
pub proof fn lemma_shift_grows(s: StateView, i: int)
    ensures
        state_grows(s, shift_spec(s, i)),
{
    lemma_grows_refl(s);
    match s.values[i].data {
        SVD::ShiftLeft { shift, .. } => {
            lemma_infer_grows(s, shift as int, uword());
        },
        SVD::ShiftRight { shift, .. } => {
            lemma_infer_grows(s, shift as int, uword());
        },
        _ => {},
    }
}

/// The storage key rule only extends the state.
pub proof fn lemma_storage_key_grows(s: StateView, i: int)
    ensures
        state_grows(s, storage_key_spec(s, i)),
{
    lemma_grows_refl(s);
    match s.values[i].data {
        SVD::StorageRead { key } => {
            lemma_infer_grows(s, key as int, uword());
        },
        SVD::StorageWrite { key, .. } => {
            lemma_infer_grows(s, key as int, uword());
        },
        SVD::MappingAccess { slot, .. } => {
            lemma_infer_grows(s, slot as int, uword());
        },
        _ => {},
    }
}

/// The equality rule only extends the state.
pub proof fn lemma_equality_grows(s: StateView, i: int)
    ensures
        state_grows(s, equality_spec(s, i)),
{
    lemma_grows_refl(s);
    match s.values[i].data {
        SVD::Equals { left, right } => {
            let tl = reduce_spec(s.infs[left as int]);
            let tr = reduce_spec(s.infs[right as int]);
            let s1 = if tl != TeView::Any {
                infer_spec(s, right as int, tl)
            } else {
                s
            };
            if tl != TeView::Any {
                lemma_infer_grows(s, right as int, tl);
            }
            if tr != TeView::Any {
                lemma_infer_grows(s1, left as int, tr);
                lemma_grows_trans(s, s1, infer_spec(s1, left as int, tr));
            }
        },
        _ => {},
    }
}

/// A pattern-driven inference rule: a pure function from one registered
/// value's shape to constraints on that value and its operands.
pub trait InferenceRule {
    /// The state that firing this rule on the registered value `i` yields:
    /// the rule's one structural pattern and the constraints it asserts.
    spec fn effect(&self, s: StateView, i: int) -> StateView;

    /// Applies this rule to the registered value with identity `value`,
    /// adding the constraints of [`Self::effect`] to the state; constraints
    /// are only ever added, never removed. Fails exactly when the identity
    /// was never registered; such a failure is fatal to the analysis run.
    fn infer(&self, value: usize, state: &mut InferenceState) -> (r: Result<(), AnalysisError>)
        requires
            old(state).wf(),
        ensures
            final(state).wf(),
            final(state)@.values == old(state)@.values,
            state_grows(old(state)@, final(state)@),
            r is Ok ==> final(state)@ == self.effect(old(state)@, value as int),
            r is Err <==> value >= old(state)@.values.len(),
            r is Err ==> final(state)@ == old(state)@ && r == Err::<(), AnalysisError>(
                AnalysisError::UnregisteredIdentity,
            ),
    ;
}

impl InferenceRule for OffsetSizeRule {
    open spec fn effect(&self, s: StateView, i: int) -> StateView {
        offset_size_spec(s, i)
    }

    fn infer(&self, value: usize, state: &mut InferenceState) -> (r: Result<(), AnalysisError>) {
        if value >= state.len() {
            proof {
                lemma_grows_refl(state@);
            }
            Err(AnalysisError::UnregisteredIdentity)
        } else {
            let _ = OffsetSizeRule::apply(state, value);
            proof {
                lemma_offset_size_grows(old(state)@, value as int);
            }
            Ok(())
        }
    }
}

impl InferenceRule for MaskRule {
    open spec fn effect(&self, s: StateView, i: int) -> StateView {
        mask_rule_spec(s, i)
    }

    fn infer(&self, value: usize, state: &mut InferenceState) -> (r: Result<(), AnalysisError>) {
        if value >= state.len() {
            proof {
                lemma_grows_refl(state@);
            }
            Err(AnalysisError::UnregisteredIdentity)
        } else {
            let _ = MaskRule::apply(state, value);
            proof {
                lemma_mask_grows(old(state)@, value as int);
            }
            Ok(())
        }
    }
}

impl InferenceRule for ComparisonRule {
    open spec fn effect(&self, s: StateView, i: int) -> StateView {
        comparison_spec(s, i)
    }

    fn infer(&self, value: usize, state: &mut InferenceState) -> (r: Result<(), AnalysisError>) {
        if value >= state.len() {
            proof {
                lemma_grows_refl(state@);
            }
            Err(AnalysisError::UnregisteredIdentity)
        } else {
            let _ = ComparisonRule::apply(state, value);
            proof {
                lemma_comparison_grows(old(state)@, value as int);
            }
            Ok(())
        }
    }
}

impl InferenceRule for ShiftRule {
    open spec fn effect(&self, s: StateView, i: int) -> StateView {
        shift_spec(s, i)
    }

    fn infer(&self, value: usize, state: &mut InferenceState) -> (r: Result<(), AnalysisError>) {
        if value >= state.len() {
            proof {
                lemma_grows_refl(state@);
            }
            Err(AnalysisError::UnregisteredIdentity)
        } else {
            let _ = ShiftRule::apply(state, value);
            proof {
                lemma_shift_grows(old(state)@, value as int);
            }
            Ok(())
        }
    }
}

impl InferenceRule for StorageKeyRule {
    open spec fn effect(&self, s: StateView, i: int) -> StateView {
        storage_key_spec(s, i)
    }

    fn infer(&self, value: usize, state: &mut InferenceState) -> (r: Result<(), AnalysisError>) {
        if value >= state.len() {
            proof {
                lemma_grows_refl(state@);
            }
            Err(AnalysisError::UnregisteredIdentity)
        } else {
            let _ = StorageKeyRule::apply(state, value);
            proof {
                lemma_storage_key_grows(old(state)@, value as int);
            }
            Ok(())
        }
    }
}

impl InferenceRule for EqualityRule {
    open spec fn effect(&self, s: StateView, i: int) -> StateView {
        equality_spec(s, i)
    }

    fn infer(&self, value: usize, state: &mut InferenceState) -> (r: Result<(), AnalysisError>) {
        if value >= state.len() {
            proof {
                lemma_grows_refl(state@);
            }
            Err(AnalysisError::UnregisteredIdentity)
        } else {
            let _ = EqualityRule::apply(state, value);
            proof {
                lemma_equality_grows(old(state)@, value as int);
            }
            Ok(())
        }
    }
}

} // verus!
