//! The finalized type representation exposed outside the core.
//!
//! An [`AbiType`] is what one identity's reduced type expression maps to,
//! one variant for one form; it is the vocabulary in which storage layouts
//! describe a contract's slots to callers.

use vstd::prelude::*;

use crate::expression::{te_view, te_view_seq, TeView, TE};
use crate::expression::lemma_te_view_seq;
use crate::state::InferenceState;
use crate::unifier::{reduce, reduce_spec};

verus! {

/// The spec-level shape of a finalized ABI type.
#[verifier::ext_equal]
pub enum AbiView {
    /// Nothing is known.
    Any,
    /// An unsigned integer, of the given bit size if known.
    UInt { size: Option<u16> },
    /// A signed integer, of the given bit size if known.
    Int { size: Option<u16> },
    /// An integer of unknown signedness, of the given bit size if known.
    Number { size: Option<u16> },
    /// A boolean.
    Bool,
    /// A 160-bit account address.
    Address,
    /// A byte array, of the given length if known.
    Bytes { length: Option<u16> },
    /// A mapping from keys of one type to values of another.
    Mapping { key_type: Box<AbiView>, value_type: Box<AbiView> },
    /// Incompatible candidate types were inferred for the same place.
    ConflictedType { candidates: Seq<AbiView> },
}

/// The finalized representation of a type, as exposed to callers.
#[derive(Debug, PartialEq, Eq)]
pub enum AbiType {
    /// Nothing is known.
    Any,
    /// An unsigned integer, of the given bit size if known.
    UInt { size: Option<u16> },
    /// A signed integer, of the given bit size if known.
    Int { size: Option<u16> },
    /// An integer of unknown signedness, of the given bit size if known.
    Number { size: Option<u16> },
    /// A boolean.
    Bool,
    /// A 160-bit account address.
    Address,
    /// A byte array, of the given length if known.
    Bytes { length: Option<u16> },
    /// A mapping from keys of one type to values of another.
    Mapping { key_type: Box<AbiType>, value_type: Box<AbiType> },
    /// Incompatible candidate types were inferred for the same place.
    ConflictedType { candidates: Vec<AbiType> },
}

/// The spec-level shape of a finalized type.
pub open spec fn abi_view(t: AbiType) -> AbiView
    decreases t,
{
    match t {
        AbiType::Any => AbiView::Any,
        AbiType::UInt { size } => AbiView::UInt { size },
        AbiType::Int { size } => AbiView::Int { size },
        AbiType::Number { size } => AbiView::Number { size },
        AbiType::Bool => AbiView::Bool,
        AbiType::Address => AbiView::Address,
        AbiType::Bytes { length } => AbiView::Bytes { length },
        AbiType::Mapping { key_type, value_type } => AbiView::Mapping {
            key_type: Box::new(abi_view(*key_type)),
            value_type: Box::new(abi_view(*value_type)),
        },
        AbiType::ConflictedType { candidates } => AbiView::ConflictedType {
            candidates: abi_view_seq(candidates@),
        },
    }
}

/// The spec-level shapes of a sequence of finalized types.
pub open spec fn abi_view_seq(s: Seq<AbiType>) -> Seq<AbiView>
    decreases s,
{
    if s.len() == 0 {
        Seq::empty()
    } else {
        seq![abi_view(s[0])] + abi_view_seq(s.drop_first())
    }
}

impl View for AbiType {
    type V = AbiView;

    open spec fn view(&self) -> AbiView {
        abi_view(*self)
    }
}

/// `abi_view_seq` maps `abi_view` over the sequence element by element.
pub proof fn lemma_abi_view_seq(s: Seq<AbiType>)
    ensures
        abi_view_seq(s).len() == s.len(),
        forall|i: int| 0 <= i < s.len() ==> abi_view_seq(s)[i] == abi_view(s[i]),
    decreases s,
{
    if s.len() > 0 {
        lemma_abi_view_seq(s.drop_first());
    }
}

/// The one-to-one mapping from a reduced type expression to its finalized
/// form.
pub open spec fn abi_of_te(t: TeView) -> AbiView
    decreases t,
{
    match t {
        TeView::Any => AbiView::Any,
        TeView::UnsignedWord { width } => AbiView::UInt { size: width },
        TeView::SignedWord { width } => AbiView::Int { size: width },
        TeView::Bool => AbiView::Bool,
        TeView::Address => AbiView::Address,
        TeView::Bytes { length } => AbiView::Bytes { length },
        TeView::Mapping { key, value } => AbiView::Mapping {
            key_type: Box::new(abi_of_te(*key)),
            value_type: Box::new(abi_of_te(*value)),
        },
        TeView::Conflict { candidates } => AbiView::ConflictedType {
            candidates: abi_of_te_seq(candidates),
        },
    }
}

/// The finalized forms of a sequence of type expressions.
pub open spec fn abi_of_te_seq(s: Seq<TeView>) -> Seq<AbiView>
    decreases s,
{
    if s.len() == 0 {
        Seq::empty()
    } else {
        seq![abi_of_te(s[0])] + abi_of_te_seq(s.drop_first())
    }
}

/// Converts a reduced type expression to its finalized form.
pub fn te_to_abi(t: &TE) -> (r: AbiType)
    ensures
        r@ == abi_of_te(t@),
    decreases t,
{
    match t {
        TE::Any => AbiType::Any,
        TE::UnsignedWord { width } => AbiType::UInt { size: *width },
        TE::SignedWord { width } => AbiType::Int { size: *width },
        TE::Bool => AbiType::Bool,
        TE::Address => AbiType::Address,
        TE::Bytes { length } => AbiType::Bytes { length: *length },
        TE::Mapping { key, value } => {
            let kt = te_to_abi(key);
            let vt = te_to_abi(value);
            AbiType::Mapping { key_type: Box::new(kt), value_type: Box::new(vt) }
        },
        TE::Conflict { candidates } => {
            let ghost views = te_view_seq(candidates@);
            proof {
                lemma_te_view_seq(candidates@);
            }
            let mut out: Vec<AbiType> = Vec::new();
            let mut i: usize = 0;
            proof {
                assert(abi_view_seq(out@) =~= Seq::<AbiView>::empty());
                assert(abi_of_te_seq(views.take(0)) =~= Seq::<AbiView>::empty());
            }
            while i < candidates.len()
                invariant
                    *t is Conflict,
                    t->Conflict_candidates == *candidates,
                    i <= candidates@.len(),
                    views == te_view_seq(candidates@),
                    views.len() == candidates@.len(),
                    forall|k: int| 0 <= k < views.len() ==> views[k] == te_view(candidates@[k]),
                    abi_view_seq(out@) == abi_of_te_seq(views.take(i as int)),
                decreases candidates@.len() - i,
            {
                proof {
                    assert(decreases_to!(*t => t->Conflict_candidates));
                    assert(decreases_to!(t->Conflict_candidates => t
                        ->Conflict_candidates@[i as int]));
                    assert(decreases_to!(*t => candidates@[i as int]));
                }
                let a = te_to_abi(&candidates[i]);
                let ghost pre = out@;
                out.push(a);
                proof {
                    lemma_abi_view_seq(pre.push(a));
                    lemma_abi_view_seq(pre);
                    assert(abi_view_seq(pre.push(a)) =~= abi_view_seq(pre).push(a@));
                    lemma_abi_of_te_seq(views.take(i as int + 1));
                    lemma_abi_of_te_seq(views.take(i as int));
                    assert(views.take(i as int + 1) =~= views.take(i as int).push(
                        views[i as int],
                    ));
                    assert(abi_of_te_seq(views.take(i as int + 1)) =~= abi_of_te_seq(
                        views.take(i as int),
                    ).push(abi_of_te(views[i as int])));
                }
                i = i + 1;
            }
            proof {
                assert(views.take(candidates@.len() as int) =~= views);
            }
            AbiType::ConflictedType { candidates: out }
        },
    }
}

/// Resolves one identity's accumulated constraint set to its single
/// best-known finalized type: the constraints are folded with the merge
/// operator in insertion order — the result does not depend on that order —
/// and the reduced expression is mapped to its finalized form, conflicts
/// included.
pub fn resolve(state: &InferenceState, id: usize) -> (r: AbiType)
    requires
        id < state@.infs.len(),
    ensures
        r@ == abi_of_te(reduce_spec(state@.infs[id as int])),
{
    let te = reduce(state.inferences(id));
    te_to_abi(&te)
}

/// `abi_of_te_seq` maps `abi_of_te` over the sequence element by element.
pub proof fn lemma_abi_of_te_seq(s: Seq<TeView>)
    ensures
        abi_of_te_seq(s).len() == s.len(),
        forall|i: int| 0 <= i < s.len() ==> abi_of_te_seq(s)[i] == abi_of_te(s[i]),
    decreases s,
{
    if s.len() > 0 {
        lemma_abi_of_te_seq(s.drop_first());
    }
}

} // verus!
