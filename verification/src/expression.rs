//! Type expressions: the vocabulary of partial type knowledge that inference
//! rules attach to symbolic values.
//!
//! A [`TE`] describes what is known so far about the type of one value: from
//! nothing at all ([`TE::Any`]) through word types of possibly unknown width,
//! up to structural knowledge ([`TE::Mapping`]) and the explicit record of
//! contradictory evidence ([`TE::Conflict`]).

use vstd::prelude::*;

verus! {

/// The mathematical shape of a type expression, used in specifications.
///
/// This mirrors [`TE`] exactly, except that conflict candidates are a
/// mathematical sequence rather than a vector.
#[verifier::ext_equal]
pub enum TeView {
    /// No information: the bottom of the specificity order.
    Any,
    /// An unsigned machine word, of the given width in bits if known.
    UnsignedWord { width: Option<u16> },
    /// A signed machine word, of the given width in bits if known.
    SignedWord { width: Option<u16> },
    /// A boolean.
    Bool,
    /// A 160-bit account address.
    Address,
    /// A byte array, of the given length if known.
    Bytes { length: Option<u16> },
    /// A mapping from keys of one type to values of another.
    Mapping { key: Box<TeView>, value: Box<TeView> },
    /// Several mutually incompatible definite forms were inferred.
    Conflict { candidates: Seq<TeView> },
}

/// A type expression: partial knowledge about the type of one symbolic value.
///
/// Values of this type are built by inference rules and combined with
/// [`crate::unifier::merge`]; the merge operator keeps its results in a
/// canonical form, so that equal knowledge is represented by equal values.
#[derive(Debug, PartialEq, Eq)]
pub enum TE {
    /// No information: the bottom of the specificity order.
    Any,
    /// An unsigned machine word, of the given width in bits if known.
    UnsignedWord { width: Option<u16> },
    /// A signed machine word, of the given width in bits if known.
    SignedWord { width: Option<u16> },
    /// A boolean.
    Bool,
    /// A 160-bit account address.
    Address,
    /// A byte array, of the given length if known.
    Bytes { length: Option<u16> },
    /// A mapping from keys of one type to values of another.
    Mapping { key: Box<TE>, value: Box<TE> },
    /// Several mutually incompatible definite forms were inferred; the
    /// candidates record every definite form seen, for diagnostics.
    Conflict { candidates: Vec<TE> },
}

/// The spec-level shape of a type expression.
pub open spec fn te_view(t: TE) -> TeView
    decreases t,
{
    match t {
        TE::Any => TeView::Any,
        TE::UnsignedWord { width } => TeView::UnsignedWord { width },
        TE::SignedWord { width } => TeView::SignedWord { width },
        TE::Bool => TeView::Bool,
        TE::Address => TeView::Address,
        TE::Bytes { length } => TeView::Bytes { length },
        TE::Mapping { key, value } => TeView::Mapping {
            key: Box::new(te_view(*key)),
            value: Box::new(te_view(*value)),
        },
        TE::Conflict { candidates } => TeView::Conflict { candidates: te_view_seq(candidates@) },
    }
}

/// The spec-level shapes of a sequence of type expressions, element by
/// element.
pub open spec fn te_view_seq(s: Seq<TE>) -> Seq<TeView>
    decreases s,
{
    if s.len() == 0 {
        Seq::empty()
    } else {
        seq![te_view(s[0])] + te_view_seq(s.drop_first())
    }
}

impl View for TE {
    type V = TeView;

    open spec fn view(&self) -> TeView {
        te_view(*self)
    }
}

/// `te_view_seq` maps `te_view` over the sequence element by element.
pub proof fn lemma_te_view_seq(s: Seq<TE>)
    ensures
        te_view_seq(s).len() == s.len(),
        forall|i: int| 0 <= i < s.len() ==> te_view_seq(s)[i] == te_view(s[i]),
    decreases s,
{
    if s.len() > 0 {
        lemma_te_view_seq(s.drop_first());
    }
}

/// Decides equality of two optional widths.
fn width_eq(x: &Option<u16>, y: &Option<u16>) -> (r: bool)
    ensures
        r == (x == y),
{
    match (x, y) {
        (None, None) => true,
        (Some(m), Some(n)) => *m == *n,
        _ => false,
    }
}

/// Decides whether two type expressions have the same shape.
pub fn te_eq(a: &TE, b: &TE) -> (r: bool)
    ensures
        r == (a@ == b@),
    decreases a,
{
    match (a, b) {
        (TE::Any, TE::Any) => true,
        (TE::Bool, TE::Bool) => true,
        (TE::Address, TE::Address) => true,
        (TE::UnsignedWord { width: w1 }, TE::UnsignedWord { width: w2 }) => width_eq(w1, w2),
        (TE::SignedWord { width: w1 }, TE::SignedWord { width: w2 }) => width_eq(w1, w2),
        (TE::Bytes { length: l1 }, TE::Bytes { length: l2 }) => width_eq(l1, l2),
        (TE::Mapping { key: k1, value: v1 }, TE::Mapping { key: k2, value: v2 }) => {
            let ke = te_eq(k1, k2);
            let ve = te_eq(v1, v2);
            ke && ve
        },
        (TE::Conflict { candidates: c1 }, TE::Conflict { candidates: c2 }) => {
            proof {
                lemma_te_view_seq(c1@);
                lemma_te_view_seq(c2@);
            }
            if c1.len() != c2.len() {
                false
            } else {
                let mut i: usize = 0;
                let mut same = true;
                while same && i < c1.len()
                    invariant
                        *a is Conflict,
                        a->Conflict_candidates == *c1,
                        *b is Conflict,
                        b->Conflict_candidates == *c2,
                        i <= c1@.len(),
                        c1@.len() == c2@.len(),
                        te_view_seq(c1@).len() == c1@.len(),
                        te_view_seq(c2@).len() == c2@.len(),
                        forall|k: int|
                            0 <= k < c1@.len() ==> te_view_seq(c1@)[k] == te_view(c1@[k]),
                        forall|k: int|
                            0 <= k < c2@.len() ==> te_view_seq(c2@)[k] == te_view(c2@[k]),
                        same ==> forall|k: int|
                            0 <= k < i ==> te_view(c1@[k]) == te_view(c2@[k]),
                        !same ==> te_view_seq(c1@) != te_view_seq(c2@),
                    decreases c1@.len() - i + (if same {
                        1int
                    } else {
                        0int
                    }),
                {
                    proof {
                        assert(decreases_to!(*a => a->Conflict_candidates));
                        assert(decreases_to!(a->Conflict_candidates => a
                            ->Conflict_candidates@[i as int]));
                        assert(decreases_to!(*a => c1@[i as int]));
                    }
                    let e = te_eq(&c1[i], &c2[i]);
                    if !e {
                        proof {
                            assert(te_view_seq(c1@)[i as int] != te_view_seq(c2@)[i as int]);
                        }
                        same = false;
                    } else {
                        i = i + 1;
                    }
                }
                proof {
                    if same {
                        assert(te_view_seq(c1@) =~= te_view_seq(c2@));
                    }
                }
                same
            }
        },
        _ => false,
    }
}

/// Appending one expression appends its shape.
pub proof fn lemma_te_view_seq_push(s: Seq<TE>, x: TE)
    ensures
        te_view_seq(s.push(x)) == te_view_seq(s).push(te_view(x)),
{
    lemma_te_view_seq(s.push(x));
    lemma_te_view_seq(s);
    assert(te_view_seq(s.push(x)) =~= te_view_seq(s).push(te_view(x)));
}

impl TE {
    /// Constructs the expression for an unsigned word of the given width.
    pub fn unsigned_word(width: Option<u16>) -> (r: TE)
        ensures
            r@ == (TeView::UnsignedWord { width }),
    {
        TE::UnsignedWord { width }
    }

    /// Constructs the expression for a signed word of the given width.
    pub fn signed_word(width: Option<u16>) -> (r: TE)
        ensures
            r@ == (TeView::SignedWord { width }),
    {
        TE::SignedWord { width }
    }

    /// Constructs the expression for a byte array of the given length.
    pub fn bytes(length: Option<u16>) -> (r: TE)
        ensures
            r@ == (TeView::Bytes { length }),
    {
        TE::Bytes { length }
    }

    /// Constructs the expression for a mapping with the given key and value
    /// types.
    pub fn mapping(key: TE, value: TE) -> (r: TE)
        ensures
            r@ == (TeView::Mapping { key: Box::new(key@), value: Box::new(value@) }),
    {
        TE::Mapping { key: Box::new(key), value: Box::new(value) }
    }
}

} // verus!
