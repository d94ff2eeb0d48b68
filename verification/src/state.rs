//! The inference state: the mutable store threaded through every rule call.
//!
//! The state owns the one-to-one mapping from symbolic values to registered
//! identities — registration is idempotent, re-registering a structurally
//! identical value returns the existing identity — and, for each identity,
//! the ordered, duplicate-free set of type constraints accumulated from rule
//! firings.

use vstd::prelude::*;

use crate::expression::{te_eq, te_view, te_view_seq, TeView, TE};
use crate::value::{ops_below, SymbolicValue};

verus! {

/// The mathematical content of an inference state: the registered values in
/// identity order, and each identity's constraint sequence.
#[verifier::ext_equal]
pub struct StateView {
    /// The registered values; the identity of a value is its index here.
    pub values: Seq<SymbolicValue>,
    /// For each identity, the accumulated constraints, in insertion order.
    pub infs: Seq<Seq<TeView>>,
}

/// The state of one analysis run: registered values and their constraints.
pub struct InferenceState {
    values: Vec<SymbolicValue>,
    inferences: Vec<Vec<TE>>,
}

/// The shapes of each constraint vector.
pub open spec fn infs_view(s: Seq<Vec<TE>>) -> Seq<Seq<TeView>> {
    Seq::new(s.len(), |i: int| te_view_seq(s[i]@))
}

impl View for InferenceState {
    type V = StateView;

    closed spec fn view(&self) -> StateView {
        StateView { values: self.values@, infs: infs_view(self.inferences@) }
    }
}

/// Well-formedness of a state: one constraint set per value, and every
/// value's operands registered before it.
pub open spec fn wf_state(s: StateView) -> bool {
    &&& s.values.len() == s.infs.len()
    &&& forall|i: int| 0 <= i < s.values.len() ==> ops_below(s.values[i], i as nat)
}

/// The index of the first occurrence of `v` in `vals`, or `-1`.
pub open spec fn find_idx(vals: Seq<SymbolicValue>, v: SymbolicValue) -> int
    decreases vals,
{
    if vals.len() == 0 {
        -1
    } else if vals[0] == v {
        0
    } else {
        let r = find_idx(vals.drop_first(), v);
        if r < 0 {
            -1
        } else {
            r + 1
        }
    }
}

/// What `find_idx` finds: the first occurrence, or nothing.
pub proof fn lemma_find_idx(vals: Seq<SymbolicValue>, v: SymbolicValue)
    ensures
        find_idx(vals, v) >= 0 ==> 0 <= find_idx(vals, v) < vals.len() && vals[find_idx(
            vals,
            v,
        )] == v && (forall|k: int| 0 <= k < find_idx(vals, v) ==> vals[k] != v),
        find_idx(vals, v) < 0 ==> forall|k: int| 0 <= k < vals.len() ==> vals[k] != v,
    decreases vals,
{
    if vals.len() > 0 && vals[0] != v {
        lemma_find_idx(vals.drop_first(), v);
        let r = find_idx(vals.drop_first(), v);
        if r >= 0 {
            assert(vals[r + 1] == vals.drop_first()[r]);
            assert forall|k: int| 0 <= k < find_idx(vals, v) implies vals[k] != v by {
                if k > 0 {
                    assert(vals.drop_first()[k - 1] == vals[k]);
                    assert(vals.drop_first()[k - 1] != v);
                }
            }
        } else {
            assert forall|k: int| 0 <= k < vals.len() implies vals[k] != v by {
                if k > 0 {
                    assert(vals.drop_first()[k - 1] == vals[k]);
                    assert(vals.drop_first()[k - 1] != v);
                }
            }
        }
    }
}

/// The state after registering `v`.
pub open spec fn register_spec(s: StateView, v: SymbolicValue) -> StateView {
    if find_idx(s.values, v) >= 0 {
        s
    } else {
        StateView { values: s.values.push(v), infs: s.infs.push(Seq::empty()) }
    }
}

/// The identity that registering `v` yields.
pub open spec fn register_id_spec(s: StateView, v: SymbolicValue) -> int {
    if find_idx(s.values, v) >= 0 {
        find_idx(s.values, v)
    } else {
        s.values.len() as int
    }
}

/// Registration is idempotent: registering a structurally identical value a
/// second time yields the same identity and leaves the state — constraint
/// sets included — unchanged.
pub proof fn lemma_register_idempotent(s: StateView, v: SymbolicValue)
    ensures
        register_spec(register_spec(s, v), v) == register_spec(s, v),
        register_id_spec(register_spec(s, v), v) == register_id_spec(s, v),
{
    lemma_find_idx(s.values, v);
    if find_idx(s.values, v) < 0 {
        let vals2 = s.values.push(v);
        lemma_find_idx_push_new(s.values, v);
        lemma_find_idx(vals2, v);
    }
}

/// Appending a value not yet present makes it findable at the end.
proof fn lemma_find_idx_push_new(vals: Seq<SymbolicValue>, v: SymbolicValue)
    requires
        forall|k: int| 0 <= k < vals.len() ==> vals[k] != v,
    ensures
        find_idx(vals.push(v), v) == vals.len(),
    decreases vals,
{
    if vals.len() == 0 {
        assert(vals.push(v)[0] == v);
    } else {
        assert(vals.push(v)[0] == vals[0]);
        assert(vals.push(v).drop_first() =~= vals.drop_first().push(v));
        assert(forall|k: int|
            0 <= k < vals.drop_first().len() ==> vals.drop_first()[k] == vals[k + 1]);
        lemma_find_idx_push_new(vals.drop_first(), v);
    }
}

/// The state after adding the constraint `te` for identity `id`: appended if
/// new, ignored if already present.
pub open spec fn infer_spec(s: StateView, id: int, te: TeView) -> StateView {
    if id < 0 || id >= s.infs.len() {
        s
    } else if s.infs[id].contains(te) {
        s
    } else {
        StateView { values: s.values, infs: s.infs.update(id, s.infs[id].push(te)) }
    }
}

/// The total number of constraints accumulated in a sequence of constraint
/// sets.
pub open spec fn sum_lens(infs: Seq<Seq<TeView>>) -> nat
    decreases infs,
{
    if infs.len() == 0 {
        0
    } else {
        infs[0].len() + sum_lens(infs.drop_first())
    }
}

/// Growing one constraint set grows the total by the same amount.
pub proof fn lemma_sum_lens_update(infs: Seq<Seq<TeView>>, id: int, t: Seq<TeView>)
    requires
        0 <= id < infs.len(),
    ensures
        sum_lens(infs.update(id, t)) + infs[id].len() == sum_lens(infs) + t.len(),
    decreases infs,
{
    if id == 0 {
        assert(infs.update(0, t).drop_first() =~= infs.drop_first());
        assert(infs.update(0, t)[0] == t);
    } else {
        assert(infs.update(id, t)[0] == infs[0]);
        assert(infs.update(id, t).drop_first() =~= infs.drop_first().update(id - 1, t));
        lemma_sum_lens_update(infs.drop_first(), id - 1, t);
    }
}

/// Adding one constraint changes the state exactly when it is new, and then
/// grows the constraint total by one.
pub proof fn lemma_infer_spec(s: StateView, id: int, te: TeView)
    requires
        0 <= id < s.infs.len(),
    ensures
        s.infs[id].contains(te) ==> infer_spec(s, id, te) == s,
        !s.infs[id].contains(te) ==> infer_spec(s, id, te) != s && sum_lens(
            infer_spec(s, id, te).infs,
        ) == sum_lens(s.infs) + 1,
        infer_spec(s, id, te).values == s.values,
        s.infs.len() == infer_spec(s, id, te).infs.len(),
        wf_state(s) ==> wf_state(infer_spec(s, id, te)),
{
    if !s.infs[id].contains(te) {
        let s2 = infer_spec(s, id, te);
        lemma_sum_lens_update(s.infs, id, s.infs[id].push(te));
        assert(s2.infs[id] == s.infs[id].push(te));
        assert(s2.infs[id].len() != s.infs[id].len());
    }
}

/// `b` extends `a`: the same values are registered, and every constraint
/// set of `a` is a prefix of the corresponding set of `b` — knowledge only
/// accumulates.
pub open spec fn state_grows(a: StateView, b: StateView) -> bool {
    &&& a.values == b.values
    &&& a.infs.len() == b.infs.len()
    &&& forall|i: int| 0 <= i < a.infs.len() ==> a.infs[i].is_prefix_of(b.infs[i])
}

/// Growth is reflexive.
pub proof fn lemma_grows_refl(a: StateView)
    ensures
        state_grows(a, a),
{
    assert forall|i: int| 0 <= i < a.infs.len() implies a.infs[i].is_prefix_of(a.infs[i]) by {
        assert(a.infs[i].subrange(0, a.infs[i].len() as int) =~= a.infs[i]);
    }
}

/// Growth is transitive.
pub proof fn lemma_grows_trans(a: StateView, b: StateView, c: StateView)
    requires
        state_grows(a, b),
        state_grows(b, c),
    ensures
        state_grows(a, c),
{
    assert forall|i: int| 0 <= i < a.infs.len() implies a.infs[i].is_prefix_of(c.infs[i]) by {
        assert(a.infs[i].is_prefix_of(b.infs[i]));
        assert(b.infs[i].is_prefix_of(c.infs[i]));
        assert(c.infs[i].subrange(0, b.infs[i].len() as int).subrange(0, a.infs[i].len() as int)
            =~= c.infs[i].subrange(0, a.infs[i].len() as int));
    }
}

/// Adding one constraint only extends a constraint set.
pub proof fn lemma_infer_grows(s: StateView, id: int, te: TeView)
    ensures
        state_grows(s, infer_spec(s, id, te)),
{
    lemma_grows_refl(s);
    let s2 = infer_spec(s, id, te);
    if 0 <= id < s.infs.len() && !s.infs[id].contains(te) {
        assert forall|i: int| 0 <= i < s.infs.len() implies s.infs[i].is_prefix_of(s2.infs[i]) by {
            if i == id {
                assert(s2.infs[i] == s.infs[i].push(te));
                assert(s2.infs[i].subrange(0, s.infs[i].len() as int) =~= s.infs[i]);
            } else {
                assert(s2.infs[i] == s.infs[i]);
            }
        }
    }
}

impl InferenceState {
    /// Whether the state is well-formed.
    pub open spec fn wf(&self) -> bool {
        wf_state(self@)
    }

    /// Creates an empty state for a fresh analysis run.
    pub fn empty() -> (r: Self)
        ensures
            r@.values.len() == 0,
            r@.infs.len() == 0,
            r.wf(),
    {
        let r = InferenceState { values: Vec::new(), inferences: Vec::new() };
        proof {
            assert(r@.values =~= Seq::<SymbolicValue>::empty());
            assert(r@.infs =~= Seq::<Seq<TeView>>::empty());
        }
        r
    }

    /// The number of registered identities.
    pub fn len(&self) -> (n: usize)
        ensures
            n == self@.values.len(),
    {
        self.values.len()
    }

    /// Registers `v`, whose operands must already be registered, and returns
    /// its identity. Registering a structurally identical value twice
    /// returns the existing identity and changes nothing.
    pub fn register(&mut self, v: SymbolicValue) -> (id: usize)
        requires
            old(self).wf(),
            ops_below(v, old(self)@.values.len()),
        ensures
            final(self).wf(),
            final(self)@ == register_spec(old(self)@, v),
            id == register_id_spec(old(self)@, v),
            id < final(self)@.values.len(),
            final(self)@.values[id as int] == v,
            final(self)@.infs[id as int] == old(self)@.infs[id as int] || final(self)@.infs[
                id as int
            ] == Seq::<TeView>::empty(),
    {
        let ghost s0 = self@;
        let mut i: usize = 0;
        while i < self.values.len()
            invariant
                s0 == old(self)@,
                old(self).wf(),
                ops_below(v, old(self)@.values.len()),
                self@ == s0,
                i <= s0.values.len(),
                forall|k: int| 0 <= k < i ==> s0.values[k] != v,
            decreases s0.values.len() - i,
        {
            if self.values[i] == v {
                proof {
                    lemma_find_first(s0.values, v, i as int);
                }
                return i;
            }
            i = i + 1;
        }
        proof {
            lemma_find_idx(s0.values, v);
            if find_idx(s0.values, v) >= 0 {
                assert(s0.values[find_idx(s0.values, v)] == v);
                assert(false);
            }
        }
        let id = self.values.len();
        self.values.push(v);
        self.inferences.push(Vec::new());
        proof {
            assert(self@.values =~= s0.values.push(v));
            assert(self@.infs =~= s0.infs.push(Seq::empty()));
            assert(te_view_seq(Seq::<TE>::empty()).len() == 0);
            assert(te_view_seq(Seq::<TE>::empty()) =~= Seq::<TeView>::empty());
        }
        id
    }

    /// The registered value with identity `id`.
    pub fn value(&self, id: usize) -> (v: &SymbolicValue)
        requires
            id < self@.values.len(),
        ensures
            *v == self@.values[id as int],
    {
        &self.values[id]
    }

    /// The constraints accumulated so far for identity `id`, in insertion
    /// order.
    pub fn inferences(&self, id: usize) -> (c: &Vec<TE>)
        requires
            id < self@.infs.len(),
        ensures
            te_view_seq(c@) == self@.infs[id as int],
    {
        &self.inferences[id]
    }

    /// Adds the constraint `te` for identity `id`. A constraint already
    /// present is not duplicated. Returns whether the state changed.
    pub fn infer(&mut self, id: usize, te: TE) -> (added: bool)
        requires
            old(self).wf(),
            id < old(self)@.infs.len(),
        ensures
            final(self).wf(),
            final(self)@ == infer_spec(old(self)@, id as int, te@),
            added == !old(self)@.infs[id as int].contains(te@),
            added ==> final(self)@ != old(self)@ && sum_lens(final(self)@.infs) == sum_lens(
                old(self)@.infs,
            ) + 1,
            !added ==> final(self)@ == old(self)@,
    {
        let ghost s0 = self@;
        let ghost views = s0.infs[id as int];
        let existing = &self.inferences[id];
        proof {
            crate::expression::lemma_te_view_seq(existing@);
            assert(te_view_seq(existing@) == views);
        }
        let mut i: usize = 0;
        let n = existing.len();
        while i < n
            invariant
                s0 == old(self)@,
                old(self).wf(),
                self@ == s0,
                existing == &self.inferences@[id as int],
                id < s0.infs.len(),
                n == existing@.len(),
                views == s0.infs[id as int],
                views == te_view_seq(existing@),
                views.len() == existing@.len(),
                forall|k: int| 0 <= k < views.len() ==> views[k] == te_view(existing@[k]),
                i <= n,
                forall|k: int| 0 <= k < i ==> views[k] != te@,
            decreases n - i,
        {
            if te_eq(&existing[i], &te) {
                proof {
                    assert(views.contains(te@)) by {
                        assert(views[i as int] == te@);
                    }
                    lemma_infer_spec(s0, id as int, te@);
                }
                return false;
            }
            i = i + 1;
        }
        proof {
            if views.contains(te@) {
                let k = choose|k: int| 0 <= k < views.len() && views[k] == te@;
                assert(false);
            }
            lemma_infer_spec(s0, id as int, te@);
        }
        let inner = &mut self.inferences[id];
        let ghost pre = inner@;
        proof {
            crate::expression::lemma_te_view_seq_push(pre, te);
        }
        inner.push(te);
        proof {
            assert(self@.infs =~= s0.infs.update(id as int, views.push(te@)));
            assert(self@.values == s0.values);
            assert(self@ =~= infer_spec(s0, id as int, te@));
        }
        true
    }
}

/// A scan that stops at the first match finds what `find_idx` finds.
proof fn lemma_find_first(vals: Seq<SymbolicValue>, v: SymbolicValue, i: int)
    requires
        0 <= i < vals.len(),
        vals[i] == v,
        forall|k: int| 0 <= k < i ==> vals[k] != v,
    ensures
        find_idx(vals, v) == i,
    decreases vals,
{
    if i > 0 {
        assert(forall|k: int|
            0 <= k < vals.drop_first().len() ==> vals.drop_first()[k] == vals[k + 1]);
        lemma_find_first(vals.drop_first(), v, i - 1);
    }
}

} // verus!
