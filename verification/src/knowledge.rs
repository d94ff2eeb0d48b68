//! The factored model of accumulated type knowledge.
//!
//! A type expression ([`crate::expression::TeView`]) is one *presentation* of
//! knowledge; this module defines the canonical content behind it: for each
//! scalar word family the set of widths seen, whether booleans and addresses
//! were seen, and the combined knowledge about mapping keys and values. The
//! merge operator of the unifier is specified as the pointwise join
//! ([`combine`]) of this model, which makes its algebraic laws —
//! commutativity, associativity, monotonicity — direct consequences of the
//! corresponding laws proved here.

use vstd::prelude::*;

verus! {

/// What is known about one scalar word family (unsigned words, signed words,
/// byte arrays).
#[verifier::ext_equal]
pub enum WidthKnow {
    /// The family was never asserted for the value.
    Unseen,
    /// The family was asserted, but with no concrete width.
    Unknown,
    /// The family was asserted with these concrete widths, kept sorted
    /// strictly ascending and nonempty.
    Widths { ws: Seq<u16> },
}

/// The canonical content of a type expression: everything the rules have
/// asserted, family by family.
#[verifier::ext_equal]
pub struct Know {
    /// Knowledge about the value as an unsigned word.
    pub uns: WidthKnow,
    /// Knowledge about the value as a signed word.
    pub sgn: WidthKnow,
    /// Knowledge about the value as a byte array.
    pub byt: WidthKnow,
    /// Whether the value was asserted to be a boolean.
    pub boo: bool,
    /// Whether the value was asserted to be an address.
    pub adr: bool,
    /// Combined knowledge about the value as a mapping, if it was ever
    /// asserted to be one.
    pub map: Option<Box<MapKnow>>,
}

/// Knowledge about the key and value types of a mapping.
#[verifier::ext_equal]
pub struct MapKnow {
    /// Knowledge about the mapping's key type.
    pub key: Know,
    /// Knowledge about the mapping's value type.
    pub value: Know,
}

/// Whether `x` occurs in `s`.
pub open spec fn has(s: Seq<u16>, x: u16) -> bool
    decreases s,
{
    if s.len() == 0 {
        false
    } else {
        s[0] == x || has(s.drop_first(), x)
    }
}

/// Whether `s` is sorted strictly ascending.
pub open spec fn sorted_strict(s: Seq<u16>) -> bool {
    forall|i: int, j: int| 0 <= i && i < j && j < s.len() ==> s[i] < s[j]
}

/// The sorted union of two sorted width sequences.
pub open spec fn union_w(a: Seq<u16>, b: Seq<u16>) -> Seq<u16>
    decreases a.len() + b.len(),
{
    if a.len() == 0 {
        b
    } else if b.len() == 0 {
        a
    } else if a[0] == b[0] {
        seq![a[0]] + union_w(a.drop_first(), b.drop_first())
    } else if a[0] < b[0] {
        seq![a[0]] + union_w(a.drop_first(), b)
    } else {
        seq![b[0]] + union_w(a, b.drop_first())
    }
}

/// Every element of a sequence occurs in it.
proof fn lemma_has_index(s: Seq<u16>, i: int)
    requires
        0 <= i < s.len(),
    ensures
        has(s, s[i]),
    decreases s,
{
    if i > 0 {
        lemma_has_index(s.drop_first(), i - 1);
    }
}

/// Occurrence gives an index.
proof fn lemma_has_to_index(s: Seq<u16>, x: u16)
    requires
        has(s, x),
    ensures
        exists|i: int| 0 <= i < s.len() && s[i] == x,
    decreases s,
{
    if s.len() > 0 && s[0] != x {
        lemma_has_to_index(s.drop_first(), x);
        let i = choose|i: int| 0 <= i < s.drop_first().len() && s.drop_first()[i] == x;
        assert(s[i + 1] == x);
    }
}

/// In a sorted sequence, the head is a lower bound for every element.
proof fn lemma_sorted_head_min(s: Seq<u16>, x: u16)
    requires
        sorted_strict(s),
        has(s, x),
    ensures
        s.len() > 0 && s[0] <= x,
{
    lemma_has_to_index(s, x);
}

/// The tail of a sorted sequence is sorted and everything in it is above the
/// head.
proof fn lemma_sorted_tail(s: Seq<u16>)
    requires
        sorted_strict(s),
        s.len() > 0,
    ensures
        sorted_strict(s.drop_first()),
        forall|x: u16| has(s.drop_first(), x) ==> s[0] < x,
{
    assert forall|x: u16| has(s.drop_first(), x) implies s[0] < x by {
        lemma_has_to_index(s.drop_first(), x);
        let i = choose|i: int| 0 <= i < s.drop_first().len() && s.drop_first()[i] == x;
        assert(s[i + 1] == x);
    }
}

/// Prepending a strict lower bound to a sorted sequence keeps it sorted.
proof fn lemma_sorted_cons(h: u16, r: Seq<u16>)
    requires
        sorted_strict(r),
        forall|x: u16| has(r, x) ==> h < x,
    ensures
        sorted_strict(seq![h] + r),
{
    let s = seq![h] + r;
    assert forall|i: int, j: int| 0 <= i && i < j && j < s.len() implies s[i] < s[j] by {
        lemma_has_index(r, j - 1);
        if i > 0 {
            assert(s[i] == r[i - 1]);
        }
    }
}

/// Membership in a union is membership in either side.
proof fn lemma_union_w_has_one(a: Seq<u16>, b: Seq<u16>, x: u16)
    ensures
        has(union_w(a, b), x) <==> (has(a, x) || has(b, x)),
    decreases a.len() + b.len(),
{
    if a.len() == 0 || b.len() == 0 {
    } else {
        let u = union_w(a, b);
        if a[0] == b[0] {
            lemma_union_w_has_one(a.drop_first(), b.drop_first(), x);
            assert(u.drop_first() == union_w(a.drop_first(), b.drop_first()));
        } else if a[0] < b[0] {
            lemma_union_w_has_one(a.drop_first(), b, x);
            assert(u.drop_first() == union_w(a.drop_first(), b));
        } else {
            lemma_union_w_has_one(a, b.drop_first(), x);
            assert(u.drop_first() == union_w(a, b.drop_first()));
        }
    }
}

/// Membership in a union is membership in either side, for every element.
proof fn lemma_union_w_has(a: Seq<u16>, b: Seq<u16>)
    ensures
        forall|x: u16| has(union_w(a, b), x) <==> (has(a, x) || has(b, x)),
{
    assert forall|x: u16| has(union_w(a, b), x) <==> (has(a, x) || has(b, x)) by {
        lemma_union_w_has_one(a, b, x);
    }
}

/// The union of sorted sequences is sorted.
proof fn lemma_union_w_sorted(a: Seq<u16>, b: Seq<u16>)
    requires
        sorted_strict(a),
        sorted_strict(b),
    ensures
        sorted_strict(union_w(a, b)),
    decreases a.len() + b.len(),
{
    if a.len() == 0 || b.len() == 0 {
    } else {
        lemma_sorted_tail(a);
        lemma_sorted_tail(b);
        if a[0] == b[0] {
            lemma_union_w_sorted(a.drop_first(), b.drop_first());
            let r = union_w(a.drop_first(), b.drop_first());
            lemma_union_w_has(a.drop_first(), b.drop_first());
            assert forall|x: u16| has(r, x) implies a[0] < x by {
                assert(has(a.drop_first(), x) || has(b.drop_first(), x));
            }
            lemma_sorted_cons(a[0], r);
        } else if a[0] < b[0] {
            lemma_union_w_sorted(a.drop_first(), b);
            let r = union_w(a.drop_first(), b);
            lemma_union_w_has(a.drop_first(), b);
            assert forall|x: u16| has(r, x) implies a[0] < x by {
                if has(b, x) {
                    lemma_sorted_head_min(b, x);
                }
            }
            lemma_sorted_cons(a[0], r);
        } else {
            lemma_union_w_sorted(a, b.drop_first());
            let r = union_w(a, b.drop_first());
            lemma_union_w_has(a, b.drop_first());
            assert forall|x: u16| has(r, x) implies b[0] < x by {
                if has(a, x) {
                    lemma_sorted_head_min(a, x);
                }
            }
            lemma_sorted_cons(b[0], r);
        }
    }
}

/// Two sorted sequences with the same members are equal.
proof fn lemma_sorted_same_members(a: Seq<u16>, b: Seq<u16>)
    requires
        sorted_strict(a),
        sorted_strict(b),
        forall|x: u16| has(a, x) <==> has(b, x),
    ensures
        a == b,
    decreases a.len() + b.len(),
{
    if a.len() == 0 {
        if b.len() > 0 {
            assert(has(b, b[0]));
        }
    } else if b.len() == 0 {
        assert(has(a, a[0]));
    } else {
        assert(has(a, a[0]));
        assert(has(b, b[0]));
        lemma_sorted_head_min(a, b[0]);
        lemma_sorted_head_min(b, a[0]);
        assert(a[0] == b[0]);
        lemma_sorted_tail(a);
        lemma_sorted_tail(b);
        assert forall|x: u16| has(a.drop_first(), x) <==> has(b.drop_first(), x) by {
            if has(a.drop_first(), x) {
                assert(a[0] < x);
                assert(has(b, x));
            }
            if has(b.drop_first(), x) {
                assert(b[0] < x);
                assert(has(a, x));
            }
        }
        lemma_sorted_same_members(a.drop_first(), b.drop_first());
        assert(a == seq![a[0]] + a.drop_first());
        assert(b == seq![b[0]] + b.drop_first());
    }
}

/// Union of sorted sequences is commutative.
proof fn lemma_union_w_comm(a: Seq<u16>, b: Seq<u16>)
    requires
        sorted_strict(a),
        sorted_strict(b),
    ensures
        union_w(a, b) == union_w(b, a),
{
    lemma_union_w_sorted(a, b);
    lemma_union_w_sorted(b, a);
    assert forall|x: u16| has(union_w(a, b), x) <==> has(union_w(b, a), x) by {
        lemma_union_w_has_one(a, b, x);
        lemma_union_w_has_one(b, a, x);
    }
    lemma_sorted_same_members(union_w(a, b), union_w(b, a));
}

/// Union of sorted sequences is associative.
proof fn lemma_union_w_assoc(a: Seq<u16>, b: Seq<u16>, c: Seq<u16>)
    requires
        sorted_strict(a),
        sorted_strict(b),
        sorted_strict(c),
    ensures
        union_w(union_w(a, b), c) == union_w(a, union_w(b, c)),
{
    lemma_union_w_sorted(a, b);
    lemma_union_w_sorted(b, c);
    lemma_union_w_sorted(union_w(a, b), c);
    lemma_union_w_sorted(a, union_w(b, c));
    assert forall|x: u16|
        has(union_w(union_w(a, b), c), x) <==> has(union_w(a, union_w(b, c)), x) by {
        lemma_union_w_has_one(a, b, x);
        lemma_union_w_has_one(b, c, x);
        lemma_union_w_has_one(union_w(a, b), c, x);
        lemma_union_w_has_one(a, union_w(b, c), x);
    }
    lemma_sorted_same_members(union_w(union_w(a, b), c), union_w(a, union_w(b, c)));
}

/// A sorted sequence is the union of its head and its tail.
pub proof fn lemma_union_w_cons(ws: Seq<u16>)
    requires
        sorted_strict(ws),
        ws.len() > 0,
    ensures
        union_w(seq![ws[0]], ws.drop_first()) == ws,
{
    let h = seq![ws[0]];
    let t = ws.drop_first();
    if t.len() == 0 {
        assert(union_w(h, t) =~= ws);
    } else {
        assert(ws[0] < t[0]) by {
            assert(t[0] == ws[1]);
        }
        assert(h.drop_first().len() == 0);
        assert(union_w(h, t) == seq![ws[0]] + union_w(h.drop_first(), t));
        assert(union_w(h.drop_first(), t) == t);
        assert(seq![ws[0]] + t =~= ws);
    }
}

/// Well-formedness of scalar family knowledge: widths are sorted and
/// nonempty.
pub open spec fn wf_width(w: WidthKnow) -> bool {
    w matches WidthKnow::Widths { ws } ==> sorted_strict(ws) && ws.len() > 0
}

/// Well-formedness of a knowledge record, recursively.
pub open spec fn wf_know(k: Know) -> bool
    decreases k,
{
    &&& wf_width(k.uns)
    &&& wf_width(k.sgn)
    &&& wf_width(k.byt)
    &&& (k.map matches Some(m) ==> wf_know(m.key) && wf_know(m.value))
}

/// The record of no knowledge at all.
pub open spec fn empty_know() -> Know {
    Know {
        uns: WidthKnow::Unseen,
        sgn: WidthKnow::Unseen,
        byt: WidthKnow::Unseen,
        boo: false,
        adr: false,
        map: None,
    }
}

/// The join of two scalar family records: unknown width is absorbed by any
/// concrete width; concrete widths accumulate as a set.
pub open spec fn combine_w(x: WidthKnow, y: WidthKnow) -> WidthKnow {
    match (x, y) {
        (WidthKnow::Unseen, other) => other,
        (other, WidthKnow::Unseen) => other,
        (WidthKnow::Unknown, other) => other,
        (other, WidthKnow::Unknown) => other,
        (WidthKnow::Widths { ws: s }, WidthKnow::Widths { ws: t }) => WidthKnow::Widths {
            ws: union_w(s, t),
        },
    }
}

/// The pointwise join of two knowledge records.
pub open spec fn combine(a: Know, b: Know) -> Know
    decreases a,
{
    Know {
        uns: combine_w(a.uns, b.uns),
        sgn: combine_w(a.sgn, b.sgn),
        byt: combine_w(a.byt, b.byt),
        boo: a.boo || b.boo,
        adr: a.adr || b.adr,
        map: match (a.map, b.map) {
            (None, other) => other,
            (other, None) => other,
            (Some(x), Some(y)) => Some(
                Box::new(
                    MapKnow { key: combine(x.key, y.key), value: combine(x.value, y.value) },
                ),
            ),
        },
    }
}

/// Joining preserves well-formedness of scalar family knowledge.
proof fn lemma_combine_w_wf(x: WidthKnow, y: WidthKnow)
    requires
        wf_width(x),
        wf_width(y),
    ensures
        wf_width(combine_w(x, y)),
{
    match (x, y) {
        (WidthKnow::Widths { ws: s }, WidthKnow::Widths { ws: t }) => {
            lemma_union_w_sorted(s, t);
            lemma_union_w_has(s, t);
            assert(has(s, s[0])) by {
                lemma_has_index(s, 0);
            }
            lemma_has_to_index(union_w(s, t), s[0]);
        },
        _ => {},
    }
}

/// Joining preserves well-formedness of knowledge records.
pub proof fn lemma_combine_wf(a: Know, b: Know)
    requires
        wf_know(a),
        wf_know(b),
    ensures
        wf_know(combine(a, b)),
    decreases a,
{
    lemma_combine_w_wf(a.uns, b.uns);
    lemma_combine_w_wf(a.sgn, b.sgn);
    lemma_combine_w_wf(a.byt, b.byt);
    match (a.map, b.map) {
        (Some(x), Some(y)) => {
            lemma_combine_wf(x.key, y.key);
            lemma_combine_wf(x.value, y.value);
        },
        _ => {},
    }
}

/// The join of scalar family knowledge is commutative.
proof fn lemma_combine_w_comm(x: WidthKnow, y: WidthKnow)
    requires
        wf_width(x),
        wf_width(y),
    ensures
        combine_w(x, y) == combine_w(y, x),
{
    match (x, y) {
        (WidthKnow::Widths { ws: s }, WidthKnow::Widths { ws: t }) => {
            lemma_union_w_comm(s, t);
        },
        _ => {},
    }
}

/// The join of knowledge records is commutative.
pub proof fn lemma_combine_comm(a: Know, b: Know)
    requires
        wf_know(a),
        wf_know(b),
    ensures
        combine(a, b) == combine(b, a),
    decreases a,
{
    lemma_combine_w_comm(a.uns, b.uns);
    lemma_combine_w_comm(a.sgn, b.sgn);
    lemma_combine_w_comm(a.byt, b.byt);
    match (a.map, b.map) {
        (Some(x), Some(y)) => {
            lemma_combine_comm(x.key, y.key);
            lemma_combine_comm(x.value, y.value);
        },
        _ => {},
    }
    assert(combine(a, b) =~= combine(b, a));
}

/// The join of scalar family knowledge is associative.
proof fn lemma_combine_w_assoc(x: WidthKnow, y: WidthKnow, z: WidthKnow)
    requires
        wf_width(x),
        wf_width(y),
        wf_width(z),
    ensures
        combine_w(combine_w(x, y), z) == combine_w(x, combine_w(y, z)),
{
    match (x, y, z) {
        (
            WidthKnow::Widths { ws: s },
            WidthKnow::Widths { ws: t },
            WidthKnow::Widths { ws: u },
        ) => {
            lemma_union_w_assoc(s, t, u);
        },
        _ => {},
    }
}

/// The join of knowledge records is associative.
pub proof fn lemma_combine_assoc(a: Know, b: Know, c: Know)
    requires
        wf_know(a),
        wf_know(b),
        wf_know(c),
    ensures
        combine(combine(a, b), c) == combine(a, combine(b, c)),
    decreases a,
{
    lemma_combine_w_assoc(a.uns, b.uns, c.uns);
    lemma_combine_w_assoc(a.sgn, b.sgn, c.sgn);
    lemma_combine_w_assoc(a.byt, b.byt, c.byt);
    match (a.map, b.map, c.map) {
        (Some(x), Some(y), Some(z)) => {
            lemma_combine_assoc(x.key, y.key, z.key);
            lemma_combine_assoc(x.value, y.value, z.value);
        },
        _ => {},
    }
    assert(combine(combine(a, b), c) =~= combine(a, combine(b, c)));
}

/// The empty record is a unit for the join.
pub proof fn lemma_combine_empty(a: Know)
    ensures
        combine(empty_know(), a) == a,
        combine(a, empty_know()) == a,
{
    assert(combine(empty_know(), a) =~= a);
    assert(combine(a, empty_know()) =~= a);
}

/// The specificity order on scalar family knowledge.
pub open spec fn width_le(x: WidthKnow, y: WidthKnow) -> bool {
    match (x, y) {
        (WidthKnow::Unseen, _) => true,
        (WidthKnow::Unknown, WidthKnow::Unknown) => true,
        (WidthKnow::Unknown, WidthKnow::Widths { .. }) => true,
        (WidthKnow::Widths { ws: s }, WidthKnow::Widths { ws: t }) => forall|x: u16|
            has(s, x) ==> has(t, x),
        _ => false,
    }
}

/// The specificity order on knowledge records: `a` is at most as specific as
/// `b` when everything `a` records, `b` records too.
pub open spec fn know_le(a: Know, b: Know) -> bool
    decreases a,
{
    &&& width_le(a.uns, b.uns)
    &&& width_le(a.sgn, b.sgn)
    &&& width_le(a.byt, b.byt)
    &&& (a.boo ==> b.boo)
    &&& (a.adr ==> b.adr)
    &&& match (a.map, b.map) {
        (None, _) => true,
        (Some(x), Some(y)) => know_le(x.key, y.key) && know_le(x.value, y.value),
        (Some(_), None) => false,
    }
}

/// The specificity order is reflexive.
pub proof fn lemma_know_le_refl(a: Know)
    ensures
        know_le(a, a),
    decreases a,
{
    match a.map {
        Some(x) => {
            lemma_know_le_refl(x.key);
            lemma_know_le_refl(x.value);
        },
        None => {},
    }
}

/// Joining more knowledge never loses specificity.
pub proof fn lemma_combine_le(a: Know, b: Know)
    ensures
        know_le(a, combine(a, b)),
        know_le(b, combine(a, b)),
    decreases a,
{
    lemma_know_le_refl(a);
    lemma_know_le_refl(b);
    match (a.uns, b.uns) {
        (WidthKnow::Widths { ws: s }, WidthKnow::Widths { ws: t }) => {
            lemma_union_w_has(s, t);
        },
        _ => {},
    }
    match (a.sgn, b.sgn) {
        (WidthKnow::Widths { ws: s }, WidthKnow::Widths { ws: t }) => {
            lemma_union_w_has(s, t);
        },
        _ => {},
    }
    match (a.byt, b.byt) {
        (WidthKnow::Widths { ws: s }, WidthKnow::Widths { ws: t }) => {
            lemma_union_w_has(s, t);
        },
        _ => {},
    }
    match (a.map, b.map) {
        (Some(x), Some(y)) => {
            lemma_combine_le(x.key, y.key);
            lemma_combine_le(x.value, y.value);
        },
        _ => {},
    }
}

/// Only the empty record sits below the empty record.
pub proof fn lemma_know_le_empty(a: Know)
    requires
        know_le(a, empty_know()),
    ensures
        a == empty_know(),
{
    assert(a =~= empty_know());
}

} // verus!
