//! The unifier: merging partial type knowledge and reducing constraint sets.
//!
//! [`merge`] combines two type expressions into the canonical expression for
//! their joint knowledge; [`reduce`] folds a whole constraint set. The merge
//! operator is specified through the factored knowledge model of
//! [`crate::knowledge`]: `merge(a, b)` is the canonical presentation
//! ([`canon`]) of the pointwise join of the models of `a` and `b`. The
//! algebraic laws required of the operator — commutativity, associativity,
//! and monotonicity of specificity — are proved here as
//! [`lemma_merge_commutative`], [`lemma_merge_associative`],
//! [`lemma_merge_monotone`] and [`lemma_reduce_monotone`].

use vstd::prelude::*;

use crate::expression::{te_view, te_view_seq, TeView, TE};
use crate::expression::{lemma_te_view_seq, lemma_te_view_seq_push};
use crate::knowledge::{
    combine, combine_w, empty_know, know_le, sorted_strict, union_w, wf_know, wf_width, Know,
    MapKnow, WidthKnow,
};
use crate::knowledge::{
    lemma_combine_assoc, lemma_combine_comm, lemma_combine_empty, lemma_combine_le,
    lemma_combine_wf, lemma_know_le_empty, lemma_union_w_cons,
};

verus! {

/// The three scalar word families that carry an optional width.
#[derive(Clone, Copy)]
pub enum ScalarFamily {
    /// Unsigned machine words.
    Unsigned,
    /// Signed machine words.
    Signed,
    /// Byte arrays.
    Bytes,
}

/// The type expression asserting the given family at the given width.
pub open spec fn family_te(f: ScalarFamily, width: Option<u16>) -> TeView {
    match f {
        ScalarFamily::Unsigned => TeView::UnsignedWord { width },
        ScalarFamily::Signed => TeView::SignedWord { width },
        ScalarFamily::Bytes => TeView::Bytes { length: width },
    }
}

/// The knowledge record holding the given family knowledge and nothing else.
pub open spec fn family_only(f: ScalarFamily, w: WidthKnow) -> Know {
    match f {
        ScalarFamily::Unsigned => Know {
            uns: w,
            sgn: WidthKnow::Unseen,
            byt: WidthKnow::Unseen,
            boo: false,
            adr: false,
            map: None,
        },
        ScalarFamily::Signed => Know {
            uns: WidthKnow::Unseen,
            sgn: w,
            byt: WidthKnow::Unseen,
            boo: false,
            adr: false,
            map: None,
        },
        ScalarFamily::Bytes => Know {
            uns: WidthKnow::Unseen,
            sgn: WidthKnow::Unseen,
            byt: w,
            boo: false,
            adr: false,
            map: None,
        },
    }
}

/// The family knowledge recorded for one asserted width.
pub open spec fn width_model(w: Option<u16>) -> WidthKnow {
    match w {
        None => WidthKnow::Unknown,
        Some(n) => WidthKnow::Widths { ws: seq![n] },
    }
}

/// The knowledge content of a type expression.
pub open spec fn model(t: TeView) -> Know
    decreases t,
{
    match t {
        TeView::Any => empty_know(),
        TeView::UnsignedWord { width } => family_only(ScalarFamily::Unsigned, width_model(width)),
        TeView::SignedWord { width } => family_only(ScalarFamily::Signed, width_model(width)),
        TeView::Bool => Know {
            uns: WidthKnow::Unseen,
            sgn: WidthKnow::Unseen,
            byt: WidthKnow::Unseen,
            boo: true,
            adr: false,
            map: None,
        },
        TeView::Address => Know {
            uns: WidthKnow::Unseen,
            sgn: WidthKnow::Unseen,
            byt: WidthKnow::Unseen,
            boo: false,
            adr: true,
            map: None,
        },
        TeView::Bytes { length } => family_only(ScalarFamily::Bytes, width_model(length)),
        TeView::Mapping { key, value } => Know {
            uns: WidthKnow::Unseen,
            sgn: WidthKnow::Unseen,
            byt: WidthKnow::Unseen,
            boo: false,
            adr: false,
            map: Some(Box::new(MapKnow { key: model(*key), value: model(*value) })),
        },
        TeView::Conflict { candidates } => model_seq(candidates),
    }
}

/// The combined knowledge content of a sequence of type expressions.
pub open spec fn model_seq(s: Seq<TeView>) -> Know
    decreases s,
{
    if s.len() == 0 {
        empty_know()
    } else {
        combine(model(s[0]), model_seq(s.drop_first()))
    }
}

/// The candidate expressions presenting one scalar family's knowledge.
pub open spec fn family_cands(f: ScalarFamily, w: WidthKnow) -> Seq<TeView> {
    match w {
        WidthKnow::Unseen => Seq::empty(),
        WidthKnow::Unknown => seq![family_te(f, None)],
        WidthKnow::Widths { ws } => Seq::new(ws.len(), |i: int| family_te(f, Some(ws[i]))),
    }
}

/// The definite candidate expressions presenting a knowledge record, in the
/// canonical order: unsigned widths ascending, signed widths, byte lengths,
/// boolean, address, mapping.
pub open spec fn cands_of(k: Know) -> Seq<TeView>
    decreases k, 0int,
{
    family_cands(ScalarFamily::Unsigned, k.uns) + family_cands(ScalarFamily::Signed, k.sgn)
        + family_cands(ScalarFamily::Bytes, k.byt) + (if k.boo {
        seq![TeView::Bool]
    } else {
        Seq::empty()
    }) + (if k.adr {
        seq![TeView::Address]
    } else {
        Seq::empty()
    }) + (match k.map {
        None => Seq::empty(),
        Some(m) => seq![
            TeView::Mapping { key: Box::new(canon(m.key)), value: Box::new(canon(m.value)) },
        ],
    })
}

/// The canonical presentation of a knowledge record: no knowledge is `Any`,
/// a single definite form is itself, several are a conflict.
pub open spec fn canon(k: Know) -> TeView
    decreases k, 1int,
{
    let cs = cands_of(k);
    if cs.len() == 0 {
        TeView::Any
    } else if cs.len() == 1 {
        cs[0]
    } else {
        TeView::Conflict { candidates: cs }
    }
}

/// What merging two type expressions yields: the canonical presentation of
/// the join of their knowledge.
pub open spec fn merge_spec(a: TeView, b: TeView) -> TeView {
    canon(combine(model(a), model(b)))
}

/// What reducing a constraint set yields: the canonical presentation of the
/// combined knowledge of all its members. An empty set reduces to `Any`.
pub open spec fn reduce_spec(s: Seq<TeView>) -> TeView {
    canon(model_seq(s))
}

/// `a` carries at most the knowledge of `b`.
pub open spec fn specificity_le(a: TeView, b: TeView) -> bool {
    know_le(model(a), model(b))
}

/// The knowledge content of any expression is well-formed.
pub proof fn lemma_model_wf(t: TeView)
    ensures
        wf_know(model(t)),
    decreases t,
{
    match t {
        TeView::Mapping { key, value } => {
            lemma_model_wf(*key);
            lemma_model_wf(*value);
        },
        TeView::Conflict { candidates } => {
            lemma_model_seq_wf(candidates);
        },
        _ => {},
    }
}

/// The combined knowledge content of any expression sequence is well-formed.
pub proof fn lemma_model_seq_wf(s: Seq<TeView>)
    ensures
        wf_know(model_seq(s)),
    decreases s,
{
    if s.len() > 0 {
        lemma_model_wf(s[0]);
        lemma_model_seq_wf(s.drop_first());
        lemma_combine_wf(model(s[0]), model_seq(s.drop_first()));
    }
}

/// Combined knowledge distributes over concatenation.
pub proof fn lemma_model_seq_append(s: Seq<TeView>, t: Seq<TeView>)
    ensures
        model_seq(s + t) == combine(model_seq(s), model_seq(t)),
    decreases s,
{
    if s.len() == 0 {
        assert(s + t =~= t);
        lemma_combine_empty(model_seq(t));
    } else {
        assert((s + t).drop_first() =~= s.drop_first() + t);
        assert((s + t)[0] == s[0]);
        lemma_model_seq_append(s.drop_first(), t);
        lemma_model_wf(s[0]);
        lemma_model_seq_wf(s.drop_first());
        lemma_model_seq_wf(t);
        lemma_combine_assoc(model(s[0]), model_seq(s.drop_first()), model_seq(t));
    }
}

/// Combined knowledge of one appended expression.
pub proof fn lemma_model_seq_push(s: Seq<TeView>, x: TeView)
    ensures
        model_seq(s.push(x)) == combine(model_seq(s), model(x)),
{
    assert(s.push(x) =~= s + seq![x]);
    lemma_model_seq_append(s, seq![x]);
    assert(model_seq(seq![x]) == model(x)) by {
        assert(seq![x].drop_first().len() == 0);
        assert(model_seq(seq![x].drop_first()) == empty_know());
        assert(seq![x][0] == x);
        lemma_combine_empty(model(x));
    }
}

/// The candidates of one scalar family model exactly that family's
/// knowledge.
proof fn lemma_family_widths(f: ScalarFamily, ws: Seq<u16>)
    requires
        sorted_strict(ws),
        ws.len() > 0,
    ensures
        model_seq(Seq::new(ws.len(), |i: int| family_te(f, Some(ws[i])))) == family_only(
            f,
            WidthKnow::Widths { ws },
        ),
    decreases ws,
{
    let s = Seq::new(ws.len(), |i: int| family_te(f, Some(ws[i])));
    assert(model(s[0]) == family_only(f, WidthKnow::Widths { ws: seq![ws[0]] }));
    if ws.len() == 1 {
        assert(s.drop_first().len() == 0);
        assert(model_seq(s.drop_first()) == empty_know());
        lemma_combine_empty(model(s[0]));
        assert(model_seq(s) == model(s[0]));
        assert(ws =~= seq![ws[0]]);
        assert(model_seq(s) =~~= family_only(f, WidthKnow::Widths { ws }));
    } else {
        let wt = ws.drop_first();
        assert(sorted_strict(wt)) by {
            assert(forall|i: int, j: int|
                0 <= i && i < j && j < wt.len() ==> wt[i] == ws[i + 1] && wt[j] == ws[j + 1]);
        }
        lemma_family_widths(f, wt);
        assert(s.drop_first() =~= Seq::new(wt.len(), |i: int| family_te(f, Some(wt[i]))));
        lemma_union_w_cons(ws);
        assert(model_seq(s) == combine(model(s[0]), model_seq(s.drop_first())));
        assert(combine(
            family_only(f, WidthKnow::Widths { ws: seq![ws[0]] }),
            family_only(f, WidthKnow::Widths { ws: wt }),
        ) =~~= family_only(f, WidthKnow::Widths { ws: union_w(seq![ws[0]], wt) }));
        assert(model_seq(s) =~~= family_only(f, WidthKnow::Widths { ws }));
    }
}

/// The candidates of one scalar family model exactly that family's
/// knowledge.
proof fn lemma_family_cands(f: ScalarFamily, w: WidthKnow)
    requires
        wf_width(w),
    ensures
        model_seq(family_cands(f, w)) == family_only(f, w),
{
    match w {
        WidthKnow::Unseen => {
            assert(family_cands(f, w).len() == 0);
            assert(model_seq(family_cands(f, w)) == empty_know());
            assert(model_seq(family_cands(f, w)) =~~= family_only(f, w));
        },
        WidthKnow::Unknown => {
            let s = family_cands(f, w);
            assert(s.drop_first().len() == 0);
            assert(model_seq(s.drop_first()) == empty_know());
            lemma_combine_empty(model(s[0]));
            assert(model_seq(s) == model(s[0]));
            assert(model_seq(s) =~~= family_only(f, w));
        },
        WidthKnow::Widths { ws } => {
            lemma_family_widths(f, ws);
        },
    }
}

/// The full candidate sequence of a well-formed knowledge record models the
/// record itself.
proof fn lemma_model_cands(k: Know)
    requires
        wf_know(k),
    ensures
        model_seq(cands_of(k)) == k,
    decreases k, 0int,
{
    let su = family_cands(ScalarFamily::Unsigned, k.uns);
    let ss = family_cands(ScalarFamily::Signed, k.sgn);
    let sb = family_cands(ScalarFamily::Bytes, k.byt);
    let sboo: Seq<TeView> = if k.boo {
        seq![TeView::Bool]
    } else {
        Seq::empty()
    };
    let sadr: Seq<TeView> = if k.adr {
        seq![TeView::Address]
    } else {
        Seq::empty()
    };
    let smap: Seq<TeView> = match k.map {
        None => Seq::empty(),
        Some(m) => seq![
            TeView::Mapping { key: Box::new(canon(m.key)), value: Box::new(canon(m.value)) },
        ],
    };
    lemma_family_cands(ScalarFamily::Unsigned, k.uns);
    lemma_family_cands(ScalarFamily::Signed, k.sgn);
    lemma_family_cands(ScalarFamily::Bytes, k.byt);
    if k.boo {
        assert(sboo[0] == TeView::Bool);
        assert(sboo.drop_first().len() == 0);
        assert(model_seq(sboo.drop_first()) == empty_know());
        lemma_combine_empty(model(TeView::Bool));
        assert(model_seq(sboo) == model(TeView::Bool));
    } else {
        assert(model_seq(sboo) == empty_know());
    }
    if k.adr {
        assert(sadr[0] == TeView::Address);
        assert(sadr.drop_first().len() == 0);
        assert(model_seq(sadr.drop_first()) == empty_know());
        lemma_combine_empty(model(TeView::Address));
        assert(model_seq(sadr) == model(TeView::Address));
    } else {
        assert(model_seq(sadr) == empty_know());
    }
    match k.map {
        Some(m) => {
            lemma_canon_model(m.key);
            lemma_canon_model(m.value);
            assert(smap.drop_first().len() == 0);
            assert(model_seq(smap.drop_first()) == empty_know());
            lemma_combine_empty(model(smap[0]));
            assert(model_seq(smap) == model(smap[0]));
        },
        None => {},
    }
    lemma_model_seq_append(su, ss);
    lemma_model_seq_append(su + ss, sb);
    lemma_model_seq_append(su + ss + sb, sboo);
    lemma_model_seq_append(su + ss + sb + sboo, sadr);
    lemma_model_seq_append(su + ss + sb + sboo + sadr, smap);
    assert(cands_of(k) == su + ss + sb + sboo + sadr + smap);
    let mu = family_only(ScalarFamily::Unsigned, k.uns);
    let ms = family_only(ScalarFamily::Signed, k.sgn);
    let mb = family_only(ScalarFamily::Bytes, k.byt);
    let mboo = model_seq(sboo);
    let madr = model_seq(sadr);
    let mmap = model_seq(smap);
    assert(mboo.uns is Unseen && mboo.sgn is Unseen && mboo.byt is Unseen && !mboo.adr
        && mboo.map is None && mboo.boo == k.boo);
    assert(madr.uns is Unseen && madr.sgn is Unseen && madr.byt is Unseen && !madr.boo
        && madr.map is None && madr.adr == k.adr);
    assert(mmap.uns is Unseen && mmap.sgn is Unseen && mmap.byt is Unseen && !mmap.boo
        && !mmap.adr);
    let total = combine(combine(combine(combine(combine(mu, ms), mb), mboo), madr), mmap);
    assert(model_seq(cands_of(k)) == total);
    assert(total.uns == k.uns);
    assert(total.sgn == k.sgn);
    assert(total.byt == k.byt);
    assert(total.boo == k.boo);
    assert(total.adr == k.adr);
    assert(total.map =~~= k.map);
    assert(total =~= k);
}

/// Canonical presentation is a faithful presentation: reading its knowledge
/// back gives the record it presents.
pub proof fn lemma_canon_model(k: Know)
    requires
        wf_know(k),
    ensures
        model(canon(k)) == k,
    decreases k, 1int,
{
    lemma_model_cands(k);
    let cs = cands_of(k);
    if cs.len() == 0 {
    } else if cs.len() == 1 {
        assert(cs.drop_first().len() == 0);
        assert(model_seq(cs.drop_first()) == empty_know());
        lemma_combine_empty(model(cs[0]));
        assert(model_seq(cs) == model(cs[0]));
    } else {
    }
}

/// A knowledge record presents as `Any` exactly when it is empty.
pub proof fn lemma_canon_any(k: Know)
    requires
        wf_know(k),
    ensures
        (canon(k) == TeView::Any) <==> (k == empty_know()),
{
    lemma_canon_model(k);
    if canon(k) == TeView::Any {
        assert(k == model(TeView::Any));
    }
    if k == empty_know() {
        assert(cands_of(k).len() == 0);
    }
}

/// Canonicity: an expression is canonical when it is exactly the
/// presentation of its own knowledge. Merge results are always canonical.
pub open spec fn canonical(t: TeView) -> bool {
    canon(model(t)) == t
}

/// Every merge result is canonical.
pub proof fn lemma_merge_canonical(a: TeView, b: TeView)
    ensures
        canonical(merge_spec(a, b)),
{
    lemma_model_wf(a);
    lemma_model_wf(b);
    lemma_combine_wf(model(a), model(b));
    lemma_canon_model(combine(model(a), model(b)));
}

/// `Any` is neutral: merging with it yields the canonical presentation of
/// the other side — and leaves a canonical expression, a conflict included,
/// unchanged.
pub proof fn lemma_merge_any(t: TeView)
    ensures
        merge_spec(TeView::Any, t) == canon(model(t)),
        canonical(t) ==> merge_spec(TeView::Any, t) == t,
        canonical(t) ==> merge_spec(t, TeView::Any) == t,
{
    lemma_combine_empty(model(t));
    lemma_merge_commutative(TeView::Any, t);
}

/// Unknown width generalizes; a concrete width wins.
pub proof fn lemma_merge_width_wins(n: u16)
    ensures
        merge_spec(
            TeView::UnsignedWord { width: None },
            TeView::UnsignedWord { width: Some(n) },
        ) == (TeView::UnsignedWord { width: Some(n) }),
{
    let k = combine(
        model(TeView::UnsignedWord { width: None }),
        model(TeView::UnsignedWord { width: Some(n) }),
    );
    assert(k.uns == WidthKnow::Widths { ws: seq![n] });
    assert(family_cands(ScalarFamily::Unsigned, k.uns) =~= seq![
        TeView::UnsignedWord { width: Some(n) },
    ]);
    assert(cands_of(k) =~= seq![TeView::UnsignedWord { width: Some(n) }]);
}

/// Two distinct concrete widths of one family are a conflict that keeps
/// both candidates.
pub proof fn lemma_merge_width_conflict(n: u16, m: u16)
    requires
        n < m,
    ensures
        merge_spec(
            TeView::UnsignedWord { width: Some(n) },
            TeView::UnsignedWord { width: Some(m) },
        ) == (TeView::Conflict {
            candidates: seq![
                TeView::UnsignedWord { width: Some(n) },
                TeView::UnsignedWord { width: Some(m) },
            ],
        }),
{
    let k = combine(
        model(TeView::UnsignedWord { width: Some(n) }),
        model(TeView::UnsignedWord { width: Some(m) }),
    );
    assert(seq![n].drop_first().len() == 0);
    assert(union_w(seq![n].drop_first(), seq![m]) == seq![m]);
    assert(union_w(seq![n], seq![m]) =~= seq![n, m]);
    assert(k.uns == WidthKnow::Widths { ws: seq![n, m] });
    assert(family_cands(ScalarFamily::Unsigned, k.uns) =~= seq![
        TeView::UnsignedWord { width: Some(n) },
        TeView::UnsignedWord { width: Some(m) },
    ]);
    assert(cands_of(k) =~= seq![
        TeView::UnsignedWord { width: Some(n) },
        TeView::UnsignedWord { width: Some(m) },
    ]);
}

/// Mappings merge structurally: keys with keys, values with values, so a
/// conflict in one branch degrades only that branch, never the enclosing
/// mapping.
pub proof fn lemma_merge_mapping(k1: TeView, v1: TeView, k2: TeView, v2: TeView)
    ensures
        merge_spec(
            TeView::Mapping { key: Box::new(k1), value: Box::new(v1) },
            TeView::Mapping { key: Box::new(k2), value: Box::new(v2) },
        ) == (TeView::Mapping {
            key: Box::new(merge_spec(k1, k2)),
            value: Box::new(merge_spec(v1, v2)),
        }),
{
    let a = TeView::Mapping { key: Box::new(k1), value: Box::new(v1) };
    let b = TeView::Mapping { key: Box::new(k2), value: Box::new(v2) };
    let k = combine(model(a), model(b));
    assert(cands_of(k) =~= seq![
        TeView::Mapping {
            key: Box::new(merge_spec(k1, k2)),
            value: Box::new(merge_spec(v1, v2)),
        },
    ]);
}

/// Merging is commutative: the order of the two sides never matters.
pub proof fn lemma_merge_commutative(a: TeView, b: TeView)
    ensures
        merge_spec(a, b) == merge_spec(b, a),
{
    lemma_model_wf(a);
    lemma_model_wf(b);
    lemma_combine_comm(model(a), model(b));
}

/// Merging is associative: grouping of successive merges never matters.
pub proof fn lemma_merge_associative(a: TeView, b: TeView, c: TeView)
    ensures
        merge_spec(merge_spec(a, b), c) == merge_spec(a, merge_spec(b, c)),
{
    lemma_model_wf(a);
    lemma_model_wf(b);
    lemma_model_wf(c);
    lemma_combine_wf(model(a), model(b));
    lemma_combine_wf(model(b), model(c));
    lemma_canon_model(combine(model(a), model(b)));
    lemma_canon_model(combine(model(b), model(c)));
    lemma_combine_assoc(model(a), model(b), model(c));
}

/// Merging never loses specificity: each side sits below the result.
pub proof fn lemma_merge_monotone(a: TeView, b: TeView)
    ensures
        specificity_le(a, merge_spec(a, b)),
        specificity_le(b, merge_spec(a, b)),
{
    lemma_model_wf(a);
    lemma_model_wf(b);
    lemma_combine_wf(model(a), model(b));
    lemma_canon_model(combine(model(a), model(b)));
    lemma_combine_le(model(a), model(b));
}

/// Executable counterpart of [`WidthKnow`].
enum WidthFacts {
    /// The family was never asserted.
    Unseen,
    /// The family was asserted with no concrete width.
    Unknown,
    /// The concrete widths asserted, sorted strictly ascending.
    Widths { ws: Vec<u16> },
}

impl View for WidthFacts {
    type V = WidthKnow;

    closed spec fn view(&self) -> WidthKnow {
        match self {
            WidthFacts::Unseen => WidthKnow::Unseen,
            WidthFacts::Unknown => WidthKnow::Unknown,
            WidthFacts::Widths { ws } => WidthKnow::Widths { ws: ws@ },
        }
    }
}

/// Executable counterpart of [`Know`].
struct Facts {
    uns: WidthFacts,
    sgn: WidthFacts,
    byt: WidthFacts,
    boo: bool,
    adr: bool,
    map: Option<Box<MapFacts>>,
}

/// Executable counterpart of [`MapKnow`].
struct MapFacts {
    key: Facts,
    value: Facts,
}

/// The knowledge record an executable fact record stands for.
spec fn facts_view(f: Facts) -> Know
    decreases f,
{
    Know {
        uns: f.uns@,
        sgn: f.sgn@,
        byt: f.byt@,
        boo: f.boo,
        adr: f.adr,
        map: match f.map {
            None => None,
            Some(m) => Some(Box::new(MapKnow { key: facts_view(m.key), value: facts_view(m.value) })),
        },
    }
}

impl View for Facts {
    type V = Know;

    closed spec fn view(&self) -> Know {
        facts_view(*self)
    }
}

/// The fact record holding no knowledge.
fn empty_facts() -> (r: Facts)
    ensures
        r@ == empty_know(),
{
    Facts {
        uns: WidthFacts::Unseen,
        sgn: WidthFacts::Unseen,
        byt: WidthFacts::Unseen,
        boo: false,
        adr: false,
        map: None,
    }
}

/// Merges two sorted width vectors into their sorted union.
fn union_vec(a: &Vec<u16>, b: &Vec<u16>) -> (r: Vec<u16>)
    ensures
        r@ == union_w(a@, b@),
{
    let mut r: Vec<u16> = Vec::new();
    let mut i: usize = 0;
    let mut j: usize = 0;
    proof {
        assert(a@.skip(0) =~= a@);
        assert(b@.skip(0) =~= b@);
        assert(Seq::<u16>::empty() + union_w(a@, b@) =~= union_w(a@, b@));
    }
    while i < a.len() || j < b.len()
        invariant
            i <= a@.len(),
            j <= b@.len(),
            union_w(a@, b@) == r@ + union_w(a@.skip(i as int), b@.skip(j as int)),
        decreases a@.len() - i + b@.len() - j,
    {
        let ghost sa = a@.skip(i as int);
        let ghost sb = b@.skip(j as int);
        if i == a.len() {
            proof {
                assert(sa.len() == 0);
                assert(sb.drop_first() =~= b@.skip(j as int + 1));
                assert(union_w(sa, sb) == sb);
                assert(sb =~= seq![b@[j as int]] + b@.skip(j as int + 1));
                assert(r@.push(b@[j as int]) + b@.skip(j as int + 1) =~= r@ + sb);
                assert(union_w(a@.skip(i as int), b@.skip(j as int + 1)) == b@.skip(
                    j as int + 1,
                ));
            }
            r.push(b[j]);
            j = j + 1;
        } else if j == b.len() {
            proof {
                assert(sb.len() == 0);
                assert(sa.drop_first() =~= a@.skip(i as int + 1));
                assert(union_w(sa, sb) == sa);
                assert(sa =~= seq![a@[i as int]] + a@.skip(i as int + 1));
                assert(r@.push(a@[i as int]) + a@.skip(i as int + 1) =~= r@ + sa);
                assert(union_w(a@.skip(i as int + 1), b@.skip(j as int)) == a@.skip(
                    i as int + 1,
                ));
            }
            r.push(a[i]);
            i = i + 1;
        } else if a[i] == b[j] {
            proof {
                assert(sa.drop_first() =~= a@.skip(i as int + 1));
                assert(sb.drop_first() =~= b@.skip(j as int + 1));
                assert(union_w(sa, sb) == seq![sa[0]] + union_w(
                    a@.skip(i as int + 1),
                    b@.skip(j as int + 1),
                ));
                assert(r@.push(a@[i as int]) + union_w(a@.skip(i as int + 1), b@.skip(j as int + 1))
                    =~= r@ + union_w(sa, sb));
            }
            r.push(a[i]);
            i = i + 1;
            j = j + 1;
        } else if a[i] < b[j] {
            proof {
                assert(sa.drop_first() =~= a@.skip(i as int + 1));
                assert(union_w(sa, sb) == seq![sa[0]] + union_w(a@.skip(i as int + 1), sb));
                assert(r@.push(a@[i as int]) + union_w(a@.skip(i as int + 1), b@.skip(j as int))
                    =~= r@ + union_w(sa, sb));
            }
            r.push(a[i]);
            i = i + 1;
        } else {
            proof {
                assert(sb.drop_first() =~= b@.skip(j as int + 1));
                assert(union_w(sa, sb) == seq![sb[0]] + union_w(sa, b@.skip(j as int + 1)));
                assert(r@.push(b@[j as int]) + union_w(a@.skip(i as int), b@.skip(j as int + 1))
                    =~= r@ + union_w(sa, sb));
            }
            r.push(b[j]);
            j = j + 1;
        }
    }
    proof {
        assert(a@.skip(i as int).len() == 0);
        assert(union_w(a@.skip(i as int), b@.skip(j as int)).len() == 0);
        assert(r@ + union_w(a@.skip(i as int), b@.skip(j as int)) =~= r@);
    }
    r
}

/// Joins two scalar family fact records.
fn combine_width(x: WidthFacts, y: WidthFacts) -> (r: WidthFacts)
    ensures
        r@ == combine_w(x@, y@),
{
    match (x, y) {
        (WidthFacts::Unseen, other) => other,
        (other, WidthFacts::Unseen) => other,
        (WidthFacts::Unknown, other) => other,
        (other, WidthFacts::Unknown) => other,
        (WidthFacts::Widths { ws: s }, WidthFacts::Widths { ws: t }) => {
            let u = union_vec(&s, &t);
            WidthFacts::Widths { ws: u }
        },
    }
}

/// Joins two fact records pointwise.
fn combine_facts(a: Facts, b: Facts) -> (r: Facts)
    ensures
        r@ == combine(a@, b@),
    decreases a,
{
    let ghost av = a@;
    let ghost bv = b@;
    let Facts { uns: au, sgn: asg, byt: aby, boo: abo, adr: aad, map: amap } = a;
    let Facts { uns: bu, sgn: bsg, byt: bby, boo: bbo, adr: bad, map: bmap } = b;
    let map: Option<Box<MapFacts>> = match (amap, bmap) {
        (None, other) => other,
        (other, None) => other,
        (Some(x), Some(y)) => {
            let xk = *x;
            let yk = *y;
            let key = combine_facts(xk.key, yk.key);
            let value = combine_facts(xk.value, yk.value);
            Some(Box::new(MapFacts { key, value }))
        },
    };
    let r = Facts {
        uns: combine_width(au, bu),
        sgn: combine_width(asg, bsg),
        byt: combine_width(aby, bby),
        boo: abo || bbo,
        adr: aad || bad,
        map,
    };
    proof {
        assert(r@ =~~= combine(av, bv));
    }
    r
}

/// Extracts the knowledge content of a type expression.
fn facts_of(t: &TE) -> (r: Facts)
    ensures
        r@ == model(t@),
    decreases t,
{
    match t {
        TE::Any => empty_facts(),
        TE::UnsignedWord { width } => {
            let mut r = empty_facts();
            r.uns = width_facts(*width);
            r
        },
        TE::SignedWord { width } => {
            let mut r = empty_facts();
            r.sgn = width_facts(*width);
            r
        },
        TE::Bool => {
            let mut r = empty_facts();
            r.boo = true;
            r
        },
        TE::Address => {
            let mut r = empty_facts();
            r.adr = true;
            r
        },
        TE::Bytes { length } => {
            let mut r = empty_facts();
            r.byt = width_facts(*length);
            r
        },
        TE::Mapping { key, value } => {
            let fk = facts_of(key);
            let fv = facts_of(value);
            let mut r = empty_facts();
            r.map = Some(Box::new(MapFacts { key: fk, value: fv }));
            r
        },
        TE::Conflict { candidates } => {
            let ghost views = te_view_seq(candidates@);
            proof {
                lemma_te_view_seq(candidates@);
            }
            let mut acc = empty_facts();
            let mut idx: usize = 0;
            proof {
                assert(views.take(0) =~= Seq::empty());
            }
            while idx < candidates.len()
                invariant
                    *t is Conflict,
                    t->Conflict_candidates == *candidates,
                    idx <= candidates@.len(),
                    views == te_view_seq(candidates@),
                    views.len() == candidates@.len(),
                    forall|k: int| 0 <= k < views.len() ==> views[k] == te_view(candidates@[k]),
                    acc@ == model_seq(views.take(idx as int)),
                decreases candidates@.len() - idx,
            {
                proof {
                    assert(decreases_to!(*t => t->Conflict_candidates));
                    assert(decreases_to!(t->Conflict_candidates => t->Conflict_candidates@[idx as int]));
                    assert(decreases_to!(*t => candidates@[idx as int]));
                }
                let f = facts_of(&candidates[idx]);
                proof {
                    lemma_model_seq_push(views.take(idx as int), views[idx as int]);
                    assert(views.take(idx as int + 1) =~= views.take(idx as int).push(
                        views[idx as int],
                    ));
                }
                acc = combine_facts(acc, f);
                idx = idx + 1;
            }
            proof {
                assert(views.take(candidates@.len() as int) =~= views);
            }
            acc
        },
    }
}

/// The family fact record for one asserted width.
fn width_facts(w: Option<u16>) -> (r: WidthFacts)
    ensures
        r@ == width_model(w),
{
    match w {
        None => WidthFacts::Unknown,
        Some(n) => {
            let mut ws: Vec<u16> = Vec::new();
            ws.push(n);
            proof {
                assert(ws@ =~= seq![n]);
            }
            WidthFacts::Widths { ws }
        },
    }
}

/// The expression asserting the given family at the given width.
fn family_expr(f: ScalarFamily, width: Option<u16>) -> (r: TE)
    ensures
        r@ == family_te(f, width),
{
    match f {
        ScalarFamily::Unsigned => TE::UnsignedWord { width },
        ScalarFamily::Signed => TE::SignedWord { width },
        ScalarFamily::Bytes => TE::Bytes { length: width },
    }
}

/// Appends the candidate expressions of one scalar family.
fn push_family_cands(cs: &mut Vec<TE>, f: ScalarFamily, w: WidthFacts)
    ensures
        te_view_seq(final(cs)@) == te_view_seq(old(cs)@) + family_cands(f, w@),
{
    match w {
        WidthFacts::Unseen => {
            proof {
                assert(te_view_seq(cs@) =~= te_view_seq(old(cs)@) + family_cands(f, w@));
            }
        },
        WidthFacts::Unknown => {
            let ghost pre = cs@;
            let e = family_expr(f, None);
            proof {
                lemma_te_view_seq_push(pre, e);
            }
            cs.push(e);
            proof {
                assert(te_view_seq(cs@) =~= te_view_seq(old(cs)@) + family_cands(
                    f,
                    WidthKnow::Unknown,
                ));
            }
        },
        WidthFacts::Widths { ws } => {
            let ghost wsv = ws@;
            let mut i: usize = 0;
            proof {
                assert(te_view_seq(cs@) =~= te_view_seq(old(cs)@) + Seq::new(
                    0,
                    |j: int| family_te(f, Some(wsv[j])),
                ));
            }
            while i < ws.len()
                invariant
                    i <= wsv.len(),
                    wsv == ws@,
                    te_view_seq(cs@) == te_view_seq(old(cs)@) + Seq::new(
                        i as nat,
                        |j: int| family_te(f, Some(wsv[j])),
                    ),
                decreases wsv.len() - i,
            {
                let ghost pre = cs@;
                let e = family_expr(f, Some(ws[i]));
                proof {
                    lemma_te_view_seq_push(pre, e);
                }
                cs.push(e);
                proof {
                    assert(te_view_seq(cs@) =~= te_view_seq(old(cs)@) + Seq::new(
                        (i + 1) as nat,
                        |j: int| family_te(f, Some(wsv[j])),
                    ));
                }
                i = i + 1;
            }
            proof {
                assert(Seq::new(wsv.len(), |j: int| family_te(f, Some(wsv[j]))) =~= family_cands(
                    f,
                    WidthKnow::Widths { ws: wsv },
                ));
            }
        },
    }
}

/// Builds the canonical type expression presenting a fact record.
fn te_of_facts(f: Facts) -> (r: TE)
    ensures
        r@ == canon(f@),
    decreases f,
{
    let ghost fv = f@;
    let Facts { uns, sgn, byt, boo, adr, map } = f;
    let mut cs: Vec<TE> = Vec::new();
    proof {
        assert(te_view_seq(cs@) =~= Seq::<TeView>::empty());
    }
    push_family_cands(&mut cs, ScalarFamily::Unsigned, uns);
    let ghost c1 = te_view_seq(cs@);
    push_family_cands(&mut cs, ScalarFamily::Signed, sgn);
    let ghost c2 = te_view_seq(cs@);
    push_family_cands(&mut cs, ScalarFamily::Bytes, byt);
    let ghost c3 = te_view_seq(cs@);
    if boo {
        let ghost pre = cs@;
        proof {
            lemma_te_view_seq_push(pre, TE::Bool);
        }
        cs.push(TE::Bool);
    }
    let ghost c4 = te_view_seq(cs@);
    if adr {
        let ghost pre = cs@;
        proof {
            lemma_te_view_seq_push(pre, TE::Address);
        }
        cs.push(TE::Address);
    }
    let ghost c5 = te_view_seq(cs@);
    match map {
        Some(m) => {
            let mk = *m;
            let kt = te_of_facts(mk.key);
            let vt = te_of_facts(mk.value);
            let ghost pre = cs@;
            let e = TE::Mapping { key: Box::new(kt), value: Box::new(vt) };
            proof {
                lemma_te_view_seq_push(pre, e);
            }
            cs.push(e);
        },
        None => {},
    }
    proof {
        assert(te_view_seq(cs@) =~= cands_of(fv));
        lemma_te_view_seq(cs@);
    }
    if cs.len() == 0 {
        TE::Any
    } else if cs.len() == 1 {
        let r = cs.remove(0);
        proof {
            assert(r@ == cands_of(fv)[0]);
        }
        r
    } else {
        TE::Conflict { candidates: cs }
    }
}

/// Merges two type expressions into the canonical expression of their joint
/// knowledge.
///
/// The operator is total, commutative and associative
/// ([`lemma_merge_commutative`], [`lemma_merge_associative`]): `Any` is a
/// neutral element, unknown widths are absorbed by concrete ones, mappings
/// merge structurally, and incompatible definite forms accumulate into a
/// conflict.
pub fn merge(a: &TE, b: &TE) -> (r: TE)
    ensures
        r@ == merge_spec(a@, b@),
{
    let fa = facts_of(a);
    let fb = facts_of(b);
    let fc = combine_facts(fa, fb);
    te_of_facts(fc)
}

/// Reduces a constraint set to the single best-known type expression, by
/// folding [`merge`] over it in insertion order. The result is independent
/// of that order.
pub fn reduce(constraints: &Vec<TE>) -> (r: TE)
    ensures
        r@ == reduce_spec(te_view_seq(constraints@)),
{
    let ghost views = te_view_seq(constraints@);
    proof {
        lemma_te_view_seq(constraints@);
    }
    let mut acc = TE::Any;
    let mut i: usize = 0;
    proof {
        assert(views.take(0) =~= Seq::empty());
        assert(cands_of(empty_know()).len() == 0);
    }
    while i < constraints.len()
        invariant
            i <= constraints@.len(),
            views == te_view_seq(constraints@),
            views.len() == constraints@.len(),
            forall|k: int| 0 <= k < views.len() ==> views[k] == te_view(constraints@[k]),
            acc@ == reduce_spec(views.take(i as int)),
        decreases constraints@.len() - i,
    {
        let next = merge(&acc, &constraints[i]);
        proof {
            lemma_model_seq_wf(views.take(i as int));
            lemma_canon_model(model_seq(views.take(i as int)));
            lemma_model_seq_push(views.take(i as int), views[i as int]);
            assert(views.take(i as int + 1) =~= views.take(i as int).push(views[i as int]));
        }
        acc = next;
        i = i + 1;
    }
    proof {
        assert(views.take(constraints@.len() as int) =~= views);
    }
    acc
}

/// Accumulating further constraints never makes the reduced type less
/// specific, and never reverts it to `Any`.
pub proof fn lemma_reduce_monotone(s: Seq<TeView>, t: Seq<TeView>)
    ensures
        specificity_le(reduce_spec(s), reduce_spec(s + t)),
        reduce_spec(s) != TeView::Any ==> reduce_spec(s + t) != TeView::Any,
{
    lemma_model_seq_wf(s);
    lemma_model_seq_wf(t);
    lemma_model_seq_append(s, t);
    lemma_combine_wf(model_seq(s), model_seq(t));
    lemma_canon_model(model_seq(s));
    lemma_canon_model(model_seq(s + t));
    lemma_combine_le(model_seq(s), model_seq(t));
    lemma_canon_any(model_seq(s));
    lemma_canon_any(model_seq(s + t));
    if model_seq(s + t) == empty_know() {
        lemma_know_le_empty(model_seq(s));
    }
}

} // verus!
