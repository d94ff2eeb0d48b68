//! The analysis pipeline: from a symbolic value graph to a storage layout.
//!
//! [`analyze`] registers every node of the externally built graph into a
//! fresh [`InferenceState`], runs the rule catalogue to a fixpoint under a
//! cooperative cancellation signal, and assembles the storage layout: every
//! storage read and write whose key resolves to a concrete slot index
//! contributes a typed fragment at a bit offset within that slot; fragments
//! meeting at the same place are merged, so incompatible evidence surfaces
//! as a conflicted type; accesses whose key stays symbolic are simply left
//! out. Slots appear in the order their accesses are first discovered.

use vstd::prelude::*;

use crate::abi::{abi_of_te, te_to_abi};
use crate::engine::{run_model, run_to_fixpoint};
use crate::error::AnalysisError;
use crate::expression::{TeView, TE};
use crate::layout::{has_pair, SlotView, StorageLayout};
use crate::state::{register_id_spec, register_spec, InferenceState, StateView};
use crate::unifier::{merge, merge_spec, reduce, reduce_spec};
use crate::value::{check_ops, ops_below, remap, remap_spec, Provenance, SymbolicValue, SVD};
use crate::watchdog::Watchdog;

verus! {

/// The default defensive ceiling on rule passes.
pub const DEFAULT_PASS_CEILING: usize = 64;

/// Validity of an input graph: every node's operands come strictly before
/// it, so the graph is acyclic and topologically ordered.
pub open spec fn graph_wf(g: Seq<SymbolicValue>) -> bool {
    forall|i: int| 0 <= i < g.len() ==> ops_below(g[i], i as nat)
}

/// The state and identity table after registering the first `i` nodes of
/// the graph, operand indices remapped to registered identities.
pub open spec fn reg_upto(g: Seq<SymbolicValue>, i: int) -> (StateView, Seq<usize>)
    decreases i,
{
    if i <= 0 {
        (StateView { values: Seq::empty(), infs: Seq::empty() }, Seq::empty())
    } else {
        let prev = reg_upto(g, i - 1);
        let v = SymbolicValue {
            provenance: g[i - 1].provenance,
            data: remap_spec(g[i - 1].data, prev.1),
        };
        (register_spec(prev.0, v), prev.1.push(register_id_spec(prev.0, v) as usize))
    }
}

/// The state after registering the whole graph.
pub open spec fn register_graph_spec(g: Seq<SymbolicValue>) -> StateView {
    reg_upto(g, g.len() as int).0
}

/// Remapping operands through a table of registered identities keeps them
/// registered.
proof fn lemma_remap_ops(d: SVD, t: Seq<usize>, n: nat)
    requires
        ops_below(SymbolicValue { provenance: Provenance::Synthetic, data: d }, t.len()),
        forall|k: int| 0 <= k < t.len() ==> t[k] < n,
    ensures
        ops_below(
            SymbolicValue { provenance: Provenance::Synthetic, data: remap_spec(d, t) },
            n,
        ),
{
}

/// Resolves the storage key registered at `id` to a concrete slot index and
/// the chain of mapping-key operands wrapped around it, innermost first.
/// A key that stays symbolic resolves to nothing.
pub open spec fn chase_spec(s: StateView, id: int) -> Option<(usize, Seq<usize>)>
    decreases id,
{
    if id < 0 || id >= s.values.len() {
        None
    } else {
        match s.values[id].data {
            SVD::Literal { value } => if value.limb1 == 0 && value.limb2 == 0 && value.limb3 == 0
                && value.limb0 <= usize::MAX as u64 {
                Some((value.limb0 as usize, Seq::empty()))
            } else {
                None
            },
            SVD::MappingAccess { key, slot } => if (slot as int) < id {
                match chase_spec(s, slot as int) {
                    None => None,
                    Some(p) => Some((p.0, p.1.push(key))),
                }
            } else {
                None
            },
            _ => None,
        }
    }
}

/// The mapping types wrapped around a fragment type by a chain of mapping
/// accesses: each chain member contributes its reduced type as a key type,
/// outermost last.
pub open spec fn wrap_chain(s: StateView, chain: Seq<usize>, base: TeView) -> TeView
    decreases chain.len(),
{
    if chain.len() == 0 {
        base
    } else {
        wrap_chain(
            s,
            chain.drop_last(),
            TeView::Mapping {
                key: Box::new(reduce_spec(s.infs[chain.last() as int])),
                value: Box::new(base),
            },
        )
    }
}

/// The content of one typed fragment discovered for a slot.
#[verifier::ext_equal]
pub struct FragView {
    /// The concrete slot index.
    pub index: usize,
    /// The bit offset of the fragment within the slot.
    pub offset: u16,
    /// The fragment's reduced type expression.
    pub te: TeView,
}

/// One typed fragment discovered for a slot, while the layout is being
/// assembled.
struct Frag {
    index: usize,
    offset: u16,
    te: TE,
}

impl View for Frag {
    type V = FragView;

    closed spec fn view(&self) -> FragView {
        FragView { index: self.index, offset: self.offset, te: self.te@ }
    }
}

/// The contents of a fragment vector, in order.
spec fn frags_view(s: Seq<Frag>) -> Seq<FragView> {
    Seq::new(s.len(), |i: int| s[i]@)
}

/// The index of the fragment for the given slot index and offset, or `-1`.
pub open spec fn find_frag(fs: Seq<FragView>, index: usize, offset: u16) -> int
    decreases fs,
{
    if fs.len() == 0 {
        -1
    } else if fs[0].index == index && fs[0].offset == offset {
        0
    } else {
        let r = find_frag(fs.drop_first(), index, offset);
        if r < 0 {
            -1
        } else {
            r + 1
        }
    }
}

/// What `find_frag` finds: the first fragment at the place, or nothing.
proof fn lemma_find_frag(fs: Seq<FragView>, index: usize, offset: u16)
    ensures
        find_frag(fs, index, offset) >= 0 ==> {
            let k = find_frag(fs, index, offset);
            &&& 0 <= k < fs.len()
            &&& fs[k].index == index
            &&& fs[k].offset == offset
            &&& forall|j: int| 0 <= j < k ==> !(fs[j].index == index && fs[j].offset == offset)
        },
        find_frag(fs, index, offset) < 0 ==> forall|j: int|
            0 <= j < fs.len() ==> !(fs[j].index == index && fs[j].offset == offset),
    decreases fs,
{
    if fs.len() > 0 && !(fs[0].index == index && fs[0].offset == offset) {
        lemma_find_frag(fs.drop_first(), index, offset);
        let r = find_frag(fs.drop_first(), index, offset);
        if r >= 0 {
            assert(fs[r + 1] == fs.drop_first()[r]);
            assert forall|j: int| 0 <= j < find_frag(fs, index, offset) implies !(fs[j].index
                == index && fs[j].offset == offset) by {
                if j > 0 {
                    assert(fs.drop_first()[j - 1] == fs[j]);
                }
            }
        } else {
            assert forall|j: int| 0 <= j < fs.len() implies !(fs[j].index == index && fs[j].offset
                == offset) by {
                if j > 0 {
                    assert(fs.drop_first()[j - 1] == fs[j]);
                }
            }
        }
    }
}

/// The fragments after recording a typed fragment at a place: merged into
/// the existing fragment for that place, or appended.
pub open spec fn upsert_spec(fs: Seq<FragView>, index: usize, offset: u16, te: TeView) -> Seq<
    FragView,
> {
    let k = find_frag(fs, index, offset);
    if k >= 0 {
        fs.update(k, FragView { index, offset, te: merge_spec(fs[k].te, te) })
    } else {
        fs.push(FragView { index, offset, te })
    }
}

/// No two fragments share both index and offset.
pub open spec fn frags_wf(fs: Seq<FragView>) -> bool {
    forall|i: int, j: int|
        0 <= i && i < j && j < fs.len() ==> !(fs[i].index == fs[j].index && fs[i].offset
            == fs[j].offset)
}

/// Recording a fragment keeps fragments distinct by place.
proof fn lemma_upsert_wf(fs: Seq<FragView>, index: usize, offset: u16, te: TeView)
    requires
        frags_wf(fs),
    ensures
        frags_wf(upsert_spec(fs, index, offset, te)),
{
    lemma_find_frag(fs, index, offset);
}

/// The fragments contributed by one registered value: storage writes and
/// reads whose key resolves to a concrete slot, and sub-word isolations of
/// such reads — masking or shifting that isolates a bit range of a read
/// slot places the isolated value's type at that range's offset.
pub open spec fn node_frag_spec(s: StateView, i: int, fs: Seq<FragView>) -> Seq<FragView> {
    match s.values[i].data {
        SVD::StorageWrite { key, value } => match chase_spec(s, key as int) {
            None => fs,
            Some(p) => {
                let bo = match s.values[value as int].data {
                    SVD::SubWord { value: x, offset, .. } => (
                        reduce_spec(s.infs[x as int]),
                        offset,
                    ),
                    _ => (reduce_spec(s.infs[value as int]), 0u16),
                };
                upsert_spec(fs, p.0, bo.1, wrap_chain(s, p.1, bo.0))
            },
        },
        SVD::StorageRead { key } => match chase_spec(s, key as int) {
            None => fs,
            Some(p) => upsert_spec(fs, p.0, 0u16, wrap_chain(s, p.1, reduce_spec(s.infs[i]))),
        },
        SVD::SubWord { value: rd, offset, .. } => match s.values[rd as int].data {
            SVD::StorageRead { key } => match chase_spec(s, key as int) {
                None => fs,
                Some(p) => upsert_spec(
                    fs,
                    p.0,
                    offset,
                    wrap_chain(s, p.1, reduce_spec(s.infs[i])),
                ),
            },
            _ => fs,
        },
        _ => fs,
    }
}

/// The fragments contributed by the first `i` registered values.
pub open spec fn frags_upto(s: StateView, i: int) -> Seq<FragView>
    decreases i,
{
    if i <= 0 {
        Seq::empty()
    } else {
        node_frag_spec(s, i - 1, frags_upto(s, i - 1))
    }
}

/// All fragments discovered in a state.
pub open spec fn build_frags(s: StateView) -> Seq<FragView> {
    frags_upto(s, s.values.len() as int)
}

/// The slots that a fragment sequence describes, each fragment's type
/// finalized.
pub open spec fn layout_of_frags(fs: Seq<FragView>) -> Seq<SlotView> {
    Seq::new(
        fs.len(),
        |i: int| SlotView { index: fs[i].index, offset: fs[i].offset, typ: abi_of_te(fs[i].te) },
    )
}

/// The layout that building from a stable state yields.
pub open spec fn build_spec(s: StateView) -> Seq<SlotView> {
    layout_of_frags(build_frags(s))
}

/// The fragments of a state are distinct by place.
proof fn lemma_frags_upto_wf(s: StateView, i: int)
    ensures
        frags_wf(frags_upto(s, i)),
    decreases i,
{
    if i > 0 {
        lemma_frags_upto_wf(s, i - 1);
        let fs = frags_upto(s, i - 1);
        match s.values[i - 1].data {
            SVD::StorageWrite { key, value } => {
                match chase_spec(s, key as int) {
                    Some(p) => {
                        let bo = match s.values[value as int].data {
                            SVD::SubWord { value: x, offset, .. } => (
                                reduce_spec(s.infs[x as int]),
                                offset,
                            ),
                            _ => (reduce_spec(s.infs[value as int]), 0u16),
                        };
                        lemma_upsert_wf(fs, p.0, bo.1, wrap_chain(s, p.1, bo.0));
                    },
                    None => {},
                }
            },
            SVD::StorageRead { key } => {
                match chase_spec(s, key as int) {
                    Some(p) => {
                        lemma_upsert_wf(
                            fs,
                            p.0,
                            0u16,
                            wrap_chain(s, p.1, reduce_spec(s.infs[i - 1])),
                        );
                    },
                    None => {},
                }
            },
            SVD::SubWord { value: rd, offset, .. } => {
                match s.values[rd as int].data {
                    SVD::StorageRead { key } => {
                        match chase_spec(s, key as int) {
                            Some(p) => {
                                lemma_upsert_wf(
                                    fs,
                                    p.0,
                                    offset,
                                    wrap_chain(s, p.1, reduce_spec(s.infs[i - 1])),
                                );
                            },
                            None => {},
                        }
                    },
                    _ => {},
                }
            },
            _ => {},
        }
    }
}

/// Resolves the storage key registered at `id` to a concrete slot index and
/// the chain of mapping-key operands around it.
fn chase(state: &InferenceState, id: usize) -> (r: Option<(usize, Vec<usize>)>)
    requires
        state.wf(),
        id < state@.values.len(),
    ensures
        r matches Some(p) ==> chase_spec(state@, id as int) == Some((p.0, p.1@)) && forall|k: int|
            0 <= k < p.1@.len() ==> p.1@[k] < state@.values.len(),
        r is None ==> chase_spec(state@, id as int) is None,
    decreases id,
{
    match state.value(id).data {
        SVD::Literal { value } => {
            if value.limb1 == 0 && value.limb2 == 0 && value.limb3 == 0 && value.limb0
                <= usize::MAX as u64 {
                Some((value.limb0 as usize, Vec::new()))
            } else {
                None
            }
        },
        SVD::MappingAccess { key, slot } => {
            if slot < id {
                match chase(state, slot) {
                    None => None,
                    Some(p) => {
                        let (idx, mut chain) = p;
                        proof {
                            assert(ops_below(state@.values[id as int], id as nat));
                            assert(key < state@.values.len());
                        }
                        chain.push(key);
                        Some((idx, chain))
                    },
                }
            } else {
                None
            }
        },
        _ => None,
    }
}

/// Wraps a fragment type in the mapping types of a chain of mapping-key
/// operands.
fn wrap(state: &InferenceState, chain: &Vec<usize>, base: TE) -> (r: TE)
    requires
        state.wf(),
        forall|k: int| 0 <= k < chain@.len() ==> chain@[k] < state@.infs.len(),
    ensures
        r@ == wrap_chain(state@, chain@, base@),
{
    let mut t = base;
    let mut i: usize = chain.len();
    proof {
        assert(chain@.take(chain@.len() as int) =~= chain@);
    }
    while i > 0
        invariant
            state.wf(),
            forall|k: int| 0 <= k < chain@.len() ==> chain@[k] < state@.infs.len(),
            i <= chain@.len(),
            wrap_chain(state@, chain@, base@) == wrap_chain(state@, chain@.take(i as int), t@),
        decreases i,
    {
        let k = chain[i - 1];
        let kt = reduce(state.inferences(k));
        proof {
            let pre = chain@.take(i as int);
            assert(pre.last() == chain@[i - 1]);
            assert(pre.drop_last() =~= chain@.take(i as int - 1));
        }
        t = TE::Mapping { key: Box::new(kt), value: Box::new(t) };
        i = i - 1;
    }
    proof {
        assert(chain@.take(0) =~= Seq::<usize>::empty());
    }
    t
}

/// Records a typed fragment at a place: merged into the existing fragment
/// for that place, or appended in discovery order.
fn upsert(frags: &mut Vec<Frag>, index: usize, offset: u16, te: TE)
    ensures
        frags_view(final(frags)@) == upsert_spec(frags_view(old(frags)@), index, offset, te@),
{
    let ghost fv = frags_view(frags@);
    let n = frags.len();
    let mut k: usize = 0;
    while k < n
        invariant
            fv == frags_view(frags@),
            frags@ == old(frags)@,
            n == frags@.len(),
            fv.len() == frags@.len(),
            forall|j: int| 0 <= j < fv.len() ==> fv[j] == frags@[j]@,
            k <= n,
            forall|j: int| 0 <= j < k ==> !(fv[j].index == index && fv[j].offset == offset),
        decreases n - k,
    {
        if frags[k].index == index && frags[k].offset == offset {
            proof {
                lemma_find_frag_first(fv, index, offset, k as int);
            }
            let merged = merge(&frags[k].te, &te);
            let e = &mut frags[k];
            e.te = merged;
            proof {
                assert(frags_view(frags@) =~= fv.update(
                    k as int,
                    FragView { index, offset, te: merge_spec(fv[k as int].te, te@) },
                ));
            }
            return ;
        }
        k = k + 1;
    }
    proof {
        lemma_find_frag(fv, index, offset);
        if find_frag(fv, index, offset) >= 0 {
            assert(false);
        }
    }
    frags.push(Frag { index, offset, te });
    proof {
        assert(frags_view(frags@) =~= fv.push(FragView { index, offset, te: te@ }));
    }
}

/// A scan that stops at the first fragment for a place finds what
/// `find_frag` finds.
proof fn lemma_find_frag_first(fs: Seq<FragView>, index: usize, offset: u16, k: int)
    requires
        0 <= k < fs.len(),
        fs[k].index == index && fs[k].offset == offset,
        forall|j: int| 0 <= j < k ==> !(fs[j].index == index && fs[j].offset == offset),
    ensures
        find_frag(fs, index, offset) == k,
    decreases fs,
{
    if k > 0 {
        assert(forall|j: int| 0 <= j < fs.drop_first().len() ==> fs.drop_first()[j] == fs[j + 1]);
        lemma_find_frag_first(fs.drop_first(), index, offset, k - 1);
    }
}

/// Walks every registered identity, collects the typed fragments of the
/// storage reads and writes whose keys resolve to concrete slots, and
/// assembles them into the final layout.
pub fn build_layout(state: &InferenceState) -> (r: StorageLayout)
    requires
        state.wf(),
    ensures
        r@ == build_spec(state@),
        r.wf(),
{
    let mut frags: Vec<Frag> = Vec::new();
    let n = state.len();
    let mut i: usize = 0;
    proof {
        assert(frags_view(frags@) =~= Seq::<FragView>::empty());
    }
    while i < n
        invariant
            state.wf(),
            n == state@.values.len(),
            i <= n,
            frags_view(frags@) == frags_upto(state@, i as int),
        decreases n - i,
    {
        let d = state.value(i).data;
        match d {
            SVD::StorageWrite { key, value } => {
                match chase(state, key) {
                    Some(p) => {
                        let (idx, chain) = p;
                        let bo: (TE, u16) = match state.value(value).data {
                            SVD::SubWord { value: x, offset, .. } => {
                                let b = reduce(state.inferences(x));
                                (b, offset)
                            },
                            _ => {
                                let b = reduce(state.inferences(value));
                                (b, 0u16)
                            },
                        };
                        let (base, off) = bo;
                        let t = wrap(state, &chain, base);
                        upsert(&mut frags, idx, off, t);
                    },
                    None => {},
                }
            },
            SVD::StorageRead { key } => {
                match chase(state, key) {
                    Some(p) => {
                        let (idx, chain) = p;
                        let base = reduce(state.inferences(i));
                        let t = wrap(state, &chain, base);
                        upsert(&mut frags, idx, 0u16, t);
                    },
                    None => {},
                }
            },
            SVD::SubWord { value: rd, offset, .. } => {
                proof {
                    assert(ops_below(state@.values[i as int], i as nat));
                }
                match state.value(rd).data {
                    SVD::StorageRead { key } => {
                        proof {
                            assert(ops_below(state@.values[rd as int], rd as nat));
                        }
                        match chase(state, key) {
                            Some(p) => {
                                let (idx, chain) = p;
                                let base = reduce(state.inferences(i));
                                let t = wrap(state, &chain, base);
                                upsert(&mut frags, idx, offset, t);
                            },
                            None => {},
                        }
                    },
                    _ => {},
                }
            },
            _ => {},
        }
        i = i + 1;
    }
    let ghost all = frags_view(frags@);
    proof {
        lemma_frags_upto_wf(state@, n as int);
    }
    let mut layout = StorageLayout::default();
    let m = frags.len();
    let mut j: usize = 0;
    proof {
        assert(all.take(0) =~= Seq::<FragView>::empty());
        assert(layout@ =~= layout_of_frags(all.take(0)));
    }
    while j < m
        invariant
            all == frags_view(frags@),
            frags@.len() == m,
            all.len() == m,
            forall|q: int| 0 <= q < m ==> all[q] == frags@[q]@,
            frags_wf(all),
            j <= m,
            layout.wf(),
            layout@ == layout_of_frags(all.take(j as int)),
        decreases m - j,
    {
        let typ = te_to_abi(&frags[j].te);
        proof {
            if has_pair(layout@, frags@[j as int]@.index, frags@[j as int]@.offset) {
                let q = choose|q: int|
                    0 <= q < layout@.len() && layout@[q].index == all[j as int].index
                        && layout@[q].offset == all[j as int].offset;
                assert(layout@[q] == layout_of_frags(all.take(j as int))[q]);
                assert(all.take(j as int)[q] == all[q]);
                assert(false);
            }
        }
        layout.add(frags[j].index, frags[j].offset, typ);
        proof {
            assert(layout@ =~= layout_of_frags(all.take(j as int + 1)));
        }
        j = j + 1;
    }
    proof {
        assert(all.take(m as int) =~= all);
    }
    layout
}

/// Analyzes a symbolic value graph under a cancellation signal, with the
/// given ceiling on rule passes, and returns the storage layout of the
/// contract the graph was recovered from.
///
/// The graph must list each node after its operands; a graph that does not
/// is rejected as cyclic. An expired cancellation signal terminates the run
/// with a timeout outcome before the next rule pass — a signal that is
/// already expired when the analysis starts cancels it before any pass;
/// reaching the pass ceiling before the rules stabilize is an internal
/// error.
pub fn analyze_with_ceiling<W: Watchdog>(
    graph: &Vec<SymbolicValue>,
    watchdog: &W,
    max_passes: usize,
) -> (r: Result<StorageLayout, AnalysisError>)
    requires
        max_passes >= 1,
    ensures
        match r {
            Ok(layout) => graph_wf(graph@) && (run_model(
                register_graph_spec(graph@),
                (max_passes - 1) as nat,
            ) matches Some(sf) && layout@ == build_spec(sf) && layout.wf()),
            Err(e) => {
                &&& e != AnalysisError::UnregisteredIdentity
                &&& (e == AnalysisError::CyclicGraph <==> !graph_wf(graph@))
                &&& (e == AnalysisError::PassCeilingExceeded ==> run_model(
                    register_graph_spec(graph@),
                    (max_passes - 1) as nat,
                ) is None)
            },
        },
        graph_wf(graph@) && watchdog.always_expired() ==> r == Err::<
            StorageLayout,
            AnalysisError,
        >(AnalysisError::Cancelled),
{
    let n = graph.len();
    let mut i: usize = 0;
    while i < n
        invariant
            n == graph@.len(),
            i <= n,
            forall|k: int| 0 <= k < i ==> ops_below(graph@[k], k as nat),
        decreases n - i,
    {
        if !check_ops(&graph[i], i) {
            return Err(AnalysisError::CyclicGraph);
        }
        i = i + 1;
    }
    let mut state = InferenceState::empty();
    let mut table: Vec<usize> = Vec::new();
    let mut j: usize = 0;
    while j < n
        invariant
            n == graph@.len(),
            graph_wf(graph@),
            j <= n,
            state.wf(),
            state@ == reg_upto(graph@, j as int).0,
            table@ == reg_upto(graph@, j as int).1,
            table@.len() == j,
            forall|k: int| 0 <= k < table@.len() ==> table@[k] < state@.values.len(),
        decreases n - j,
    {
        let v = graph[j];
        proof {
            assert(ops_below(graph@[j as int], j as nat));
            lemma_remap_ops(v.data, table@, state@.values.len());
        }
        let data2 = remap(v.data, &table);
        let v2 = SymbolicValue { provenance: v.provenance, data: data2 };
        let id = state.register(v2);
        table.push(id);
        j = j + 1;
    }
    match run_to_fixpoint(&mut state, watchdog, max_passes) {
        Ok(()) => {
            let layout = build_layout(&state);
            Ok(layout)
        },
        Err(e) => Err(e),
    }
}

/// Analyzes a symbolic value graph under a cancellation signal and returns
/// the storage layout of the contract the graph was recovered from, using
/// the default pass ceiling.
pub fn analyze<W: Watchdog>(graph: &Vec<SymbolicValue>, watchdog: &W) -> (r: Result<
    StorageLayout,
    AnalysisError,
>)
    ensures
        match r {
            Ok(layout) => graph_wf(graph@) && (run_model(
                register_graph_spec(graph@),
                (DEFAULT_PASS_CEILING - 1) as nat,
            ) matches Some(sf) && layout@ == build_spec(sf) && layout.wf()),
            Err(e) => {
                &&& e != AnalysisError::UnregisteredIdentity
                &&& (e == AnalysisError::CyclicGraph <==> !graph_wf(graph@))
                &&& (e == AnalysisError::PassCeilingExceeded ==> run_model(
                    register_graph_spec(graph@),
                    (DEFAULT_PASS_CEILING - 1) as nat,
                ) is None)
            },
        },
        graph_wf(graph@) && watchdog.always_expired() ==> r == Err::<
            StorageLayout,
            AnalysisError,
        >(AnalysisError::Cancelled),
{
    analyze_with_ceiling(graph, watchdog, DEFAULT_PASS_CEILING)
}

} // verus!
