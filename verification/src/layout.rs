//! The definitions for the layout representation types.
//!
//! A [`StorageLayout`] is the sole durable output of an analysis run: an
//! insertion-ordered sequence of [`StorageSlot`] records, one for each
//! distinct pair of slot index and bit offset discovered, with no two
//! entries sharing both.

use vstd::prelude::*;

use crate::abi::{AbiType, AbiView};

verus! {

/// The spec-level content of one storage slot record.
#[verifier::ext_equal]
pub struct SlotView {
    /// The concrete index of the storage slot.
    pub index: usize,
    /// The bit offset of the fragment within the 32-byte slot.
    pub offset: u16,
    /// The best-known type of the fragment.
    pub typ: AbiView,
}

/// A representation of a concrete storage slot, with its best-known type.
#[derive(Debug, PartialEq, Eq)]
pub struct StorageSlot {
    /// The concrete index of the storage slot in the contract.
    pub index: usize,

    /// The bit offset within the 32-byte slot at which the typed fragment
    /// starts; an unpacked slot has offset zero.
    pub offset: u16,

    /// The best-known type of the storage slot.
    pub typ: AbiType,
}

impl View for StorageSlot {
    type V = SlotView;

    open spec fn view(&self) -> SlotView {
        SlotView { index: self.index, offset: self.offset, typ: self.typ@ }
    }
}

impl StorageSlot {
    /// Constructs a new storage slot container for the data at `index` and
    /// bit offset `offset` with type `typ`.
    pub fn new(index: usize, offset: u16, typ: AbiType) -> (r: Self)
        ensures
            r@ == (SlotView { index, offset, typ: typ@ }),
    {
        Self { index, offset, typ }
    }
}

/// The spec-level contents of each slot record of a layout, in order.
pub open spec fn slots_view(s: Seq<StorageSlot>) -> Seq<SlotView> {
    Seq::new(s.len(), |i: int| s[i]@)
}

/// Whether some entry of `l` already occupies slot `index` at bit offset
/// `offset`.
pub open spec fn has_pair(l: Seq<SlotView>, index: usize, offset: u16) -> bool {
    exists|k: int| 0 <= k < l.len() && l[k].index == index && l[k].offset == offset
}

/// Well-formedness of a layout: no two entries share both index and offset.
pub open spec fn layout_wf(l: Seq<SlotView>) -> bool {
    forall|i: int, j: int|
        0 <= i && i < j && j < l.len() ==> !(l[i].index == l[j].index && l[i].offset
            == l[j].offset)
}

/// The most-concrete layout discovered for the input contract.
#[derive(Debug, PartialEq, Eq)]
pub struct StorageLayout {
    slots: Vec<StorageSlot>,
}

impl View for StorageLayout {
    type V = Seq<SlotView>;

    closed spec fn view(&self) -> Seq<SlotView> {
        slots_view(self.slots@)
    }
}

impl StorageLayout {
    /// Whether the layout is well-formed: no two entries share both index
    /// and offset.
    pub open spec fn wf(&self) -> bool {
        layout_wf(self@)
    }

    /// Adds a slot specified by `index`, `offset` and `typ` to the storage
    /// layout. No entry for that index and offset may be present yet.
    pub fn add(&mut self, index: usize, offset: u16, typ: AbiType)
        requires
            old(self).wf(),
            !has_pair(old(self)@, index, offset),
        ensures
            final(self).wf(),
            final(self)@ == old(self)@.push(SlotView { index, offset, typ: typ@ }),
    {
        let slot = StorageSlot::new(index, offset, typ);
        self.slots.push(slot);
        proof {
            assert(self@ =~= old(self)@.push(SlotView { index, offset, typ: typ@ }));
        }
    }

    /// Gets the storage slots that make up this layout.
    pub fn slots(&self) -> (r: &Vec<StorageSlot>)
        ensures
            slots_view(r@) == self@,
    {
        &self.slots
    }
}

impl Default for StorageLayout {
    /// An empty layout, with no slots discovered yet.
    fn default() -> (r: Self)
        ensures
            r@ == Seq::<SlotView>::empty(),
            r.wf(),
    {
        let slots = Vec::new();
        let r = Self { slots };
        proof {
            assert(r@ =~= Seq::<SlotView>::empty());
        }
        r
    }
}

} // verus!
