//! Symbolic values: the nodes of the expression graph consumed by the
//! analysis.
//!
//! The graph is produced externally by symbolic execution of the contract's
//! bytecode and handed to [`crate::analyzer::analyze`] as a vector of
//! [`SymbolicValue`] nodes whose operands are indices of earlier nodes. The
//! graph is deduplicated and acyclic; this module defines the node shapes,
//! the operand relation, and the remapping of operand indices to registered
//! identities.

use vstd::prelude::*;

verus! {

/// A 256-bit machine word, as four 64-bit limbs, least significant first.
#[derive(Clone, Copy, Debug, PartialEq, Eq, Structural)]
pub struct Word {
    /// Bits 0 to 63.
    pub limb0: u64,
    /// Bits 64 to 127.
    pub limb1: u64,
    /// Bits 128 to 191.
    pub limb2: u64,
    /// Bits 192 to 255.
    pub limb3: u64,
}

/// The value of one limb of the all-ones mask of `bits` bits, for the limb
/// whose least significant bit is bit `lo` of the word.
pub open spec fn mask_limb(bits: u16, lo: u16) -> u64 {
    if bits >= lo + 64 {
        u64::MAX
    } else if bits > lo {
        ((1u64 << ((bits - lo) as u64)) - 1) as u64
    } else {
        0u64
    }
}

/// The all-ones mask of the low `bits` bits of a word.
pub open spec fn mask_word(bits: u16) -> Word {
    Word {
        limb0: mask_limb(bits, 0),
        limb1: mask_limb(bits, 64),
        limb2: mask_limb(bits, 128),
        limb3: mask_limb(bits, 192),
    }
}

/// Scans widths from `n` upwards for one whose mask is `w`.
pub open spec fn mask_width_from(w: Word, n: u16) -> Option<u16>
    decreases 257 - n,
{
    if n > 256 {
        None
    } else if w == mask_word(n) {
        Some(n)
    } else {
        mask_width_from(w, (n + 1) as u16)
    }
}

/// The width of `w` seen as an all-ones mask, if it is one.
pub open spec fn mask_width_spec(w: Word) -> Option<u16> {
    mask_width_from(w, 1)
}

impl Word {
    /// The word holding the small constant `v`.
    pub fn from_u64(v: u64) -> (r: Word)
        ensures
            r == (Word { limb0: v, limb1: 0, limb2: 0, limb3: 0 }),
    {
        Word { limb0: v, limb1: 0, limb2: 0, limb3: 0 }
    }

    /// The all-ones mask of the low `bits` bits.
    pub fn mask(bits: u16) -> (r: Word)
        requires
            1 <= bits <= 256,
        ensures
            r == mask_word(bits),
    {
        Word {
            limb0: Self::mask_limb_at(bits, 0),
            limb1: Self::mask_limb_at(bits, 64),
            limb2: Self::mask_limb_at(bits, 128),
            limb3: Self::mask_limb_at(bits, 192),
        }
    }

    /// One limb of the all-ones mask of `bits` bits.
    fn mask_limb_at(bits: u16, lo: u16) -> (r: u64)
        requires
            bits <= 256,
            lo == 0 || lo == 64 || lo == 128 || lo == 192,
        ensures
            r == mask_limb(bits, lo),
    {
        if bits >= lo + 64 {
            u64::MAX
        } else if bits > lo {
            let sh: u64 = (bits - lo) as u64;
            assert(sh < 64);
            let p: u64 = 1u64 << sh;
            assert(sh < 64 ==> (1u64 << sh) >= 1u64) by (bit_vector);
            p - 1
        } else {
            0u64
        }
    }

    /// The width of this word seen as an all-ones mask of whole bits, if it
    /// is one.
    pub fn mask_width(&self) -> (r: Option<u16>)
        ensures
            r == mask_width_spec(*self),
    {
        let mut n: u16 = 1;
        while n <= 256
            invariant
                1 <= n <= 257,
                mask_width_spec(*self) == mask_width_from(*self, n),
            decreases 257 - n,
        {
            let m = Word::mask(n);
            if *self == m {
                return Some(n);
            }
            n = n + 1;
        }
        None
    }
}

/// The provenance of a symbolic value: whether it originates from a literal
/// constant in the bytecode or was synthesized during analysis.
#[derive(Clone, Copy, Debug, PartialEq, Eq, Structural)]
pub enum Provenance {
    /// A concrete constant from the bytecode.
    Constant,
    /// A value synthesized by the analysis.
    Synthetic,
}

/// The operation that produced a symbolic value. Operand fields are the
/// indices of earlier nodes in the same graph (before registration) or
/// registered identities (after registration).
#[derive(Clone, Copy, Debug, PartialEq, Eq, Structural)]
pub enum SVD {
    /// A read of `size` bytes of call data at `offset`, for the call with
    /// the given identifier.
    CallData { id: u64, offset: usize, size: usize },
    /// A copy of `size` bytes of code at `offset`.
    CodeCopy { offset: usize, size: usize },
    /// A read of `size` bytes of return data at `offset`.
    ReturnData { offset: usize, size: usize },
    /// A read of the storage slot addressed by `key`.
    StorageRead { key: usize },
    /// A write of `value` to the storage slot addressed by `key`.
    StorageWrite { key: usize, value: usize },
    /// The storage address of entry `key` of the mapping rooted in `slot`,
    /// as recovered by the external lifting pass from the hashed access
    /// pattern.
    MappingAccess { key: usize, slot: usize },
    /// The `size` bits of `value` starting at bit `offset`, as recovered by
    /// the external lifting pass from masking and shifting.
    SubWord { value: usize, offset: u16, size: u16 },
    /// An addition.
    Add { left: usize, right: usize },
    /// A subtraction.
    Sub { left: usize, right: usize },
    /// A multiplication.
    Mul { left: usize, right: usize },
    /// A division.
    Div { left: usize, right: usize },
    /// A bitwise conjunction.
    And { left: usize, right: usize },
    /// A bitwise disjunction.
    Or { left: usize, right: usize },
    /// A bitwise negation.
    Not { operand: usize },
    /// A left shift of `value` by `shift` bits.
    ShiftLeft { shift: usize, value: usize },
    /// A right shift of `value` by `shift` bits.
    ShiftRight { shift: usize, value: usize },
    /// An unsigned less-than comparison.
    LessThan { left: usize, right: usize },
    /// An unsigned greater-than comparison.
    GreaterThan { left: usize, right: usize },
    /// An equality comparison.
    Equals { left: usize, right: usize },
    /// A literal constant word.
    Literal { value: Word },
    /// An opaque input, distinguished by an identifier.
    Unknown { id: u64 },
}

/// A node of the symbolic value graph: a provenance tag and the operation
/// that produced the value.
#[derive(Clone, Copy, Debug, PartialEq, Eq, Structural)]
pub struct SymbolicValue {
    /// Where the value came from.
    pub provenance: Provenance,
    /// The operation that produced it.
    pub data: SVD,
}

/// Whether every operand index of `v` is below `n`.
pub open spec fn ops_below(v: SymbolicValue, n: nat) -> bool {
    match v.data {
        SVD::CallData { offset, size, .. } => offset < n && size < n,
        SVD::CodeCopy { offset, size } => offset < n && size < n,
        SVD::ReturnData { offset, size } => offset < n && size < n,
        SVD::StorageRead { key } => key < n,
        SVD::StorageWrite { key, value } => key < n && value < n,
        SVD::MappingAccess { key, slot } => key < n && slot < n,
        SVD::SubWord { value, .. } => value < n,
        SVD::Add { left, right } => left < n && right < n,
        SVD::Sub { left, right } => left < n && right < n,
        SVD::Mul { left, right } => left < n && right < n,
        SVD::Div { left, right } => left < n && right < n,
        SVD::And { left, right } => left < n && right < n,
        SVD::Or { left, right } => left < n && right < n,
        SVD::Not { operand } => operand < n,
        SVD::ShiftLeft { shift, value } => shift < n && value < n,
        SVD::ShiftRight { shift, value } => shift < n && value < n,
        SVD::LessThan { left, right } => left < n && right < n,
        SVD::GreaterThan { left, right } => left < n && right < n,
        SVD::Equals { left, right } => left < n && right < n,
        SVD::Literal { .. } => true,
        SVD::Unknown { .. } => true,
    }
}

/// Decides whether every operand index of `v` is below `n`.
pub fn check_ops(v: &SymbolicValue, n: usize) -> (r: bool)
    ensures
        r == ops_below(*v, n as nat),
{
    match v.data {
        SVD::CallData { offset, size, .. } => offset < n && size < n,
        SVD::CodeCopy { offset, size } => offset < n && size < n,
        SVD::ReturnData { offset, size } => offset < n && size < n,
        SVD::StorageRead { key } => key < n,
        SVD::StorageWrite { key, value } => key < n && value < n,
        SVD::MappingAccess { key, slot } => key < n && slot < n,
        SVD::SubWord { value, .. } => value < n,
        SVD::Add { left, right } => left < n && right < n,
        SVD::Sub { left, right } => left < n && right < n,
        SVD::Mul { left, right } => left < n && right < n,
        SVD::Div { left, right } => left < n && right < n,
        SVD::And { left, right } => left < n && right < n,
        SVD::Or { left, right } => left < n && right < n,
        SVD::Not { operand } => operand < n,
        SVD::ShiftLeft { shift, value } => shift < n && value < n,
        SVD::ShiftRight { shift, value } => shift < n && value < n,
        SVD::LessThan { left, right } => left < n && right < n,
        SVD::GreaterThan { left, right } => left < n && right < n,
        SVD::Equals { left, right } => left < n && right < n,
        SVD::Literal { .. } => true,
        SVD::Unknown { .. } => true,
    }
}

/// The operation with every operand index sent through `t`.
pub open spec fn remap_spec(d: SVD, t: Seq<usize>) -> SVD {
    match d {
        SVD::CallData { id, offset, size } => SVD::CallData {
            id,
            offset: t[offset as int],
            size: t[size as int],
        },
        SVD::CodeCopy { offset, size } => SVD::CodeCopy {
            offset: t[offset as int],
            size: t[size as int],
        },
        SVD::ReturnData { offset, size } => SVD::ReturnData {
            offset: t[offset as int],
            size: t[size as int],
        },
        SVD::StorageRead { key } => SVD::StorageRead { key: t[key as int] },
        SVD::StorageWrite { key, value } => SVD::StorageWrite {
            key: t[key as int],
            value: t[value as int],
        },
        SVD::MappingAccess { key, slot } => SVD::MappingAccess {
            key: t[key as int],
            slot: t[slot as int],
        },
        SVD::SubWord { value, offset, size } => SVD::SubWord {
            value: t[value as int],
            offset,
            size,
        },
        SVD::Add { left, right } => SVD::Add { left: t[left as int], right: t[right as int] },
        SVD::Sub { left, right } => SVD::Sub { left: t[left as int], right: t[right as int] },
        SVD::Mul { left, right } => SVD::Mul { left: t[left as int], right: t[right as int] },
        SVD::Div { left, right } => SVD::Div { left: t[left as int], right: t[right as int] },
        SVD::And { left, right } => SVD::And { left: t[left as int], right: t[right as int] },
        SVD::Or { left, right } => SVD::Or { left: t[left as int], right: t[right as int] },
        SVD::Not { operand } => SVD::Not { operand: t[operand as int] },
        SVD::ShiftLeft { shift, value } => SVD::ShiftLeft {
            shift: t[shift as int],
            value: t[value as int],
        },
        SVD::ShiftRight { shift, value } => SVD::ShiftRight {
            shift: t[shift as int],
            value: t[value as int],
        },
        SVD::LessThan { left, right } => SVD::LessThan {
            left: t[left as int],
            right: t[right as int],
        },
        SVD::GreaterThan { left, right } => SVD::GreaterThan {
            left: t[left as int],
            right: t[right as int],
        },
        SVD::Equals { left, right } => SVD::Equals {
            left: t[left as int],
            right: t[right as int],
        },
        SVD::Literal { value } => SVD::Literal { value },
        SVD::Unknown { id } => SVD::Unknown { id },
    }
}

/// Sends every operand index of `d` through `table`.
pub fn remap(d: SVD, table: &Vec<usize>) -> (r: SVD)
    requires
        ops_below(SymbolicValue { provenance: Provenance::Synthetic, data: d }, table@.len()),
    ensures
        r == remap_spec(d, table@),
{
    match d {
        SVD::CallData { id, offset, size } => SVD::CallData {
            id,
            offset: table[offset],
            size: table[size],
        },
        SVD::CodeCopy { offset, size } => SVD::CodeCopy {
            offset: table[offset],
            size: table[size],
        },
        SVD::ReturnData { offset, size } => SVD::ReturnData {
            offset: table[offset],
            size: table[size],
        },
        SVD::StorageRead { key } => SVD::StorageRead { key: table[key] },
        SVD::StorageWrite { key, value } => SVD::StorageWrite {
            key: table[key],
            value: table[value],
        },
        SVD::MappingAccess { key, slot } => SVD::MappingAccess {
            key: table[key],
            slot: table[slot],
        },
        SVD::SubWord { value, offset, size } => SVD::SubWord {
            value: table[value],
            offset,
            size,
        },
        SVD::Add { left, right } => SVD::Add { left: table[left], right: table[right] },
        SVD::Sub { left, right } => SVD::Sub { left: table[left], right: table[right] },
        SVD::Mul { left, right } => SVD::Mul { left: table[left], right: table[right] },
        SVD::Div { left, right } => SVD::Div { left: table[left], right: table[right] },
        SVD::And { left, right } => SVD::And { left: table[left], right: table[right] },
        SVD::Or { left, right } => SVD::Or { left: table[left], right: table[right] },
        SVD::Not { operand } => SVD::Not { operand: table[operand] },
        SVD::ShiftLeft { shift, value } => SVD::ShiftLeft {
            shift: table[shift],
            value: table[value],
        },
        SVD::ShiftRight { shift, value } => SVD::ShiftRight {
            shift: table[shift],
            value: table[value],
        },
        SVD::LessThan { left, right } => SVD::LessThan {
            left: table[left],
            right: table[right],
        },
        SVD::GreaterThan { left, right } => SVD::GreaterThan {
            left: table[left],
            right: table[right],
        },
        SVD::Equals { left, right } => SVD::Equals { left: table[left], right: table[right] },
        SVD::Literal { value } => SVD::Literal { value },
        SVD::Unknown { id } => SVD::Unknown { id },
    }
}

} // verus!
