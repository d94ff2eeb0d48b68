//! End-to-end tests of the analysis pipeline: packing detection, conflict
//! surfacing, mapping reconstruction, cancellation and error outcomes.

use storage_layout_analyzer::abi::AbiType;
use storage_layout_analyzer::analyzer::{analyze, analyze_with_ceiling};
use storage_layout_analyzer::constant::CONTRACT_MAXIMUM_SIZE_BYTES;
use storage_layout_analyzer::error::AnalysisError;
use storage_layout_analyzer::layout::{StorageLayout, StorageSlot};
use storage_layout_analyzer::value::{Provenance, SymbolicValue, Word, SVD};
use storage_layout_analyzer::watchdog::{ExpiredWatchdog, LazyWatchdog};

fn sv(data: SVD) -> SymbolicValue {
    SymbolicValue { provenance: Provenance::Synthetic, data }
}

fn lit(v: u64) -> SymbolicValue {
    SymbolicValue { provenance: Provenance::Constant, data: SVD::Literal { value: Word::from_u64(v) } }
}

fn mask_lit(bits: u16) -> SymbolicValue {
    SymbolicValue { provenance: Provenance::Constant, data: SVD::Literal { value: Word::mask(bits) } }
}

/// Two independent sub-expressions write to bit offsets 0 and 112 of slot 8
/// with different concrete widths.
fn packed_graph() -> Vec<SymbolicValue> {
    vec![
        sv(SVD::Unknown { id: 0 }),                            // 0: first raw value
        mask_lit(112),                                         // 1
        sv(SVD::And { left: 0, right: 1 }),                    // 2: uint112 value
        sv(SVD::SubWord { value: 2, offset: 0, size: 112 }),   // 3
        lit(8),                                                // 4: slot index
        sv(SVD::StorageWrite { key: 4, value: 3 }),            // 5
        sv(SVD::Unknown { id: 1 }),                            // 6: second raw value
        mask_lit(32),                                          // 7
        sv(SVD::And { left: 6, right: 7 }),                    // 8: uint32 value
        sv(SVD::SubWord { value: 8, offset: 112, size: 32 }),  // 9
        sv(SVD::StorageWrite { key: 4, value: 9 }),            // 10
    ]
}

#[test]
fn detects_packed_fields_as_separate_slots() {
    let layout = analyze(&packed_graph(), &LazyWatchdog).unwrap();

    assert_eq!(layout.slots().len(), 2);
    assert_eq!(layout.slots()[0], StorageSlot::new(8, 0, AbiType::UInt { size: Some(112) }));
    assert_eq!(layout.slots()[1], StorageSlot::new(8, 112, AbiType::UInt { size: Some(32) }));
    // The unobserved remainder of the slot is absent, never defaulted.
    assert!(!layout.slots().iter().any(|s| s.offset != 0 && s.offset != 112));
}

#[test]
fn surfaces_conflicting_writes_as_conflicted_type() {
    // One write infers an address, the other a boolean, both at slot 5
    // offset 0.
    let graph = vec![
        sv(SVD::Unknown { id: 0 }),                  // 0
        mask_lit(160),                               // 1
        sv(SVD::And { left: 0, right: 1 }),          // 2: address value
        lit(5),                                      // 3: slot index
        sv(SVD::StorageWrite { key: 3, value: 2 }),  // 4
        sv(SVD::Unknown { id: 1 }),                  // 5
        sv(SVD::Unknown { id: 2 }),                  // 6
        sv(SVD::LessThan { left: 5, right: 6 }),     // 7: boolean value
        sv(SVD::StorageWrite { key: 3, value: 7 }),  // 8
    ];

    let layout = analyze(&graph, &LazyWatchdog).unwrap();

    assert_eq!(layout.slots().len(), 1);
    assert_eq!(layout.slots()[0].index, 5);
    assert_eq!(layout.slots()[0].offset, 0);
    match &layout.slots()[0].typ {
        AbiType::ConflictedType { candidates } => {
            assert!(candidates.contains(&AbiType::Bool));
            assert!(candidates.contains(&AbiType::Address));
        },
        other => panic!("expected a conflicted type, got {:?}", other),
    }
}

#[test]
fn reconstructs_a_mapping_from_address_to_uint256() {
    // A write through `mapping(address => uint256)` storage at slot 2.
    let graph = vec![
        sv(SVD::Unknown { id: 0 }),                     // 0: raw key
        mask_lit(160),                                  // 1
        sv(SVD::And { left: 0, right: 1 }),             // 2: address key
        lit(2),                                         // 3: root slot
        sv(SVD::MappingAccess { key: 2, slot: 3 }),     // 4
        sv(SVD::Unknown { id: 1 }),                     // 5: raw value
        mask_lit(256),                                  // 6
        sv(SVD::And { left: 5, right: 6 }),             // 7: uint256 value
        sv(SVD::StorageWrite { key: 4, value: 7 }),     // 8
    ];

    let layout = analyze(&graph, &LazyWatchdog).unwrap();

    assert_eq!(layout.slots().len(), 1);
    assert_eq!(
        layout.slots()[0],
        StorageSlot::new(
            2,
            0,
            AbiType::Mapping {
                key_type: Box::new(AbiType::Address),
                value_type: Box::new(AbiType::UInt { size: Some(256) }),
            },
        )
    );
}

#[test]
fn reconstructs_a_nested_mapping() {
    // A write through `mapping(address => mapping(address => uint256))`
    // storage at slot 1.
    let graph = vec![
        sv(SVD::Unknown { id: 0 }),                     // 0: raw outer key
        mask_lit(160),                                  // 1
        sv(SVD::And { left: 0, right: 1 }),             // 2: first key
        lit(1),                                         // 3: root slot
        sv(SVD::MappingAccess { key: 2, slot: 3 }),     // 4: inner access
        sv(SVD::Unknown { id: 1 }),                     // 5: raw inner key
        sv(SVD::And { left: 5, right: 1 }),             // 6: second key
        sv(SVD::MappingAccess { key: 6, slot: 4 }),     // 7: outer access
        sv(SVD::Unknown { id: 2 }),                     // 8: raw value
        mask_lit(256),                                  // 9
        sv(SVD::And { left: 8, right: 9 }),             // 10: uint256 value
        sv(SVD::StorageWrite { key: 7, value: 10 }),    // 11
    ];

    let layout = analyze(&graph, &LazyWatchdog).unwrap();

    assert_eq!(layout.slots().len(), 1);
    assert_eq!(
        layout.slots()[0],
        StorageSlot::new(
            1,
            0,
            AbiType::Mapping {
                key_type: Box::new(AbiType::Address),
                value_type: Box::new(AbiType::Mapping {
                    key_type: Box::new(AbiType::Address),
                    value_type: Box::new(AbiType::UInt { size: Some(256) }),
                }),
            },
        )
    );
}

#[test]
fn reads_contribute_fragments_too() {
    // A storage read of slot 3 whose result is masked to 160 bits.
    let graph = vec![
        lit(3),                                 // 0: slot index
        sv(SVD::StorageRead { key: 0 }),        // 1
        mask_lit(160),                          // 2
        sv(SVD::And { left: 1, right: 2 }),     // 3
    ];

    let layout = analyze(&graph, &LazyWatchdog).unwrap();

    assert_eq!(layout.slots().len(), 1);
    assert_eq!(layout.slots()[0], StorageSlot::new(3, 0, AbiType::Address));
}

#[test]
fn read_side_packed_fields_are_attributed_to_their_offset() {
    // A full-slot read of slot 8, with a 32-bit field isolated at bit
    // offset 112 and masked by its consumer. The isolated field appears at
    // its own offset; the whole-slot read itself is observed with no type
    // evidence, so it stays present with `Any`.
    let graph = vec![
        lit(8),                                                // 0: slot index
        sv(SVD::StorageRead { key: 0 }),                       // 1: full-slot read
        sv(SVD::SubWord { value: 1, offset: 112, size: 32 }),  // 2: isolated field
        mask_lit(32),                                          // 3
        sv(SVD::And { left: 2, right: 3 }),                    // 4: types the field
    ];

    let layout = analyze(&graph, &LazyWatchdog).unwrap();

    assert_eq!(layout.slots().len(), 2);
    assert_eq!(layout.slots()[0], StorageSlot::new(8, 0, AbiType::Any));
    assert_eq!(layout.slots()[1], StorageSlot::new(8, 112, AbiType::UInt { size: Some(32) }));
}

#[test]
fn symbolic_keys_are_excluded_without_error() {
    // The written slot is an opaque value: no concrete index, no entry.
    let graph = vec![
        sv(SVD::Unknown { id: 0 }),                  // 0: symbolic key
        sv(SVD::Unknown { id: 1 }),                  // 1: value
        sv(SVD::StorageWrite { key: 0, value: 1 }),  // 2
    ];

    let layout = analyze(&graph, &LazyWatchdog).unwrap();
    assert_eq!(layout.slots().len(), 0);
}

#[test]
fn unobserved_fragment_stays_present_with_any() {
    // A write whose value carries no type evidence still yields an entry,
    // typed `Any`: observed-but-unknown is distinct from unobserved.
    let graph = vec![
        lit(9),                                      // 0: slot index
        sv(SVD::Unknown { id: 0 }),                  // 1: untyped value
        sv(SVD::StorageWrite { key: 0, value: 1 }),  // 2
    ];

    let layout = analyze(&graph, &LazyWatchdog).unwrap();
    assert_eq!(layout.slots().len(), 1);
    assert_eq!(layout.slots()[0], StorageSlot::new(9, 0, AbiType::Any));
}

#[test]
fn expired_watchdog_cancels_before_any_pass() {
    let r = analyze(&packed_graph(), &ExpiredWatchdog);
    assert_eq!(r, Err(AnalysisError::Cancelled));
}

#[test]
fn forward_references_are_rejected_as_cyclic() {
    let graph = vec![sv(SVD::Not { operand: 0 })];
    let r = analyze(&graph, &LazyWatchdog);
    assert_eq!(r, Err(AnalysisError::CyclicGraph));
}

#[test]
fn pass_ceiling_is_surfaced_as_internal_error() {
    // One pass adds constraints, so a ceiling of one pass cannot confirm
    // stability.
    let r = analyze_with_ceiling(&packed_graph(), &LazyWatchdog, 1);
    assert_eq!(r, Err(AnalysisError::PassCeilingExceeded));
}

#[test]
fn layout_records_slots_in_insertion_order() {
    let mut layout = StorageLayout::default();
    assert_eq!(layout.slots().len(), 0);
    layout.add(4, 0, AbiType::Address);
    layout.add(4, 160, AbiType::Bool);
    layout.add(0, 0, AbiType::UInt { size: None });
    assert_eq!(layout.slots().len(), 3);
    assert_eq!(layout.slots()[0], StorageSlot::new(4, 0, AbiType::Address));
    assert_eq!(layout.slots()[1], StorageSlot::new(4, 160, AbiType::Bool));
    assert_eq!(layout.slots()[2], StorageSlot::new(0, 0, AbiType::UInt { size: None }));
}

#[test]
fn slot_records_hold_their_fields() {
    let slot = StorageSlot::new(12, 128, AbiType::Bytes { length: Some(16) });
    assert_eq!(slot.index, 12);
    assert_eq!(slot.offset, 128);
    assert_eq!(slot.typ, AbiType::Bytes { length: Some(16) });
}

#[test]
fn platform_constants_are_as_specified() {
    assert_eq!(CONTRACT_MAXIMUM_SIZE_BYTES, 24576);
}
