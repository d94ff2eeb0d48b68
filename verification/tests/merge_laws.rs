//! Tests for the merge operator of the unifier: the lattice policy on
//! concrete values, and its algebraic laws on a sample of expressions.

use storage_layout_analyzer::expression::TE;
use storage_layout_analyzer::unifier::{merge, reduce};

fn u(width: Option<u16>) -> TE {
    TE::UnsignedWord { width }
}

fn mapping(key: TE, value: TE) -> TE {
    TE::Mapping { key: Box::new(key), value: Box::new(value) }
}

/// A fixed sample of expressions covering every form.
fn samples() -> Vec<TE> {
    vec![
        TE::Any,
        TE::Bool,
        TE::Address,
        u(None),
        u(Some(8)),
        u(Some(16)),
        TE::SignedWord { width: Some(128) },
        TE::Bytes { length: None },
        TE::Bytes { length: Some(32) },
        mapping(TE::Address, u(Some(256))),
        mapping(TE::Bool, u(None)),
        TE::Conflict { candidates: vec![TE::Bool, TE::Address] },
    ]
}

#[test]
fn merge_is_commutative_on_samples() {
    let n = samples().len();
    for i in 0..n {
        for j in 0..n {
            let s = samples();
            let t = samples();
            assert_eq!(merge(&s[i], &s[j]), merge(&t[j], &t[i]));
        }
    }
}

#[test]
fn merge_is_associative_on_samples() {
    let n = samples().len();
    for i in 0..n {
        for j in 0..n {
            for k in 0..n {
                let s = samples();
                let left = merge(&merge(&s[i], &s[j]), &s[k]);
                let right = merge(&s[i], &merge(&s[j], &s[k]));
                assert_eq!(left, right);
            }
        }
    }
}

#[test]
fn any_is_neutral() {
    assert_eq!(merge(&TE::Any, &TE::Bool), TE::Bool);
    assert_eq!(merge(&TE::Address, &TE::Any), TE::Address);
    assert_eq!(merge(&TE::Any, &TE::Any), TE::Any);
    assert_eq!(merge(&u(Some(64)), &TE::Any), u(Some(64)));
}

#[test]
fn concrete_width_wins_over_unknown() {
    assert_eq!(merge(&u(None), &u(Some(8))), u(Some(8)));
    assert_eq!(merge(&u(Some(8)), &u(None)), u(Some(8)));
    assert_eq!(merge(&u(None), &u(None)), u(None));
}

#[test]
fn distinct_widths_conflict() {
    assert_eq!(
        merge(&u(Some(8)), &u(Some(16))),
        TE::Conflict { candidates: vec![u(Some(8)), u(Some(16))] }
    );
}

#[test]
fn distinct_definite_forms_conflict() {
    assert_eq!(
        merge(&TE::Bool, &TE::Address),
        TE::Conflict { candidates: vec![TE::Bool, TE::Address] }
    );
}

#[test]
fn mappings_merge_structurally() {
    let a = mapping(TE::Address, u(None));
    let b = mapping(TE::Address, u(Some(256)));
    assert_eq!(merge(&a, &b), mapping(TE::Address, u(Some(256))));
}

#[test]
fn mapping_branch_conflict_stays_in_branch() {
    let a = mapping(TE::Bool, u(Some(256)));
    let b = mapping(TE::Address, u(Some(256)));
    assert_eq!(
        merge(&a, &b),
        mapping(TE::Conflict { candidates: vec![TE::Bool, TE::Address] }, u(Some(256)))
    );
}

#[test]
fn conflicts_absorb_less_specific_evidence() {
    let c = TE::Conflict { candidates: vec![u(Some(8)), TE::Bool] };
    let again = TE::Conflict { candidates: vec![u(Some(8)), TE::Bool] };
    assert_eq!(merge(&c, &TE::Any), again);
    let c2 = TE::Conflict { candidates: vec![u(Some(8)), TE::Bool] };
    assert_eq!(merge(&c2, &u(None)), TE::Conflict { candidates: vec![u(Some(8)), TE::Bool] });
}

#[test]
fn conflicts_accumulate_new_candidates() {
    let c = TE::Conflict { candidates: vec![TE::Bool, TE::Address] };
    assert_eq!(
        merge(&c, &u(Some(8))),
        TE::Conflict { candidates: vec![u(Some(8)), TE::Bool, TE::Address] }
    );
}

#[test]
fn reduction_is_order_independent() {
    let ab = reduce(&vec![TE::Bool, u(Some(8))]);
    let ba = reduce(&vec![u(Some(8)), TE::Bool]);
    assert_eq!(ab, ba);
}

#[test]
fn reduction_of_empty_set_is_any() {
    assert_eq!(reduce(&Vec::new()), TE::Any);
}

#[test]
fn reduction_only_grows_in_specificity() {
    assert_eq!(reduce(&vec![u(None)]), u(None));
    assert_eq!(reduce(&vec![u(None), u(Some(8))]), u(Some(8)));
    assert_eq!(reduce(&vec![u(Some(8)), u(None)]), u(Some(8)));
}
