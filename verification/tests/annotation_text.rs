//! Unit tests for annotation construction, hint text, reserved identifiers,
//! and reference-count extraction from query outcomes.

use symbol_ref_hints::annotations::{
    build_annotations, count_text, removal_ids, HINT_BASE_ID, MAX_REMOVE,
};
use symbol_ref_hints::controller::{counts_from_outcomes, reference_count, QueryOutcome};

#[test]
fn count_text_renders_decimal_and_space() {
    assert_eq!(count_text(0).as_str(), "0 ");
    assert_eq!(count_text(7).as_str(), "7 ");
    assert_eq!(count_text(10).as_str(), "10 ");
    assert_eq!(count_text(42).as_str(), "42 ");
    assert_eq!(count_text(1234567).as_str(), "1234567 ");
    assert_eq!(count_text(usize::MAX).as_str(), format!("{} ", usize::MAX).as_str());
}

#[test]
fn build_annotations_orders_ids_and_text() {
    let positions = vec![5, 65, 70];
    let counts = vec![3, 0, 12];
    let annotations = build_annotations(&positions, &counts);
    assert_eq!(annotations.len(), 3);
    assert_eq!(annotations[0].id, HINT_BASE_ID);
    assert_eq!(annotations[0].position, 5);
    assert_eq!(annotations[0].text.as_str(), "3 ");
    assert_eq!(annotations[1].id, HINT_BASE_ID + 1);
    assert_eq!(annotations[1].position, 65);
    assert_eq!(annotations[1].text.as_str(), "0 ");
    assert_eq!(annotations[2].id, HINT_BASE_ID + 2);
    assert_eq!(annotations[2].position, 70);
    assert_eq!(annotations[2].text.as_str(), "12 ");
}

#[test]
fn build_annotations_caps_at_reserved_range() {
    let n = MAX_REMOVE + 100;
    let positions: Vec<usize> = (0..n).collect();
    let counts: Vec<usize> = vec![1; n];
    let annotations = build_annotations(&positions, &counts);
    assert_eq!(annotations.len(), MAX_REMOVE);
    for (i, a) in annotations.iter().enumerate() {
        assert_eq!(a.id, HINT_BASE_ID + i);
    }
}

#[test]
fn removal_ids_cover_exactly_the_reserved_range() {
    let ids = removal_ids();
    assert_eq!(ids.len(), MAX_REMOVE);
    assert_eq!(ids[0], HINT_BASE_ID);
    assert_eq!(ids[MAX_REMOVE - 1], HINT_BASE_ID + MAX_REMOVE - 1);
    for (i, id) in ids.iter().enumerate() {
        assert_eq!(*id, HINT_BASE_ID + i);
    }
}

#[test]
fn failed_queries_count_as_zero() {
    assert_eq!(reference_count(&QueryOutcome::Locations { count: 5 }), 5);
    assert_eq!(reference_count(&QueryOutcome::NoResult), 0);
    assert_eq!(reference_count(&QueryOutcome::Failed), 0);
}

#[test]
fn a_failed_query_never_aborts_the_pass() {
    let outcomes = vec![
        QueryOutcome::Locations { count: 3 },
        QueryOutcome::Failed,
        QueryOutcome::NoResult,
        QueryOutcome::Locations { count: 0 },
        QueryOutcome::Locations { count: 9 },
    ];
    assert_eq!(counts_from_outcomes(&outcomes), vec![3, 0, 0, 0, 9]);
}
