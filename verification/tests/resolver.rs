//! Unit tests for enclosing-symbol resolution and tree flattening.

use symbol_ref_hints::resolve::{resolve_anchor, resolve_anchors};
use symbol_ref_hints::symbols::{flatten_document_symbols, DocumentSymbol, FlatSymbol, OutlineEntry};

fn flat(
    range_start: usize,
    range_end: usize,
    selection_start: usize,
    selection_end: usize,
) -> FlatSymbol {
    FlatSymbol { range_start, range_end, selection_start, selection_end }
}

fn symbol(
    range_start: usize,
    range_end: usize,
    selection_start: usize,
    selection_end: usize,
    children: Vec<DocumentSymbol>,
) -> DocumentSymbol {
    DocumentSymbol { range_start, range_end, selection_start, selection_end, children }
}

#[test]
fn anchor_is_smallest_containing_symbol() {
    let symbols = vec![flat(0, 200, 5, 10), flat(60, 100, 65, 70), flat(50, 180, 55, 58)];
    let entry = OutlineEntry { start_offset: 60, end_offset: 120 };
    // All three contain offset 60; the span of the second (40) beats
    // the others (200 and 130).
    assert_eq!(resolve_anchor(&entry, &symbols), 65);
}

#[test]
fn anchor_falls_back_to_entry_start() {
    let symbols = vec![flat(100, 200, 105, 110)];
    let entry = OutlineEntry { start_offset: 10, end_offset: 40 };
    assert_eq!(resolve_anchor(&entry, &symbols), 10);
}

#[test]
fn anchor_with_no_symbols_is_entry_start() {
    let entry = OutlineEntry { start_offset: 33, end_offset: 60 };
    assert_eq!(resolve_anchor(&entry, &Vec::new()), 33);
}

#[test]
fn range_end_is_exclusive() {
    let symbols = vec![flat(0, 50, 1, 4)];
    let inside = OutlineEntry { start_offset: 49, end_offset: 60 };
    let outside = OutlineEntry { start_offset: 50, end_offset: 60 };
    assert_eq!(resolve_anchor(&inside, &symbols), 1);
    assert_eq!(resolve_anchor(&outside, &symbols), 50);
}

#[test]
fn equal_span_keeps_first_seen() {
    // Both symbols contain offset 20 with span 40; the earlier one wins.
    let symbols = vec![flat(0, 40, 7, 9), flat(10, 50, 12, 14)];
    let entry = OutlineEntry { start_offset: 20, end_offset: 30 };
    assert_eq!(resolve_anchor(&entry, &symbols), 7);
}

#[test]
fn anchors_follow_entry_order() {
    let symbols = vec![flat(0, 30, 2, 5), flat(30, 60, 33, 36)];
    let entries = vec![
        OutlineEntry { start_offset: 31, end_offset: 40 },
        OutlineEntry { start_offset: 1, end_offset: 9 },
        OutlineEntry { start_offset: 90, end_offset: 95 },
    ];
    assert_eq!(resolve_anchors(&entries, &symbols), vec![33, 2, 90]);
}

#[test]
fn flatten_collects_every_nested_symbol() {
    let tree = vec![
        symbol(
            0,
            100,
            1,
            3,
            vec![
                symbol(10, 20, 11, 13, Vec::new()),
                symbol(30, 40, 31, 33, vec![symbol(32, 35, 32, 34, Vec::new())]),
            ],
        ),
        symbol(200, 300, 201, 203, Vec::new()),
    ];
    let mut flattened = flatten_document_symbols(tree);
    flattened.sort_by_key(|s| s.range_start);
    assert_eq!(
        flattened,
        vec![
            flat(0, 100, 1, 3),
            flat(10, 20, 11, 13),
            flat(30, 40, 31, 33),
            flat(32, 35, 32, 34),
            flat(200, 300, 201, 203),
        ]
    );
}

#[test]
fn flatten_of_empty_forest_is_empty() {
    assert!(flatten_document_symbols(Vec::new()).is_empty());
}

#[test]
fn flatten_survives_deep_nesting() {
    // A chain this deep would overflow the call stack under recursive
    // descent; the work-list traversal handles it.
    let depth = 10_000;
    let mut tree = symbol(0, 1, 0, 1, Vec::new());
    let mut i = 1;
    while i < depth {
        tree = symbol(0, i + 1, 0, 1, vec![tree]);
        i += 1;
    }
    let flattened = flatten_document_symbols(vec![tree]);
    assert_eq!(flattened.len(), depth);
}
