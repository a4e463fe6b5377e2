//! Resolution of each outline entry to its anchor position: the selection
//! start of the smallest flattened symbol whose range contains the entry's
//! start offset, falling back to the entry's own start when none does.

use vstd::prelude::*;

verus! {

use crate::symbols::{FlatSymbol, OutlineEntry};

/// Whether a symbol's range contains the given offset
/// (`range_start <= offset < range_end`).
pub open spec fn contains_offset(s: FlatSymbol, offset: int) -> bool {
    s.range_start <= offset < s.range_end
}

/// The length of a symbol's range.
pub open spec fn span(s: FlatSymbol) -> int {
    s.range_end - s.range_start
}

/// The winning symbol for an offset after scanning a sequence of symbols in
/// order: among those whose range contains the offset, the one with the
/// smallest span; on an exactly equal span the earlier symbol is kept.  The
/// tie-break is this library's deliberate, documented choice; the smallest
/// span itself is the rule the resolver must follow.
pub open spec fn best_symbol(symbols: Seq<FlatSymbol>, offset: int) -> Option<FlatSymbol>
    decreases symbols.len(),
{
    if symbols.len() == 0 {
        None
    } else {
        let prev = best_symbol(symbols.drop_last(), offset);
        let s = symbols.last();
        if contains_offset(s, offset) {
            match prev {
                None => Some(s),
                Some(p) => if span(s) < span(p) {
                    Some(s)
                } else {
                    Some(p)
                },
            }
        } else {
            prev
        }
    }
}

/// The anchor position of one outline entry against a flattened symbol set:
/// the winning symbol's selection start, or the entry's own start when no
/// symbol contains it.
pub open spec fn anchor_of(entry: OutlineEntry, symbols: Seq<FlatSymbol>) -> int {
    match best_symbol(symbols, entry.start_offset as int) {
        Some(s) => s.selection_start as int,
        None => entry.start_offset as int,
    }
}

/// The anchor positions of a whole outline, in entry order.
pub open spec fn anchors_of(entries: Seq<OutlineEntry>, symbols: Seq<FlatSymbol>) -> Seq<int> {
    Seq::new(entries.len(), |i: int| anchor_of(entries[i], symbols))
}

/// What scanning a symbol sequence yields: a winner exists exactly when some
/// symbol contains the offset, and the winner is a containing symbol of
/// minimal span drawn from the sequence.
pub proof fn lemma_best_symbol_properties(symbols: Seq<FlatSymbol>, offset: int)
    ensures
        (exists|i: int| 0 <= i < symbols.len() && contains_offset(#[trigger] symbols[i], offset))
            <==> best_symbol(symbols, offset) is Some,
        best_symbol(symbols, offset) matches Some(p) ==> {
            &&& contains_offset(p, offset)
            &&& symbols.contains(p)
            &&& forall|i: int|
                0 <= i < symbols.len() && contains_offset(#[trigger] symbols[i], offset) ==> span(
                    p,
                ) <= span(symbols[i])
        },
    decreases symbols.len(),
{
    if symbols.len() > 0 {
        let pre = symbols.drop_last();
        lemma_best_symbol_properties(pre, offset);
        let s = symbols.last();
        assert(forall|i: int| 0 <= i < pre.len() ==> pre[i] == #[trigger] symbols[i]);
        if exists|i: int|
            0 <= i < symbols.len() && contains_offset(#[trigger] symbols[i], offset) {
            let w = choose|i: int|
                0 <= i < symbols.len() && contains_offset(#[trigger] symbols[i], offset);
            if w < pre.len() {
                assert(contains_offset(pre[w], offset));
            }
            assert(best_symbol(symbols, offset) is Some);
        }
        if best_symbol(symbols, offset) is Some {
            if best_symbol(pre, offset) is Some {
                let q = best_symbol(pre, offset)->Some_0;
                assert(pre.contains(q));
                let qi = choose|i: int| 0 <= i < pre.len() && pre[i] == q;
                assert(symbols[qi] == q);
                assert(symbols.contains(q));
            }
            if contains_offset(s, offset) {
                assert(symbols[symbols.len() - 1] == s);
                assert(symbols.contains(s));
            }
        }
    }
}

/// Containment correctness, positive half: if one symbol's range contains the
/// entry's start offset and its span is strictly smaller than that of every
/// other containing symbol, the entry's anchor is that symbol's
/// selection-range start.
pub proof fn lemma_containment_correctness(entry: OutlineEntry, symbols: Seq<FlatSymbol>, k: int)
    requires
        0 <= k < symbols.len(),
        contains_offset(symbols[k], entry.start_offset as int),
        forall|j: int|
            0 <= j < symbols.len() && j != k && contains_offset(
                #[trigger] symbols[j],
                entry.start_offset as int,
            ) ==> span(symbols[k]) < span(symbols[j]),
    ensures
        anchor_of(entry, symbols) == symbols[k].selection_start as int,
{
    let offset = entry.start_offset as int;
    lemma_best_symbol_properties(symbols, offset);
    let p = best_symbol(symbols, offset)->Some_0;
    if p != symbols[k] {
        let m = choose|i: int| 0 <= i < symbols.len() && symbols[i] == p;
        assert(m != k);
        assert(span(symbols[k]) < span(symbols[m]));
        assert(span(p) <= span(symbols[k]));
        assert(false);
    }
}

/// Containment correctness, fallback half: when no symbol's range contains
/// the entry's start offset, the anchor is the entry's own start.
pub proof fn lemma_anchor_fallback(entry: OutlineEntry, symbols: Seq<FlatSymbol>)
    requires
        forall|i: int|
            0 <= i < symbols.len() ==> !contains_offset(
                #[trigger] symbols[i],
                entry.start_offset as int,
            ),
    ensures
        anchor_of(entry, symbols) == entry.start_offset as int,
{
    lemma_best_symbol_properties(symbols, entry.start_offset as int);
}

/// Resolves one outline entry to its anchor position by a linear scan of the
/// flattened symbol set.
pub fn resolve_anchor(entry: &OutlineEntry, symbols: &Vec<FlatSymbol>) -> (anchor: usize)
    ensures
        anchor as int == anchor_of(*entry, symbols@),
{
    let offset = entry.start_offset;
    let mut best: Option<FlatSymbol> = None;
    let n = symbols.len();
    let mut i: usize = 0;
    while i < n
        invariant
            0 <= i <= n == symbols@.len(),
            best == best_symbol(symbols@.take(i as int), offset as int),
            best matches Some(p) ==> contains_offset(p, offset as int),
        decreases n - i,
    {
        let s = symbols[i];
        proof {
            assert(symbols@.take(i + 1).drop_last() =~= symbols@.take(i as int));
            assert(symbols@.take(i + 1).last() == symbols@[i as int]);
        }
        if s.range_start <= offset && offset < s.range_end {
            match best {
                None => {
                    best = Some(s);
                },
                Some(prev) => {
                    // Both symbols contain the offset, so neither range is
                    // empty and the subtractions cannot underflow.
                    let prev_span = prev.range_end - prev.range_start;
                    let this_span = s.range_end - s.range_start;
                    if this_span < prev_span {
                        best = Some(s);
                    }
                },
            }
        }
        i = i + 1;
    }
    proof {
        assert(symbols@.take(n as int) =~= symbols@);
    }
    match best {
        Some(s) => s.selection_start,
        None => entry.start_offset,
    }
}

/// Resolves every outline entry to its anchor position, in entry order.
pub fn resolve_anchors(entries: &Vec<OutlineEntry>, symbols: &Vec<FlatSymbol>) -> (anchors: Vec<
    usize,
>)
    ensures
        anchors@.len() == entries@.len(),
        anchors@.map_values(|a: usize| a as int) == anchors_of(entries@, symbols@),
{
    let mut anchors: Vec<usize> = Vec::new();
    let n = entries.len();
    let mut i: usize = 0;
    while i < n
        invariant
            0 <= i <= n == entries@.len(),
            anchors@.len() == i,
            forall|j: int|
                0 <= j < i ==> anchors@[j] as int == anchor_of(entries@[j], symbols@),
        decreases n - i,
    {
        let a = resolve_anchor(&entries[i], symbols);
        anchors.push(a);
        i = i + 1;
    }
    proof {
        assert(anchors@.map_values(|a: usize| a as int) =~= anchors_of(entries@, symbols@));
    }
    anchors
}

} // verus!
