//! Outline entries, document symbols, and the flattening of a symbol tree
//! into an unordered set of symbols.

use vstd::prelude::*;

verus! {

use vstd::multiset::Multiset;

broadcast use vstd::seq_lib::group_to_multiset_ensures, vstd::multiset::group_multiset_axioms;

/// A navigable top-level item surfaced by a document's outline view, as a
/// pair of snapshot-relative offsets.
#[derive(Clone, Copy, PartialEq, Eq, Structural, Debug)]
pub struct OutlineEntry {
    pub start_offset: usize,
    pub end_offset: usize,
}

/// A hierarchical structural element of a document as understood by language
/// analysis: a full range, the range of the symbol's name, and child symbols.
pub struct DocumentSymbol {
    pub range_start: usize,
    pub range_end: usize,
    pub selection_start: usize,
    pub selection_end: usize,
    pub children: Vec<DocumentSymbol>,
}

/// A document symbol with its children discarded: what survives flattening.
#[derive(Clone, Copy, PartialEq, Eq, Structural, Debug)]
pub struct FlatSymbol {
    pub range_start: usize,
    pub range_end: usize,
    pub selection_start: usize,
    pub selection_end: usize,
}

impl DocumentSymbol {
    /// The `{range, selection_range}` pair of this symbol alone.
    pub open spec fn flat(self) -> FlatSymbol {
        FlatSymbol {
            range_start: self.range_start,
            range_end: self.range_end,
            selection_start: self.selection_start,
            selection_end: self.selection_end,
        }
    }
}

/// Every symbol of one tree, the root included, as an unordered collection.
pub open spec fn symbol_nodes(s: DocumentSymbol) -> Multiset<FlatSymbol>
    decreases s,
{
    Multiset::singleton(s.flat()).add(forest_nodes(s.children@))
}

/// Every symbol of a forest of trees, as an unordered collection.
pub open spec fn forest_nodes(f: Seq<DocumentSymbol>) -> Multiset<FlatSymbol>
    decreases f,
{
    if f.len() == 0 {
        Multiset::empty()
    } else {
        forest_nodes(f.drop_last()).add(symbol_nodes(f.last()))
    }
}

/// Collapses a document-symbol forest into its flat, unordered symbol set.
///
/// The traversal uses an explicit work-list instead of recursion, so that an
/// adversarially deep symbol tree cannot exhaust the call stack.
pub fn flatten_document_symbols(doc_symbols: Vec<DocumentSymbol>) -> (flat_symbols: Vec<
    FlatSymbol,
>)
    ensures
        flat_symbols@.to_multiset() == forest_nodes(doc_symbols@),
{
    let ghost orig = doc_symbols@;
    let mut flat_symbols: Vec<FlatSymbol> = Vec::new();
    let mut stack: Vec<DocumentSymbol> = doc_symbols;
    while stack.len() > 0
        invariant
            flat_symbols@.to_multiset().add(forest_nodes(stack@)) == forest_nodes(orig),
        decreases forest_nodes(stack@).len(),
    {
        let ghost stack_before = stack@;
        let symbol = stack.pop().unwrap();
        let ghost popped = symbol;
        proof {
            assert(stack@ =~= stack_before.drop_last());
            assert(forest_nodes(stack_before) == forest_nodes(stack@).add(symbol_nodes(popped)));
        }
        let DocumentSymbol { range_start, range_end, selection_start, selection_end, children } =
            symbol;
        let mut children = children;
        flat_symbols.push(
            FlatSymbol { range_start, range_end, selection_start, selection_end },
        );
        proof {
            assert(flat_symbols@.to_multiset().add(forest_nodes(stack@)).add(
                forest_nodes(children@),
            ) =~= forest_nodes(orig));
        }
        while children.len() > 0
            invariant
                flat_symbols@.to_multiset().add(forest_nodes(stack@)).add(forest_nodes(children@))
                    == forest_nodes(orig),
                forest_nodes(stack@).add(forest_nodes(children@)) == forest_nodes(
                    stack_before,
                ).sub(Multiset::singleton(popped.flat())),
            decreases children@.len(),
        {
            let ghost children_before = children@;
            let ghost stack_mid = stack@;
            let child = children.pop().unwrap();
            proof {
                assert(children@ =~= children_before.drop_last());
                assert(forest_nodes(children_before) == forest_nodes(children@).add(
                    symbol_nodes(child),
                ));
            }
            stack.push(child);
            proof {
                assert(stack@.drop_last() =~= stack_mid);
                assert(forest_nodes(stack@) == forest_nodes(stack_mid).add(symbol_nodes(child)));
                assert(flat_symbols@.to_multiset().add(forest_nodes(stack@)).add(
                    forest_nodes(children@),
                ) =~= forest_nodes(orig));
                assert(forest_nodes(stack@).add(forest_nodes(children@)) =~= forest_nodes(
                    stack_before,
                ).sub(Multiset::singleton(popped.flat())));
            }
        }
        proof {
            assert(forest_nodes(children@) =~= Multiset::empty());
            assert(flat_symbols@.to_multiset().add(forest_nodes(stack@)) =~= forest_nodes(orig));
            assert(forest_nodes(stack@) =~= forest_nodes(stack_before).sub(
                Multiset::singleton(popped.flat()),
            ));
            assert(forest_nodes(stack_before).count(popped.flat()) >= 1);
            assert(forest_nodes(stack@).len() < forest_nodes(stack_before).len());
        }
    }
    proof {
        assert(forest_nodes(stack@) =~= Multiset::empty());
        assert(flat_symbols@.to_multiset() =~= forest_nodes(orig));
    }
    flat_symbols
}

} // verus!
