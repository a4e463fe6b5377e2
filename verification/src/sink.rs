//! The annotation sink: the annotations this feature owns, changed only by an
//! atomic splice that removes a set of identifiers and then inserts a new
//! annotation set.

use vstd::prelude::*;

verus! {

use crate::annotations::{
    Annotation,
    AnnotationModel,
    annotation_models,
    lemma_bounded_capacity,
    published_annotations,
    removal_id_view,
    reserved_id,
    HINT_BASE_ID,
};

/// The annotations that survive a removal: those whose identifier is not in
/// the removed set, in their original order.
pub open spec fn kept_annotations(s: Seq<AnnotationModel>, remove_ids: Seq<usize>) -> Seq<
    AnnotationModel,
>
    decreases s.len(),
{
    if s.len() == 0 {
        Seq::empty()
    } else {
        kept_annotations(s.drop_last(), remove_ids) + (if remove_ids.contains(s.last().id) {
            Seq::empty()
        } else {
            seq![s.last()]
        })
    }
}

/// One atomic splice: remove every annotation whose identifier is in
/// `remove_ids`, then append `insert`.
pub open spec fn apply_splice(
    s: Seq<AnnotationModel>,
    remove_ids: Seq<usize>,
    insert: Seq<AnnotationModel>,
) -> Seq<AnnotationModel> {
    kept_annotations(s, remove_ids) + insert
}

/// Whether a list of identifiers holds the given one.
fn contains_id(ids: &Vec<usize>, id: usize) -> (r: bool)
    ensures
        r == ids@.contains(id),
{
    let n = ids.len();
    let mut i: usize = 0;
    while i < n
        invariant
            0 <= i <= n == ids@.len(),
            forall|j: int| 0 <= j < i ==> ids@[j] != id,
        decreases n - i,
    {
        if ids[i] == id {
            return true;
        }
        i = i + 1;
    }
    false
}

/// An annotation sink holding the currently visible annotations.
pub struct AnnotationSink {
    annotations: Vec<Annotation>,
}

impl AnnotationSink {
    /// The models of the annotations currently visible in the sink.
    pub closed spec fn model(&self) -> Seq<AnnotationModel> {
        annotation_models(self.annotations@)
    }

    /// An empty sink.
    pub fn new() -> (sink: Self)
        ensures
            sink.model() == Seq::<AnnotationModel>::empty(),
    {
        let sink = AnnotationSink { annotations: Vec::new() };
        proof {
            assert(sink.model() =~= Seq::<AnnotationModel>::empty());
        }
        sink
    }

    /// How many annotations are visible.
    pub fn len(&self) -> (n: usize)
        ensures
            n == self.model().len(),
    {
        self.annotations.len()
    }

    /// The identifier, position and text of the annotation at an index.
    pub fn get(&self, index: usize) -> (r: (usize, usize, &String))
        requires
            index < self.model().len(),
        ensures
            r.0 == self.model()[index as int].id,
            r.1 == self.model()[index as int].position,
            r.2@ == self.model()[index as int].text,
    {
        let a = &self.annotations[index];
        (a.id, a.position, &a.text)
    }

    /// Removes every annotation whose identifier is in `remove_ids`, then
    /// inserts the given set, as one atomic change.
    pub fn splice(&mut self, remove_ids: &Vec<usize>, insert: Vec<Annotation>)
        ensures
            final(self).model() == apply_splice(
                old(self).model(),
                remove_ids@,
                annotation_models(insert@),
            ),
    {
        let ghost orig = self.annotations@;
        let mut kept: Vec<Annotation> = Vec::new();
        let total = self.annotations.len();
        let mut i: usize = 0;
        while i < total
            invariant
                0 <= i <= total == orig.len(),
                self.annotations@ == orig.skip(i as int),
                annotation_models(kept@) == kept_annotations(
                    annotation_models(orig.take(i as int)),
                    remove_ids@,
                ),
            decreases total - i,
        {
            let ghost kept_before = kept@;
            let a = self.annotations.remove(0);
            proof {
                assert(self.annotations@ =~= orig.skip(i + 1));
                assert(a == orig[i as int]);
            }
            let keep_it = !contains_id(remove_ids, a.id);
            let ghost a_model = a@;
            if keep_it {
                kept.push(a);
            }
            proof {
                let models_now = annotation_models(orig.take(i + 1));
                assert(models_now.drop_last() =~= annotation_models(orig.take(i as int)));
                assert(models_now.last() == a_model);
                if keep_it {
                    assert(annotation_models(kept@) =~= annotation_models(kept_before) + seq![
                        a_model,
                    ]);
                } else {
                    assert(annotation_models(kept@) =~= annotation_models(kept_before)
                        + Seq::empty());
                }
                assert(annotation_models(kept@) =~= kept_annotations(models_now, remove_ids@));
            }
            i = i + 1;
        }
        proof {
            assert(orig.take(total as int) =~= orig);
        }
        let mut insert = insert;
        let ghost insert_models = annotation_models(insert@);
        self.annotations = kept;
        self.annotations.append(&mut insert);
        proof {
            assert(self.model() =~= kept_annotations(annotation_models(orig), remove_ids@)
                + insert_models);
        }
    }
}

/// Every annotation that survives a removal was there before, and its
/// identifier is not among the removed ones.
pub proof fn lemma_kept_annotations_not_removed(s: Seq<AnnotationModel>, remove_ids: Seq<usize>)
    ensures
        forall|i: int|
            0 <= i < kept_annotations(s, remove_ids).len() ==> {
                &&& !remove_ids.contains(#[trigger] kept_annotations(s, remove_ids)[i].id)
                &&& s.contains(kept_annotations(s, remove_ids)[i])
            },
    decreases s.len(),
{
    if s.len() > 0 {
        lemma_kept_annotations_not_removed(s.drop_last(), remove_ids);
        let pre = kept_annotations(s.drop_last(), remove_ids);
        assert forall|i: int| 0 <= i < kept_annotations(s, remove_ids).len() implies {
            &&& !remove_ids.contains(kept_annotations(s, remove_ids)[i].id)
            &&& s.contains(kept_annotations(s, remove_ids)[i])
        } by {
            if i < pre.len() {
                assert(kept_annotations(s, remove_ids)[i] == pre[i]);
                assert(!remove_ids.contains(kept_annotations(s.drop_last(), remove_ids)[i].id));
                assert(s.drop_last().contains(kept_annotations(s.drop_last(), remove_ids)[i]));
                let j = choose|j: int| 0 <= j < s.drop_last().len() && s.drop_last()[j] == pre[i];
                assert(s[j] == pre[i]);
            } else {
                assert(kept_annotations(s, remove_ids)[i] == s.last());
                assert(s[s.len() - 1] == s.last());
            }
        }
    }
}

/// Removal distributes over concatenation.
pub proof fn lemma_kept_annotations_concat(
    a: Seq<AnnotationModel>,
    b: Seq<AnnotationModel>,
    remove_ids: Seq<usize>,
)
    ensures
        kept_annotations(a + b, remove_ids) == kept_annotations(a, remove_ids) + kept_annotations(
            b,
            remove_ids,
        ),
    decreases b.len(),
{
    if b.len() == 0 {
        assert(a + b =~= a);
        assert(kept_annotations(a, remove_ids) + kept_annotations(b, remove_ids)
            =~= kept_annotations(a, remove_ids));
    } else {
        lemma_kept_annotations_concat(a, b.drop_last(), remove_ids);
        assert((a + b).drop_last() =~= a + b.drop_last());
        assert((a + b).last() == b.last());
        assert(kept_annotations(a + b, remove_ids) =~= kept_annotations(a, remove_ids)
            + kept_annotations(b, remove_ids));
    }
}

/// Removing the same identifiers twice removes nothing more.
pub proof fn lemma_kept_annotations_idempotent(s: Seq<AnnotationModel>, remove_ids: Seq<usize>)
    ensures
        kept_annotations(kept_annotations(s, remove_ids), remove_ids) == kept_annotations(
            s,
            remove_ids,
        ),
    decreases s.len(),
{
    if s.len() > 0 {
        lemma_kept_annotations_idempotent(s.drop_last(), remove_ids);
        let pre = kept_annotations(s.drop_last(), remove_ids);
        if remove_ids.contains(s.last().id) {
            assert(kept_annotations(s, remove_ids) =~= pre);
        } else {
            let unit = seq![s.last()];
            lemma_kept_annotations_concat(pre, unit, remove_ids);
            assert(unit.drop_last() =~= Seq::<AnnotationModel>::empty());
            assert(kept_annotations(Seq::<AnnotationModel>::empty(), remove_ids)
                =~= Seq::<AnnotationModel>::empty());
            assert(unit.last() == s.last());
            assert(kept_annotations(unit, remove_ids) =~= unit);
            assert(kept_annotations(kept_annotations(s, remove_ids), remove_ids)
                =~= kept_annotations(s, remove_ids));
        }
    }
}

/// A set whose identifiers are all removed is filtered away entirely.
pub proof fn lemma_kept_annotations_all_removed(s: Seq<AnnotationModel>, remove_ids: Seq<usize>)
    requires
        forall|i: int| 0 <= i < s.len() ==> remove_ids.contains(#[trigger] s[i].id),
    ensures
        kept_annotations(s, remove_ids) == Seq::<AnnotationModel>::empty(),
    decreases s.len(),
{
    if s.len() > 0 {
        assert(forall|i: int|
            0 <= i < s.drop_last().len() ==> s.drop_last()[i] == #[trigger] s[i]);
        lemma_kept_annotations_all_removed(s.drop_last(), remove_ids);
        assert(s[s.len() - 1] == s.last());
        assert(kept_annotations(s, remove_ids) =~= Seq::<AnnotationModel>::empty());
    }
}

/// Cleanup: a splice that removes the whole reserved identifier range and
/// inserts nothing leaves no annotation of this feature behind, whatever the
/// sink held.
pub proof fn lemma_cleanup_clears_reserved(s: Seq<AnnotationModel>, remove_ids: Seq<usize>)
    requires
        forall|id: usize| reserved_id(id) ==> remove_ids.contains(id),
    ensures
        forall|i: int|
            0 <= i < apply_splice(s, remove_ids, Seq::empty()).len() ==> !reserved_id(
                #[trigger] apply_splice(s, remove_ids, Seq::empty())[i].id,
            ),
{
    lemma_kept_annotations_not_removed(s, remove_ids);
    assert(apply_splice(s, remove_ids, Seq::empty()) =~= kept_annotations(s, remove_ids));
}

/// Cleanup on disable: the splice a disabling notification performs — remove
/// the whole reserved range, insert nothing — leaves no annotation of this
/// feature behind, whatever the sink held before.
pub proof fn lemma_disable_leaves_no_hints(sink_before: Seq<AnnotationModel>)
    ensures
        forall|i: int|
            0 <= i < apply_splice(sink_before, removal_id_view(), Seq::empty()).len()
                ==> !reserved_id(
                #[trigger] apply_splice(sink_before, removal_id_view(), Seq::empty())[i].id,
            ),
{
    assert forall|id: usize| reserved_id(id) implies removal_id_view().contains(id) by {
        assert(removal_id_view()[id - HINT_BASE_ID] == id);
    }
    lemma_cleanup_clears_reserved(sink_before, removal_id_view());
}

/// Idempotence: publishing the same anchor positions and the same reference
/// counts a second time — the same clear-then-insert splice over the reserved
/// range — leaves the sink exactly as the first publication did.
pub proof fn lemma_publish_idempotent(
    sink: Seq<AnnotationModel>,
    positions: Seq<usize>,
    counts: Seq<usize>,
)
    ensures
        apply_splice(
            apply_splice(sink, removal_id_view(), published_annotations(positions, counts)),
            removal_id_view(),
            published_annotations(positions, counts),
        ) == apply_splice(sink, removal_id_view(), published_annotations(positions, counts)),
{
    let remove_ids = removal_id_view();
    assert forall|id: usize| reserved_id(id) implies remove_ids.contains(id) by {
        assert(remove_ids[id - HINT_BASE_ID] == id);
    }
    let anns = published_annotations(positions, counts);
    lemma_bounded_capacity(positions, counts);
    assert(forall|i: int| 0 <= i < anns.len() ==> remove_ids.contains(#[trigger] anns[i].id));
    let once = apply_splice(sink, remove_ids, anns);
    lemma_kept_annotations_concat(kept_annotations(sink, remove_ids), anns, remove_ids);
    lemma_kept_annotations_idempotent(sink, remove_ids);
    lemma_kept_annotations_all_removed(anns, remove_ids);
    assert(kept_annotations(once, remove_ids) =~= kept_annotations(sink, remove_ids));
    assert(apply_splice(once, remove_ids, anns) =~= once);
}

} // verus!
