//! The scheduling and cancellation controller.  It owns the refresh revision,
//! decides for each activation signal whether to clear the published hints or
//! to schedule a refresh, and gates every publication on the revision and the
//! prerequisites still holding, so a stale refresh can never overwrite a
//! newer one.

use vstd::prelude::*;

verus! {

use crate::annotations::{annotation_models, build_annotations, published_annotations,
    removal_id_view, removal_ids};
use crate::sink::{apply_splice, AnnotationSink};

/// A discrete event that activates the controller: the signals of the
/// activation bus, each delivered to `notify`.
pub enum ActivationSignal {
    /// The document was reparsed.
    Reparsed,
    /// The excerpts of the view were edited.
    ExcerptsEdited,
    /// The document was edited.
    Edited,
    /// The underlying buffer was edited.
    BufferEdited,
    /// The buffer was saved.
    Saved,
    /// The hint-display toggle changed to the given state.
    HintToggleChanged { enabled: bool },
    /// Another view became active.
    ActiveViewChanged,
    /// The settings store changed.
    SettingsChanged,
}

/// The configuration a refresh runs under, read once per activation and
/// passed in as a plain value: the view's own hint-display setting, whether
/// the active view is one single unsplit buffer, and the edit-debounce
/// interval in milliseconds.
#[derive(Clone, Copy, PartialEq, Eq, Structural, Debug)]
pub struct Configuration {
    pub hints_enabled: bool,
    pub is_singleton: bool,
    pub edit_debounce_ms: u64,
}

/// What a scheduled refresh carries: the revision it was issued under, and
/// how long to debounce before starting work.
#[derive(Clone, Copy, PartialEq, Eq, Structural, Debug)]
pub struct RefreshTicket {
    pub revision: u64,
    pub debounce_ms: u64,
}

/// What one reference query came back with: a number of locations, an empty
/// answer, or a failure.
#[derive(Clone, Copy, PartialEq, Eq, Structural, Debug)]
pub enum QueryOutcome {
    /// The query answered with this many locations.
    Locations { count: usize },
    /// The query answered, but had no result for the position.
    NoResult,
    /// The query failed.
    Failed,
}

/// The reference count an outcome contributes: failures and empty answers
/// count as zero information, never as an error.
pub open spec fn count_of_outcome(outcome: QueryOutcome) -> usize {
    match outcome {
        QueryOutcome::Locations { count } => count,
        QueryOutcome::NoResult => 0,
        QueryOutcome::Failed => 0,
    }
}

/// The reference counts of a whole pass, in outline-entry order.
pub open spec fn counts_of_outcomes(outcomes: Seq<QueryOutcome>) -> Seq<usize> {
    outcomes.map_values(|o: QueryOutcome| count_of_outcome(o))
}

/// The controller for symbol-reference hints on the active editor.
pub struct SymbolRefHints {
    enabled: bool,
    refresh_rev: u64,
}

impl SymbolRefHints {
    /// The current refresh revision: a monotonic counter, bumped on every
    /// activation, that stale asynchronous work is detected against.
    pub closed spec fn revision(&self) -> u64 {
        self.refresh_rev
    }

    /// Whether the feature itself is on.
    pub closed spec fn feature_enabled(&self) -> bool {
        self.enabled
    }

    /// Whether a refresh may run at all: the feature is on, the view shows
    /// hints, and the view is one single unsplit buffer.
    pub open spec fn prerequisites(&self, config: Configuration) -> bool {
        self.feature_enabled() && config.hints_enabled && config.is_singleton
    }

    /// Whether work captured under the given revision may still take effect.
    pub open spec fn gate(&self, captured_revision: u64, config: Configuration) -> bool {
        captured_revision == self.revision() && self.prerequisites(config)
    }

    /// A new controller: feature off, revision zero.
    pub fn new() -> (controller: Self)
        ensures
            !controller.feature_enabled(),
            controller.revision() == 0,
    {
        SymbolRefHints { enabled: false, refresh_rev: 0 }
    }

    /// Turns the feature itself on or off.  The change takes effect at the
    /// next activation signal: in-flight work keeps its own revision and is
    /// gated on the state then current.
    pub fn set_enabled(&mut self, enabled: bool)
        ensures
            final(self).feature_enabled() == enabled,
            final(self).revision() == old(self).revision(),
    {
        self.enabled = enabled;
    }

    /// Bumps the revision, which invalidates all in-flight work, and clears
    /// the whole reserved identifier range from the sink.
    pub fn bump_and_clear(&mut self, sink: &mut AnnotationSink)
        requires
            old(self).revision() < u64::MAX,
        ensures
            final(self).revision() == old(self).revision() + 1,
            final(self).feature_enabled() == old(self).feature_enabled(),
            final(sink).model() == apply_splice(
                old(sink).model(),
                removal_id_view(),
                Seq::empty(),
            ),
    {
        self.refresh_rev = self.refresh_rev + 1;
        let ids = removal_ids();
        sink.splice(&ids, Vec::new());
        proof {
            assert(annotation_models(Seq::<crate::annotations::Annotation>::empty())
                =~= Seq::<crate::annotations::AnnotationModel>::empty());
        }
    }

    /// Handles one activation signal.
    ///
    /// When the signal or the configuration shows the prerequisites no longer
    /// hold, the published hints are cleared at once, in-flight work is
    /// invalidated, and nothing is scheduled.  Otherwise any in-flight
    /// refresh is superseded by bumping the revision, and a refresh is
    /// scheduled under the new revision after the configured debounce.
    pub fn notify(
        &mut self,
        signal: &ActivationSignal,
        config: &Configuration,
        sink: &mut AnnotationSink,
    ) -> (ticket: Option<RefreshTicket>)
        requires
            old(self).revision() < u64::MAX,
        ensures
            final(self).revision() == old(self).revision() + 1,
            final(self).feature_enabled() == old(self).feature_enabled(),
            ticket matches Some(t) ==> {
                &&& final(self).prerequisites(effective_config(*signal, *config))
                &&& t.revision == final(self).revision()
                &&& t.debounce_ms == config.edit_debounce_ms
                &&& final(sink).model() == old(sink).model()
            },
            ticket is None ==> {
                &&& !final(self).prerequisites(effective_config(*signal, *config))
                &&& final(sink).model() == apply_splice(
                    old(sink).model(),
                    removal_id_view(),
                    Seq::empty(),
                )
            },
    {
        let hints_enabled = match signal {
            ActivationSignal::HintToggleChanged { enabled } => *enabled,
            _ => config.hints_enabled,
        };
        if !(self.enabled && hints_enabled) || !config.is_singleton {
            self.bump_and_clear(sink);
            None
        } else {
            self.refresh_rev = self.refresh_rev + 1;
            Some(RefreshTicket { revision: self.refresh_rev, debounce_ms: config.edit_debounce_ms })
        }
    }

    /// Re-checks, after a suspension point, whether work captured under the
    /// given revision may still proceed.
    pub fn refresh_gate(&self, captured_revision: u64, config: &Configuration) -> (ok: bool)
        ensures
            ok == self.gate(captured_revision, *config),
    {
        captured_revision == self.refresh_rev && self.enabled && config.hints_enabled
            && config.is_singleton
    }

    /// Publishes the hints of one completed refresh, unless it has gone
    /// stale: the revision and the prerequisites are checked immediately
    /// before the splice, and a superseded or disabled refresh changes
    /// nothing.  A publication clears the whole reserved identifier range and
    /// inserts the new set in the same atomic splice.
    pub fn refresh_symbol_ref_hints(
        &self,
        captured_revision: u64,
        config: &Configuration,
        positions: &Vec<usize>,
        counts: &Vec<usize>,
        sink: &mut AnnotationSink,
    ) -> (published: bool)
        requires
            positions@.len() == counts@.len(),
        ensures
            published == self.gate(captured_revision, *config),
            published ==> final(sink).model() == apply_splice(
                old(sink).model(),
                removal_id_view(),
                published_annotations(positions@, counts@),
            ),
            !published ==> final(sink).model() == old(sink).model(),
    {
        if !self.refresh_gate(captured_revision, config) {
            return false;
        }
        let annotations = build_annotations(positions, counts);
        let ids = removal_ids();
        sink.splice(&ids, annotations);
        true
    }
}

/// The hint-display setting an activation runs under: a hint-toggle signal
/// carries the new state itself; every other signal leaves the configured
/// state in force.
pub open spec fn effective_config(signal: ActivationSignal, config: Configuration) -> Configuration {
    match signal {
        ActivationSignal::HintToggleChanged { enabled } => Configuration {
            hints_enabled: enabled,
            ..config
        },
        _ => config,
    }
}

/// Turns the outcome of one reference query into the count it contributes.
pub fn reference_count(outcome: &QueryOutcome) -> (count: usize)
    ensures
        count == count_of_outcome(*outcome),
{
    match outcome {
        QueryOutcome::Locations { count } => *count,
        QueryOutcome::NoResult => 0,
        QueryOutcome::Failed => 0,
    }
}

/// Turns the outcomes of a whole query pass into reference counts, one per
/// outline entry, in order; a failed query contributes zero and never aborts
/// the pass.
pub fn counts_from_outcomes(outcomes: &Vec<QueryOutcome>) -> (counts: Vec<usize>)
    ensures
        counts@ == counts_of_outcomes(outcomes@),
{
    let mut counts: Vec<usize> = Vec::new();
    let n = outcomes.len();
    let mut i: usize = 0;
    while i < n
        invariant
            0 <= i <= n == outcomes@.len(),
            counts@.len() == i,
            forall|j: int| 0 <= j < i ==> counts@[j] == count_of_outcome(#[trigger] outcomes@[j]),
        decreases n - i,
    {
        let c = reference_count(&outcomes[i]);
        counts.push(c);
        i = i + 1;
    }
    proof {
        assert(counts@ =~= counts_of_outcomes(outcomes@));
    }
    counts
}

/// Staleness immunity: once a newer activation has bumped the controller past
/// the revision an older refresh was captured under, that older refresh can
/// never pass the publication gate again, whatever the configuration says,
/// and however late its asynchronous work completes.
pub proof fn lemma_staleness_immunity(
    older_revision: u64,
    controller: SymbolRefHints,
    config: Configuration,
)
    requires
        older_revision < controller.revision(),
    ensures
        !controller.gate(older_revision, config),
{
}

} // verus!
