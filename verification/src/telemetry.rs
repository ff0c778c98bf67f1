//! The values that cross the boundary to a training loop's telemetry: what a
//! processed item tells about progress, what metrics report, and the signal
//! that ends an epoch.

use vstd::prelude::*;

verus! {

/// How far a pass over the items has come.
#[derive(Debug, Clone, Copy, PartialEq, Eq, Structural)]
pub struct Progress {
    pub items_processed: usize,
    pub items_total: usize,
}

/// An item that the training loop has processed, with where in the run it
/// was processed.
pub struct LearnerItem<T> {
    pub item: T,
    pub progress: Progress,
    pub epoch: usize,
    pub epoch_total: usize,
    pub iteration: usize,
    /// The learning rate, by the bits of its double-precision value.
    pub lr: Option<u64>,
}

/// Where in the run the training loop is, for display.
#[derive(Debug, Clone, Copy, PartialEq, Eq, Structural)]
pub struct TrainingProgress {
    pub progress: Progress,
    pub epoch: usize,
    pub epoch_total: usize,
    pub iteration: usize,
}

/// Where in the run an item was processed, for the metrics.
#[derive(Debug, Clone, Copy, PartialEq, Eq, Structural)]
pub struct MetricMetadata {
    pub progress: Progress,
    pub epoch: usize,
    pub epoch_total: usize,
    pub iteration: usize,
    /// The learning rate, by the bits of its double-precision value.
    pub lr: Option<u64>,
}

/// What a metric reports after an item.
#[derive(Debug, Clone, PartialEq, Eq)]
pub struct MetricEntry {
    pub name: String,
    pub formatted: String,
    pub serialize: String,
}

/// A metric's report as a display takes it: alone, or with the number it
/// stands for, held by the bits of its double-precision value.
#[derive(Debug, Clone, PartialEq, Eq)]
pub enum MetricState {
    Generic(MetricEntry),
    Numeric(MetricEntry, u64),
}

/// The reports of all metrics after one item.
#[derive(Debug, Clone, PartialEq, Eq)]
pub struct MetricsUpdate {
    pub entries: Vec<MetricEntry>,
    pub entries_numeric: Vec<(MetricEntry, u64)>,
}

/// What the training loop tells the processor.
pub enum Event<T> {
    /// An item was processed.
    ProcessedItem(LearnerItem<T>),
    /// The epoch with this number has ended.
    EndEpoch(usize),
}

/// What the processor tells the store of metrics.
#[derive(Debug, Clone, PartialEq, Eq)]
pub enum StoreEvent {
    /// The metrics were updated.
    MetricsUpdate(MetricsUpdate),
    /// An epoch has ended; the number is that of the epoch that follows.
    EndEpoch(usize),
}

impl<T> From<&LearnerItem<T>> for TrainingProgress {
    fn from(item: &LearnerItem<T>) -> (progress: Self) {
        TrainingProgress {
            progress: item.progress,
            epoch: item.epoch,
            epoch_total: item.epoch_total,
            iteration: item.iteration,
        }
    }
}

impl<T> vstd::std_specs::convert::FromSpecImpl<&LearnerItem<T>> for TrainingProgress {
    open spec fn obeys_from_spec() -> bool {
        true
    }

    open spec fn from_spec(item: &LearnerItem<T>) -> Self {
        TrainingProgress {
            progress: item.progress,
            epoch: item.epoch,
            epoch_total: item.epoch_total,
            iteration: item.iteration,
        }
    }
}

impl<T> From<&LearnerItem<T>> for MetricMetadata {
    fn from(item: &LearnerItem<T>) -> (metadata: Self) {
        MetricMetadata {
            progress: item.progress,
            epoch: item.epoch,
            epoch_total: item.epoch_total,
            iteration: item.iteration,
            lr: item.lr,
        }
    }
}

impl<T> vstd::std_specs::convert::FromSpecImpl<&LearnerItem<T>> for MetricMetadata {
    open spec fn obeys_from_spec() -> bool {
        true
    }

    open spec fn from_spec(item: &LearnerItem<T>) -> Self {
        MetricMetadata {
            progress: item.progress,
            epoch: item.epoch,
            epoch_total: item.epoch_total,
            iteration: item.iteration,
            lr: item.lr,
        }
    }
}

/// The states that a display is given for one update, in the order it is
/// given them: every plain report, then every report with a number, each
/// group in the order of its metrics.
pub open spec fn states_of(update: MetricsUpdate) -> Seq<MetricState> {
    update.entries@.map_values(|entry: MetricEntry| MetricState::Generic(entry))
        + update.entries_numeric@.map_values(
        |pair: (MetricEntry, u64)| MetricState::Numeric(pair.0, pair.1),
    )
}

impl MetricsUpdate {
    pub fn new(entries: Vec<MetricEntry>, entries_numeric: Vec<(MetricEntry, u64)>) -> (update:
        Self)
        ensures
            update.entries == entries,
            update.entries_numeric == entries_numeric,
    {
        MetricsUpdate { entries, entries_numeric }
    }

    /// The states to hand to a display, in order.
    pub fn into_states(self) -> (states: Vec<MetricState>)
        ensures
            states@ == states_of(self),
    {
        let ghost plain = self.entries@.map_values(|entry: MetricEntry| MetricState::Generic(entry));
        let ghost numbered = self.entries_numeric@.map_values(
            |pair: (MetricEntry, u64)| MetricState::Numeric(pair.0, pair.1),
        );
        let MetricsUpdate { entries, entries_numeric } = self;
        let mut states: Vec<MetricState> = Vec::new();
        for entry in it: entries.into_iter()
            invariant
                states@ == plain.take(it.index() as int),
                plain.len() == it.seq().len(),
                forall|k: int| 0 <= k < plain.len() ==> plain[k] == MetricState::Generic(it.seq()[k]),
        {
            states.push(MetricState::Generic(entry));
            assert(states@ =~= plain.take(it.index() + 1));
        }
        assert(states@ =~= plain);
        for pair in it: entries_numeric.into_iter()
            invariant
                states@ == plain + numbered.take(it.index() as int),
                numbered.len() == it.seq().len(),
                forall|k: int|
                    0 <= k < numbered.len() ==> numbered[k] == MetricState::Numeric(
                        it.seq()[k].0,
                        it.seq()[k].1,
                    ),
        {
            states.push(MetricState::Numeric(pair.0, pair.1));
            assert(states@ =~= plain + numbered.take(it.index() + 1));
        }
        assert(states@ =~= plain + numbered);
        states
    }
}

/// The signal to the store that the epoch numbered `epoch` has ended: it
/// names the epoch that follows.
pub fn end_epoch_event(epoch: usize) -> (event: StoreEvent)
    requires
        epoch < usize::MAX,
    ensures
        event == StoreEvent::EndEpoch((epoch + 1) as usize),
{
    StoreEvent::EndEpoch(epoch + 1)
}

} // verus!
