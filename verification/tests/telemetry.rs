use naive_reduce::telemetry::{
    end_epoch_event, Event, LearnerItem, MetricEntry, MetricMetadata, MetricState, MetricsUpdate,
    Progress, StoreEvent, TrainingProgress,
};

fn entry(name: &str) -> MetricEntry {
    MetricEntry {
        name: name.to_string(),
        formatted: format!("{} formatted", name),
        serialize: format!("{} serialized", name),
    }
}

fn item() -> LearnerItem<u8> {
    LearnerItem {
        item: 9,
        progress: Progress { items_processed: 30, items_total: 100 },
        epoch: 2,
        epoch_total: 10,
        iteration: 57,
        lr: Some(0.125f64.to_bits()),
    }
}

#[test]
fn training_progress_copies_the_items_place_in_the_run() {
    let progress = TrainingProgress::from(&item());
    assert_eq!(
        progress,
        TrainingProgress {
            progress: Progress { items_processed: 30, items_total: 100 },
            epoch: 2,
            epoch_total: 10,
            iteration: 57,
        }
    );
}

#[test]
fn metric_metadata_copies_the_items_place_and_learning_rate() {
    let metadata = MetricMetadata::from(&item());
    assert_eq!(
        metadata,
        MetricMetadata {
            progress: Progress { items_processed: 30, items_total: 100 },
            epoch: 2,
            epoch_total: 10,
            iteration: 57,
            lr: Some(0.125f64.to_bits()),
        }
    );
    let mut without = item();
    without.lr = None;
    assert_eq!(MetricMetadata::from(&without).lr, None);
}

#[test]
fn update_keeps_its_entries() {
    let update = MetricsUpdate::new(vec![entry("a")], vec![(entry("b"), 7)]);
    assert_eq!(update.entries, vec![entry("a")]);
    assert_eq!(update.entries_numeric, vec![(entry("b"), 7)]);
}

#[test]
fn states_come_plain_first_then_numeric_each_in_order() {
    let update = MetricsUpdate::new(
        vec![entry("a"), entry("b")],
        vec![(entry("c"), 1.5f64.to_bits()), (entry("d"), 2.5f64.to_bits())],
    );
    assert_eq!(
        update.into_states(),
        vec![
            MetricState::Generic(entry("a")),
            MetricState::Generic(entry("b")),
            MetricState::Numeric(entry("c"), 1.5f64.to_bits()),
            MetricState::Numeric(entry("d"), 2.5f64.to_bits()),
        ]
    );
    assert_eq!(MetricsUpdate::new(vec![], vec![]).into_states(), vec![]);
}

#[test]
fn end_of_epoch_names_the_next_epoch() {
    assert_eq!(end_epoch_event(0), StoreEvent::EndEpoch(1));
    assert_eq!(end_epoch_event(41), StoreEvent::EndEpoch(42));
    assert_eq!(end_epoch_event(usize::MAX - 1), StoreEvent::EndEpoch(usize::MAX));
}

#[test]
fn events_carry_items_and_epochs() {
    let processed = Event::ProcessedItem(item());
    match processed {
        Event::ProcessedItem(i) => assert_eq!(i.item, 9),
        Event::EndEpoch(_) => panic!("an item was expected"),
    }
    match Event::<u8>::EndEpoch(4) {
        Event::EndEpoch(e) => assert_eq!(e, 4),
        Event::ProcessedItem(_) => panic!("an epoch was expected"),
    }
}
