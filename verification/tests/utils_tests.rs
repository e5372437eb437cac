use ethereum_etl::exporters::SinkWriteError;
use ethereum_etl::mappers::MappingError;
use ethereum_etl::utils::{
    ExportError, ProgressSignal, ProgressTracker, TrackerState, LOG_ITEMS_STEP,
    LOG_PERCENTAGE_STEP,
};
use std::time::Duration;

fn percentage(signal: Option<ProgressSignal>) -> Option<(u64, u64)> {
    match signal {
        Some(ProgressSignal::Percentage { processed_items, percentage }) => {
            Some((processed_items, percentage))
        }
        _ => None,
    }
}

#[test]
fn new_tracker_is_idle_and_empty() {
    let t = ProgressTracker::new("export", Some(50));
    assert_eq!(t.name(), "export");
    assert_eq!(t.total_items(), Some(50));
    assert_eq!(t.state(), TrackerState::Idle);
    assert_eq!(t.processed_items(), 0);
    assert_eq!(t.current_threshold(), 0);
    assert_eq!(LOG_PERCENTAGE_STEP, 10);
    assert_eq!(LOG_ITEMS_STEP, 5000);
}

#[test]
fn start_signals_once() {
    let mut t = ProgressTracker::new("export", Some(50));
    assert!(matches!(t.start(), Some(ProgressSignal::Started { total_items: Some(50) })));
    assert_eq!(t.state(), TrackerState::Running);
    assert!(t.start().is_none());
    assert_eq!(t.state(), TrackerState::Running);
    let mut unknown = ProgressTracker::new("stream", None);
    assert!(matches!(unknown.start(), Some(ProgressSignal::Started { total_items: None })));
}

#[test]
fn percentage_signals_are_new_multiples_of_ten() {
    let mut t = ProgressTracker::new("export", Some(200));
    t.start();
    assert_eq!(percentage(t.track(10)), None);
    assert_eq!(percentage(t.track(9)), None);
    assert_eq!(percentage(t.track(1)), Some((20, 10)));
    assert_eq!(percentage(t.track(1)), None);
    assert_eq!(percentage(t.track(53)), Some((74, 30)));
    assert_eq!(percentage(t.track(5)), None);
    assert_eq!(percentage(t.track(1)), Some((80, 40)));
    assert_eq!(percentage(t.track(120)), Some((200, 100)));
    assert_eq!(percentage(t.track(0)), None);
    assert_eq!(t.processed_items(), 200);
}

#[test]
fn percentage_signals_increase_strictly() {
    let mut t = ProgressTracker::new("export", Some(37));
    t.start();
    let mut last = 0;
    let mut sent = 0;
    for _ in 0..37 {
        if let Some((_, p)) = percentage(t.track(1)) {
            assert_eq!(p % 10, 0);
            assert!(p > last);
            last = p;
            sent += 1;
        }
    }
    assert_eq!(last, 100);
    assert_eq!(sent, 10);
}

#[test]
fn percentage_is_rounded_down() {
    let mut t = ProgressTracker::new("export", Some(100));
    t.start();
    assert_eq!(percentage(t.track(29)), Some((29, 20)));
    assert_eq!(t.current_threshold(), 20);
    assert_eq!(percentage(t.track(1)), Some((30, 30)));
    let mut t = ProgressTracker::new("export", Some(3));
    t.start();
    assert_eq!(percentage(t.track(1)), Some((1, 30)));
    assert_eq!(percentage(t.track(1)), Some((2, 60)));
    assert_eq!(percentage(t.track(1)), Some((3, 100)));
}

#[test]
fn more_than_the_total_goes_past_a_hundred() {
    let mut t = ProgressTracker::new("export", Some(10));
    t.start();
    assert_eq!(percentage(t.track(25)), Some((25, 250)));
    let mut t = ProgressTracker::new("export", Some(1));
    t.start();
    assert_eq!(percentage(t.track(u64::MAX)), Some((u64::MAX, 18_446_744_073_709_551_610)));
}

#[test]
fn total_of_zero_sends_no_percentage() {
    let mut t = ProgressTracker::new("export", Some(0));
    t.start();
    assert!(t.track(0).is_none());
    assert!(t.track(10).is_none());
    assert_eq!(t.processed_items(), 10);
}

#[test]
fn unknown_total_signals_every_five_thousand() {
    let mut t = ProgressTracker::new("stream", None);
    t.start();
    assert!(t.track(4999).is_none());
    assert!(matches!(t.track(1), Some(ProgressSignal::Items { processed_items: 5000 })));
    assert!(t.track(4999).is_none());
    assert!(matches!(t.track(2), Some(ProgressSignal::Items { processed_items: 10001 })));
    assert!(t.track(4999).is_none());
    assert!(matches!(t.track(20000), Some(ProgressSignal::Items { processed_items: 35000 })));
}

#[test]
fn idle_tracker_counts_in_silence() {
    let mut t = ProgressTracker::new("export", Some(100));
    assert!(t.track(55).is_none());
    assert_eq!(t.processed_items(), 55);
    assert!(t.start().is_some());
    assert!(t.track(4).is_none());
    assert_eq!(percentage(t.track(1)), Some((60, 60)));
    let mut unknown = ProgressTracker::new("stream", None);
    assert!(unknown.track(7000).is_none());
    unknown.start();
    assert!(unknown.track(4999).is_none());
    assert!(unknown.track(1).is_some());
}

#[test]
fn finish_signals_the_count_once() {
    let mut t = ProgressTracker::new("export", Some(10));
    assert!(t.finish().is_none());
    assert_eq!(t.state(), TrackerState::Idle);
    t.start();
    t.track(4);
    match t.finish() {
        Some(ProgressSignal::Finished { processed_items, elapsed }) => {
            assert_eq!(processed_items, 4);
            assert!(elapsed.is_some());
        }
        other => panic!("{:?}", other),
    }
    assert_eq!(t.state(), TrackerState::Finished);
    assert!(t.finish().is_none());
    assert!(t.start().is_none());
    assert!(t.track(6).is_none());
    assert_eq!(t.processed_items(), 10);
}

#[test]
fn finish_after_carries_the_time_given() {
    let mut t = ProgressTracker::new("export", None);
    t.start_at(std::time::Instant::now());
    t.track(3);
    let signal = t.finish_after(Some(Duration::from_secs(9)));
    assert!(matches!(
        signal,
        Some(ProgressSignal::Finished { processed_items: 3, elapsed: Some(d) }) if d == Duration::from_secs(9)
    ));
}

#[test]
fn total_is_displayed_or_unknown() {
    assert_eq!(ProgressTracker::new("a", Some(1234)).total_items_display(), "1234");
    assert_eq!(ProgressTracker::new("a", Some(0)).total_items_display(), "0");
    assert_eq!(ProgressTracker::new("a", None).total_items_display(), "Unknown");
}

#[test]
fn errors_know_their_block_and_their_weight() {
    let not_found = ExportError::NotFound { block_number: 3 };
    let transport = ExportError::Transport { block_number: 4, message: "reset".to_string() };
    let mapping = ExportError::Mapping { block_number: 5, missing: MappingError::MissingHash };
    let sink = ExportError::SinkWrite { block_number: 6, cause: SinkWriteError::Io };
    assert_eq!(not_found.block_number(), 3);
    assert_eq!(transport.block_number(), 4);
    assert_eq!(mapping.block_number(), 5);
    assert_eq!(sink.block_number(), 6);
    assert!(not_found.is_fatal());
    assert!(transport.is_fatal());
    assert!(!mapping.is_fatal());
    assert!(!sink.is_fatal());
}

#[test]
fn counting_nothing_signals_nothing() {
    let mut known = ProgressTracker::new("export", Some(10));
    known.start();
    assert!(known.track(0).is_none());
    assert!(known.track(5).is_some());
    assert!(known.track(0).is_none());
    let mut unknown = ProgressTracker::new("stream", None);
    unknown.start();
    assert!(unknown.track(0).is_none());
    assert!(unknown.track(4999).is_none());
    assert!(unknown.track(0).is_none());
    assert!(unknown.track(1).is_some());
    assert!(unknown.track(0).is_none());
    assert_eq!(unknown.processed_items(), 5000);
}

#[test]
fn started_tracker_reports_the_time_it_took() {
    let mut t = ProgressTracker::new("export", Some(2));
    t.start();
    t.track(1);
    t.track(1);
    assert!(matches!(
        t.finish(),
        Some(ProgressSignal::Finished { processed_items: 2, elapsed: Some(_) })
    ));
}
