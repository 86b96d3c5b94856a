use ore_stats::backfill_queue::{BackfillQueueCache, QueuedAction};

fn action(id: i64) -> QueuedAction {
    QueuedAction {
        id,
        round_id: 100 + id,
        action: "reconstruct".to_string(),
        status: "completed".to_string(),
        queued_at: 0,
        started_at: None,
        completed_at: None,
        error: None,
    }
}

#[test]
fn completed_actions_newest_first_and_capped() {
    let mut c = BackfillQueueCache::new();
    for i in 0..55 {
        c.add_completed(action(i), 1_000_000 + i * 1_000);
    }
    assert_eq!(c.recent_completed.len(), 50);
    assert_eq!(c.recent_completed[0].id, 54);
    assert_eq!(c.recent_completed[49].id, 5);
    assert_eq!(c.total_processed, 55);
    assert_eq!(c.recent_completion_times.len(), 55);
    // Completions at 1_000_000 .. 1_054_000, now 1_054_000: those after
    // 994_000 count, i.e. all 55.
    assert_eq!(c.processing_rate, 55);
    for i in 55..70 {
        c.add_completed(action(i), 1_000_000 + i * 1_000);
    }
    assert_eq!(c.recent_completion_times.len(), 60);
    // Now 1_069_000: times after 1_009_000 are 1_010_000 .. 1_069_000.
    assert_eq!(c.processing_rate, 60);
}

#[test]
fn rate_needs_two_completions() {
    let mut c = BackfillQueueCache::new();
    c.add_completed(action(1), 5_000);
    assert_eq!(c.processing_rate, 0);
    c.add_completed(action(2), 200_000);
    // The first completion is older than a minute.
    assert_eq!(c.processing_rate, 1);
}

#[test]
fn processing_and_failures() {
    let mut c = BackfillQueueCache::new();
    c.pending_count = 2;
    c.start_processing(action(1));
    assert_eq!(c.pending_count, 1);
    assert_eq!(c.processing.as_ref().map(|a| a.id), Some(1));
    c.finish_failed(action(1));
    assert!(c.processing.is_none());
    assert_eq!((c.total_failed, c.recent_failed.len()), (1, 1));
    c.start_processing(action(2));
    c.start_processing(action(3));
    assert_eq!(c.pending_count, 0);
    c.finish_completed(action(3), 10_000);
    assert_eq!((c.total_processed, c.recent_completed[0].id), (1, 3));
    assert!(!c.paused);
}
