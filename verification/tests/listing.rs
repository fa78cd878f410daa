use oris_runtime::runtime::api::listing::{map_dead_letter_item, nonblank_filter, retry_history_response};
use oris_runtime::runtime::attempt::AttemptExecutionStatus;
use oris_runtime::runtime::models::{AttemptRetryHistoryRow, AttemptRetryHistorySnapshot, DeadLetterRow};

#[test]
fn blank_filters_filter_nothing() {
    assert_eq!(nonblank_filter(None), None);
    assert_eq!(nonblank_filter(Some("   ")), None);
    assert_eq!(nonblank_filter(Some("")), None);
    assert_eq!(nonblank_filter(Some("  job.run \t")), Some("job.run"));
}

fn retry_row(attempt_no: u32, strategy: &str, backoff_ms: i64, scheduled_at_ms: i64) -> AttemptRetryHistoryRow {
    AttemptRetryHistoryRow {
        attempt_id: "attempt-a".to_string(),
        attempt_no,
        strategy: strategy.to_string(),
        backoff_ms,
        max_retries: 3,
        scheduled_at_ms,
    }
}

#[test]
fn retries_are_numbered_from_one_with_rendered_times() {
    let snapshot = AttemptRetryHistorySnapshot {
        attempt_id: "attempt-a".to_string(),
        current_attempt_no: 3,
        current_status: AttemptExecutionStatus::RetryBackoff,
        history: vec![retry_row(2, "fixed", 1000, 1000), retry_row(3, "exponential", 2000, 86_400_000)],
    };
    let r = retry_history_response(&snapshot);
    assert_eq!(r.attempt_id, "attempt-a");
    assert_eq!(r.current_attempt_no, 3);
    assert_eq!(r.current_status, "retry_backoff");
    assert_eq!(r.history.len(), 2);
    assert_eq!(r.history[0].retry_no, 1);
    assert_eq!(r.history[0].attempt_no, 2);
    assert_eq!(r.history[0].strategy, "fixed");
    assert_eq!(r.history[0].backoff_ms, 1000);
    assert_eq!(r.history[0].max_retries, 3);
    assert_eq!(r.history[0].scheduled_at, "1970-01-01T00:00:01+00:00");
    assert_eq!(r.history[1].retry_no, 2);
    assert_eq!(r.history[1].strategy, "exponential");
    assert_eq!(r.history[1].scheduled_at, "1970-01-02T00:00:00+00:00");
}

#[test]
fn an_empty_retry_history_answers_no_items() {
    let snapshot = AttemptRetryHistorySnapshot {
        attempt_id: "attempt-b".to_string(),
        current_attempt_no: 1,
        current_status: AttemptExecutionStatus::Queued,
        history: Vec::new(),
    };
    let r = retry_history_response(&snapshot);
    assert_eq!(r.current_status, "queued");
    assert!(r.history.is_empty());
}

#[test]
fn dead_letters_are_answered_with_rendered_times() {
    let row = DeadLetterRow {
        attempt_id: "attempt-c".to_string(),
        run_id: "run-c".to_string(),
        attempt_no: 4,
        terminal_status: "failed".to_string(),
        reason: Some("boom".to_string()),
        dead_at_ms: 1_500,
        replay_status: "replayed".to_string(),
        replay_count: 2,
        last_replayed_at_ms: Some(60_000),
    };
    let item = map_dead_letter_item(row);
    assert_eq!(item.attempt_id, "attempt-c");
    assert_eq!(item.run_id, "run-c");
    assert_eq!(item.attempt_no, 4);
    assert_eq!(item.terminal_status, "failed");
    assert_eq!(item.reason.as_deref(), Some("boom"));
    assert_eq!(item.dead_at, "1970-01-01T00:00:01.500+00:00");
    assert_eq!(item.replay_status, "replayed");
    assert_eq!(item.replay_count, 2);
    assert_eq!(item.last_replayed_at.as_deref(), Some("1970-01-01T00:01:00+00:00"));

    let never = map_dead_letter_item(DeadLetterRow {
        attempt_id: "attempt-d".to_string(),
        run_id: "run-d".to_string(),
        attempt_no: 1,
        terminal_status: "cancelled".to_string(),
        reason: None,
        dead_at_ms: 0,
        replay_status: "pending".to_string(),
        replay_count: 0,
        last_replayed_at_ms: None,
    });
    assert_eq!(never.dead_at, "1970-01-01T00:00:00+00:00");
    assert_eq!(never.last_replayed_at, None);
}
