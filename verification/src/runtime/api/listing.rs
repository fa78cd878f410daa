//! What the listing endpoints answer: text filters, numbered retries and dead letters.
use crate::runtime::api::models::{AttemptRetryHistoryItem, AttemptRetryHistoryResponse, DeadLetterItem};
use crate::runtime::attempt::{attempt_status_to_str, status_name};
use crate::runtime::clock::{rfc3339_from_ms, rfc3339_text};
use crate::runtime::models::{AttemptRetryHistoryRow, AttemptRetryHistorySnapshot, DeadLetterRow};
use crate::runtime::store::attempts::opt_str_view;
use crate::text::{trim, trimmed};
use vstd::prelude::*;

verus! {

/// A text filter as a query gives it: trimmed, and a blank one filters nothing.
pub open spec fn filter_of(v: Option<Seq<char>>) -> Option<Seq<char>> {
    match v {
        Some(s) => if trimmed(s).len() == 0 { None } else { Some(trimmed(s)) },
        None => None,
    }
}

/// The filter a query parameter stands for (see [filter_of]).
pub fn nonblank_filter<'a>(v: Option<&'a str>) -> (r: Option<&'a str>)
    ensures
        opt_str_view(r) == filter_of(opt_str_view(v)),
{
    match v {
        Some(s) => {
            let t = trim(s);
            if t.unicode_len() == 0 {
                None
            } else {
                Some(t)
            }
        },
        None => None,
    }
}

/// A rendered time, or the empty text where the instant cannot be rendered.
pub open spec fn time_text(ms: i64) -> Seq<char> {
    match rfc3339_text(ms) {
        Some(t) => t,
        None => Seq::empty(),
    }
}

fn render_time(ms: i64) -> (r: String)
    ensures
        r@ == time_text(ms),
{
    match rfc3339_from_ms(ms) {
        Some(t) => t,
        None => String::new(),
    }
}

/// `item` shows `row` as the retry numbered `retry_no`.
pub open spec fn shows_retry(item: AttemptRetryHistoryItem, row: AttemptRetryHistoryRow, retry_no: int) -> bool {
    &&& item.retry_no == retry_no
    &&& item.attempt_no == row.attempt_no
    &&& item.strategy@ == row.strategy@
    &&& item.backoff_ms == row.backoff_ms
    &&& item.max_retries == row.max_retries
    &&& item.scheduled_at@ == time_text(row.scheduled_at_ms)
}

/// The retry state of an attempt as answered: its scheduled retries in order, numbered
/// from 1, and its current status by name.
pub fn retry_history_response(snapshot: &AttemptRetryHistorySnapshot) -> (r: AttemptRetryHistoryResponse)
    requires
        snapshot.history@.len() < u32::MAX,
    ensures
        r.attempt_id@ == snapshot.attempt_id@,
        r.current_attempt_no == snapshot.current_attempt_no,
        r.current_status@ == status_name(snapshot.current_status),
        r.history@.len() == snapshot.history@.len(),
        forall|k: int| 0 <= k < r.history@.len() ==> shows_retry(#[trigger] r.history@[k], snapshot.history@[k], k + 1),
{
    let mut history: Vec<AttemptRetryHistoryItem> = Vec::new();
    let n = snapshot.history.len();
    let mut i: usize = 0;
    while i < n
        invariant
            n == snapshot.history@.len(),
            n < u32::MAX,
            i <= n,
            history@.len() == i,
            forall|k: int| 0 <= k < i ==> shows_retry(#[trigger] history@[k], snapshot.history@[k], k + 1),
        decreases n - i,
    {
        let row = &snapshot.history[i];
        let item = AttemptRetryHistoryItem {
            retry_no: (i + 1) as u32,
            attempt_no: row.attempt_no,
            strategy: row.strategy.clone(),
            backoff_ms: row.backoff_ms,
            max_retries: row.max_retries,
            scheduled_at: render_time(row.scheduled_at_ms),
        };
        history.push(item);
        i = i + 1;
    }
    AttemptRetryHistoryResponse {
        attempt_id: snapshot.attempt_id.clone(),
        current_attempt_no: snapshot.current_attempt_no,
        current_status: attempt_status_to_str(&snapshot.current_status).to_string(),
        history,
    }
}

/// A dead letter as answered: the stored row with its times rendered.
pub fn map_dead_letter_item(row: DeadLetterRow) -> (r: DeadLetterItem)
    ensures
        r.attempt_id == row.attempt_id,
        r.run_id == row.run_id,
        r.attempt_no == row.attempt_no,
        r.terminal_status == row.terminal_status,
        r.reason == row.reason,
        r.dead_at@ == time_text(row.dead_at_ms),
        r.replay_status == row.replay_status,
        r.replay_count == row.replay_count,
        match row.last_replayed_at_ms {
            Some(ms) => r.last_replayed_at matches Some(t) && t@ == time_text(ms),
            None => r.last_replayed_at is None,
        },
{
    let dead_at = render_time(row.dead_at_ms);
    let last_replayed_at = match row.last_replayed_at_ms {
        Some(ms) => Some(render_time(ms)),
        None => None,
    };
    DeadLetterItem {
        attempt_id: row.attempt_id,
        run_id: row.run_id,
        attempt_no: row.attempt_no,
        terminal_status: row.terminal_status,
        reason: row.reason,
        dead_at,
        replay_status: row.replay_status,
        replay_count: row.replay_count,
        last_replayed_at,
    }
}

} // verus!
