//! The wall clock, in milliseconds since the Unix epoch.
use vstd::prelude::*;

verus! {

/// Milliseconds since the Unix epoch now: chrono's `Utc::now().timestamp_millis()`. chrono
/// reads the system clock and panics only where that clock reads before the epoch, a fault of
/// the machine rather than of any argument.
///
/// The time read is not stated.
#[verifier::external_body]
pub(crate) fn current_time_ms() -> (r: i64) {
    chrono::Utc::now().timestamp_millis()
}

/// The RFC 3339 text of the UTC instant `ms` milliseconds after the epoch, where chrono
/// can represent that instant.
pub uninterp spec fn rfc3339_text(ms: i64) -> Option<Seq<char>>;

/// `DateTime::<Utc>::from_timestamp_millis(ms)`, rendered by its `to_rfc3339()`.
///
/// `None` where the instant lies outside chrono's range. The text is named by
/// `rfc3339_text`, a function of `ms` alone; its characters and that range are not stated.
#[verifier::external_body]
pub(crate) fn rfc3339_from_ms(ms: i64) -> (r: Option<String>)
    ensures
        match r {
            Some(s) => rfc3339_text(ms) == Some(s@),
            None => rfc3339_text(ms) is None,
        },
{
    match chrono::DateTime::<chrono::Utc>::from_timestamp_millis(ms) {
        Some(t) => Some(t.to_rfc3339()),
        None => None,
    }
}

} // verus!
