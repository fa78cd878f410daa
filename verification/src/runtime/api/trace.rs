//! Request ids and W3C trace context.
use crate::ids::{generate_span_id, generate_trace_id, is_lower_hex};
use crate::runtime::api::errors::{api_error_is, ApiError, ApiErrorKind};
use crate::runtime::models::{clone_opt_string, AttemptTraceContextRow};
use crate::runtime::store::attempts::opt_view;
use crate::text::{ascii_lower, is_token_char, lower_seq, split_on, split_char, str_eq, trim, trimmed};
use vstd::prelude::*;
use vstd::utf8::encode_utf8;

verus! {

/// A request id as the server keeps it: trimmed, non-empty, at most 128 bytes, of ASCII
/// letters, digits and `- _ . :` only.
pub open spec fn request_id_of(raw: Seq<char>) -> Option<Seq<char>> {
    let t = trimmed(raw);
    if t.len() == 0 || encode_utf8(t).len() > 128 {
        None
    } else if forall|k: int| 0 <= k < t.len() ==> #[trigger] is_token_char(t[k]) {
        Some(t)
    } else {
        None
    }
}

/// Token characters are ASCII, so their UTF-8 encoding has one byte each.
pub proof fn lemma_token_chars_ascii(t: Seq<char>)
    requires
        forall|k: int| 0 <= k < t.len() ==> #[trigger] is_token_char(t[k]),
    ensures
        encode_utf8(t).len() == t.len(),
{
    assert(vstd::utf8::is_ascii_chars(t)) by {
        assert forall|k: int| 0 <= k < t.len() implies '\0' <= #[trigger] t[k] <= '\u{7f}' by {
            assert(is_token_char(t[k]));
        }
    }
    vstd::utf8::is_ascii_chars_encode_utf8(t);
}

/// Checks a client-supplied request id (see [request_id_of]).
pub fn normalize_request_id(raw: &str) -> (r: Option<String>)
    ensures
        opt_view(r) == request_id_of(raw@),
{
    let t = trim(raw);
    if t.unicode_len() == 0 {
        return None;
    }
    if !crate::text::all_token_chars(t) {
        return None;
    }
    proof {
        lemma_token_chars_ascii(t@);
    }
    // token characters are ASCII: one byte each
    if t.unicode_len() > 128 {
        return None;
    }
    Some(t.to_owned())
}

/// An ASCII hexadecimal digit, either case.
pub open spec fn is_hex_char(c: char) -> bool {
    ('0' <= c && c <= '9') || ('a' <= c && c <= 'f') || ('A' <= c && c <= 'F')
}

/// `value` is exactly `len` hexadecimal digits.
pub open spec fn hex_id(value: Seq<char>, len: nat) -> bool {
    value.len() == len && forall|k: int| 0 <= k < value.len() ==> is_hex_char(#[trigger] value[k])
}

/// Whether `value` is exactly `expected_len` hexadecimal digits.
pub fn is_hex_id(value: &str, expected_len: usize) -> (r: bool)
    ensures
        r == hex_id(value@, expected_len as nat),
{
    let n = value.unicode_len();
    if n != expected_len {
        return false;
    }
    let mut i: usize = 0;
    while i < n
        invariant
            n == value@.len(),
            i <= n,
            forall|k: int| 0 <= k < i ==> is_hex_char(#[trigger] value@[k]),
        decreases n - i,
    {
        let c = value.get_char(i);
        if !(('0' <= c && c <= '9') || ('a' <= c && c <= 'f') || ('A' <= c && c <= 'F')) {
            return false;
        }
        i = i + 1;
    }
    true
}

/// Every character of `s` is `'0'`.
pub open spec fn all_zero(s: Seq<char>) -> bool {
    forall|k: int| 0 <= k < s.len() ==> #[trigger] s[k] == '0'
}

/// The parts of a valid `traceparent` value `00-<trace id>-<span id>-<flags>`, lower-cased:
/// 32, 16 and 2 hexadecimal digits, trace and span ids not all zero.
pub open spec fn traceparent_parts(raw: Seq<char>) -> Option<(Seq<char>, Seq<char>, Seq<char>)> {
    let parts = split_on(trimmed(raw), '-');
    if parts.len() == 4 && parts[0] == "00"@ && hex_id(parts[1], 32) && hex_id(parts[2], 16) && hex_id(parts[3], 2)
        && !all_zero(parts[1]) && !all_zero(parts[2]) {
        Some((lower_seq(parts[1]), lower_seq(parts[2]), lower_seq(parts[3])))
    } else {
        None
    }
}

/// Message of a malformed `traceparent` header.
pub open spec fn traceparent_format_message() -> Seq<char> {
    "traceparent must use format 00-<32 hex trace_id>-<16 hex span_id>-<2 hex flags>"@
}

fn is_all_zero(s: &str) -> (r: bool)
    ensures
        r == all_zero(s@),
{
    let n = s.unicode_len();
    let mut i: usize = 0;
    while i < n
        invariant
            n == s@.len(),
            i <= n,
            forall|k: int| 0 <= k < i ==> #[trigger] s@[k] == '0',
        decreases n - i,
    {
        if s.get_char(i) != '0' {
            return false;
        }
        i = i + 1;
    }
    true
}

/// ASCII lower-casing (`str::to_ascii_lowercase`).
pub fn to_ascii_lowercase(s: &str) -> (r: String)
    ensures
        r@ == lower_seq(s@),
{
    let n = s.unicode_len();
    let mut out = String::new();
    let mut i: usize = 0;
    while i < n
        invariant
            n == s@.len(),
            i <= n,
            out@ == lower_seq(s@).subrange(0, i as int),
        decreases n - i,
    {
        let c = s.get_char(i);
        let lc = if 'A' <= c && c <= 'Z' {
            ((c as u8) + 32) as char
        } else {
            c
        };
        proof {
            assert(lc == ascii_lower(c));
            assert(lower_seq(s@).subrange(0, i + 1) =~= lower_seq(s@).subrange(0, i as int).push(lc));
        }
        crate::text::push_char(&mut out, lc);
        i = i + 1;
    }
    proof {
        assert(lower_seq(s@).subrange(0, n as int) =~= lower_seq(s@));
    }
    out
}

/// Parses a `traceparent` header value (see [traceparent_parts]); a malformed value is a
/// bad request.
pub fn parse_traceparent(raw: &str) -> (r: Result<(String, String, String), ApiError>)
    ensures
        match traceparent_parts(raw@) {
            Some((t, s, f)) => r matches Ok((a, b, c)) && a@ == t && b@ == s && c@ == f,
            None => api_error_is(r, ApiErrorKind::BadRequest, traceparent_format_message()),
        },
{
    let parts = split_char(trim(raw), '-');
    let ghost ps = split_on(trimmed(raw@), '-');
    if parts.len() != 4 {
        return Err(ApiError::bad_request("traceparent must use format 00-<32 hex trace_id>-<16 hex span_id>-<2 hex flags>"));
    }
    proof {
        assert(parts@[0]@ == ps[0]);
        assert(parts@[1]@ == ps[1]);
        assert(parts@[2]@ == ps[2]);
        assert(parts@[3]@ == ps[3]);
    }
    if !str_eq(parts[0].as_str(), "00") || !is_hex_id(parts[1].as_str(), 32) || !is_hex_id(parts[2].as_str(), 16)
        || !is_hex_id(parts[3].as_str(), 2) || is_all_zero(parts[1].as_str()) || is_all_zero(parts[2].as_str()) {
        return Err(ApiError::bad_request("traceparent must use format 00-<32 hex trace_id>-<16 hex span_id>-<2 hex flags>"));
    }
    Ok((to_ascii_lowercase(parts[1].as_str()), to_ascii_lowercase(parts[2].as_str()), to_ascii_lowercase(parts[3].as_str())))
}

/// `00-<trace id>-<span id>-<flags>`.
pub open spec fn traceparent_of(trace_id: Seq<char>, span_id: Seq<char>, trace_flags: Seq<char>) -> Seq<char> {
    "00-"@ + trace_id + "-"@ + span_id + "-"@ + trace_flags
}

/// Renders a `traceparent` value.
pub fn format_traceparent(trace_id: &str, span_id: &str, trace_flags: &str) -> (r: String)
    ensures
        r@ == traceparent_of(trace_id@, span_id@, trace_flags@),
{
    let a = crate::text::concat("00-", trace_id);
    let b = crate::text::concat(a.as_str(), "-");
    let c = crate::text::concat(b.as_str(), span_id);
    let d = crate::text::concat(c.as_str(), "-");
    crate::text::concat(d.as_str(), trace_flags)
}

/// Trace context as the API carries it.
#[derive(Debug)]
pub struct TraceContextState {
    pub trace_id: String,
    pub parent_span_id: Option<String>,
    pub span_id: String,
    pub trace_flags: String,
}

/// Trace context as the API answers it.
#[derive(Clone, Debug)]
pub struct TraceContextResponse {
    pub trace_id: String,
    pub span_id: String,
    pub parent_span_id: Option<String>,
    pub traceparent: String,
}

impl TraceContextState {
    /// Context of a new request: the caller's trace and span (as parent) when it sent a
    /// `traceparent`, else a fresh trace with flags `01`; the span is always fresh.
    pub fn new_from_parts(parsed: Option<(String, String, String)>) -> (r: Self)
        ensures
            match parsed {
                Some((t, p, f)) => r.trace_id@ == t@ && opt_view(r.parent_span_id) == Some(p@) && r.trace_flags@ == f@,
                None => r.trace_id@.len() == 32 && r.parent_span_id is None && r.trace_flags@ == "01"@,
            },
            r.span_id@.len() == 16,
            forall|i: int| 0 <= i < 16 ==> is_lower_hex(#[trigger] r.span_id@[i]),
    {
        let (trace_id, parent_span_id, trace_flags) = match parsed {
            Some((t, p, f)) => (t, Some(p), f),
            None => (generate_trace_id(), None, "01".to_owned()),
        };
        TraceContextState { trace_id, parent_span_id, span_id: generate_span_id(), trace_flags }
    }

    /// Context stored with an attempt.
    pub fn from_row(row: AttemptTraceContextRow) -> (r: Self)
        ensures
            r.trace_id == row.trace_id,
            r.parent_span_id == row.parent_span_id,
            r.span_id == row.span_id,
            r.trace_flags == row.trace_flags,
    {
        TraceContextState {
            trace_id: row.trace_id,
            parent_span_id: row.parent_span_id,
            span_id: row.span_id,
            trace_flags: row.trace_flags,
        }
    }

    /// The context as answered, with its `traceparent`.
    pub fn to_response(&self) -> (r: TraceContextResponse)
        ensures
            r.trace_id@ == self.trace_id@,
            r.span_id@ == self.span_id@,
            opt_view(r.parent_span_id) == opt_view(self.parent_span_id),
            r.traceparent@ == traceparent_of(self.trace_id@, self.span_id@, self.trace_flags@),
    {
        TraceContextResponse {
            trace_id: self.trace_id.clone(),
            span_id: self.span_id.clone(),
            parent_span_id: clone_opt_string(&self.parent_span_id),
            traceparent: format_traceparent(self.trace_id.as_str(), self.span_id.as_str(), self.trace_flags.as_str()),
        }
    }
}

} // verus!
