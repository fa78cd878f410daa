//! Random identifiers.
use vstd::prelude::*;

verus! {

/// A lowercase hexadecimal digit.
pub open spec fn is_lower_hex(c: char) -> bool {
    ('0' <= c && c <= '9') || ('a' <= c && c <= 'f')
}

/// A random version-4 UUID in its simple form (`uuid::Uuid::new_v4().simple()`).
///
/// The value is random; every outcome is 32 lowercase hexadecimal digits.
#[verifier::external_body]
fn random_uuid_simple() -> (r: String)
    ensures
        r@.len() == 32,
        forall|i: int| 0 <= i < 32 ==> is_lower_hex(#[trigger] r@[i]),
{
    uuid::Uuid::new_v4().simple().to_string()
}

/// A random version-4 UUID in its hyphenated form (`uuid::Uuid::new_v4().to_string()`).
///
/// The value is random; every outcome is 36 characters long.
#[verifier::external_body]
pub(crate) fn random_uuid() -> (r: String)
    ensures
        r@.len() == 36,
{
    uuid::Uuid::new_v4().to_string()
}

/// A fresh trace id: 32 random lowercase hexadecimal digits.
pub fn generate_trace_id() -> (r: String)
    ensures
        r@.len() == 32,
        forall|i: int| 0 <= i < 32 ==> is_lower_hex(#[trigger] r@[i]),
{
    random_uuid_simple()
}

/// A fresh span id: 16 random lowercase hexadecimal digits (the first half of a trace id).
pub fn generate_span_id() -> (r: String)
    ensures
        r@.len() == 16,
        forall|i: int| 0 <= i < 16 ==> is_lower_hex(#[trigger] r@[i]),
{
    let raw = random_uuid_simple();
    let s = raw.as_str().substring_char(0, 16);
    s.to_owned()
}

} // verus!
