//! Names of the SQL schema a database-backed repository keeps its tables in.
use crate::kernel::event::KernelError;
use crate::text::concat;
use vstd::prelude::*;

verus! {

/// An ASCII letter, an ASCII digit or `_`.
pub open spec fn is_ident_char(c: char) -> bool {
    ('a' <= c && c <= 'z') || ('A' <= c && c <= 'Z') || ('0' <= c && c <= '9') || c == '_'
}

/// A schema name that can be quoted into SQL as it is: not empty, and made of ASCII
/// letters, digits and `_` only.
pub open spec fn valid_schema_ident(schema: Seq<char>) -> bool {
    schema.len() > 0 && forall|i: int| 0 <= i < schema.len() ==> is_ident_char(#[trigger] schema[i])
}

/// Whether `schema` is a valid schema name (see [valid_schema_ident]).
pub fn is_valid_schema_ident(schema: &str) -> (r: bool)
    ensures
        r == valid_schema_ident(schema@),
{
    let n = schema.unicode_len();
    if n == 0 {
        return false;
    }
    let mut i: usize = 0;
    while i < n
        invariant
            n == schema@.len(),
            i <= n,
            forall|j: int| 0 <= j < i ==> is_ident_char(#[trigger] schema@[j]),
        decreases n - i,
    {
        let c = schema.get_char(i);
        if !(('a' <= c && c <= 'z') || ('A' <= c && c <= 'Z') || ('0' <= c && c <= '9') || c == '_') {
            return false;
        }
        i = i + 1;
    }
    true
}

/// A repository configured with an invalid schema name refuses to set up its tables, with
/// the driver error `invalid schema: <name>`.
pub fn check_schema(schema: &str) -> (r: Result<(), KernelError>)
    ensures
        valid_schema_ident(schema@) ==> r is Ok,
        !valid_schema_ident(schema@) ==> (r matches Err(KernelError::Driver(m)) && m@ == "invalid schema: "@ + schema@),
{
    if is_valid_schema_ident(schema) {
        Ok(())
    } else {
        Err(KernelError::Driver(concat("invalid schema: ", schema)))
    }
}

} // verus!
