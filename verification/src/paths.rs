//! Filesystem paths as text.
use vstd::prelude::*;

verus! {

/// `base` joined with `part` as `Path::join` does (a separator between them, and an
/// absolute `part` replacing `base`).
pub uninterp spec fn joined_path(base: Seq<char>, part: Seq<char>) -> Seq<char>;

/// `Path::new(base).join(part)`, rendered as text; the result is named [joined_path].
#[verifier::external_body]
pub(crate) fn path_join(base: &str, part: &str) -> (r: String)
    ensures
        r@ == joined_path(base@, part@),
{
    std::path::Path::new(base).join(part).to_string_lossy().into_owned()
}

} // verus!
