//! The final component of a path, as the standard library reads it.
use vstd::prelude::*;

verus! {

/// The final component of the path `p`, or none (for a path ending in `..`,
/// or one that is only a root or a prefix).
pub uninterp spec fn path_file_name(p: Seq<char>) -> Option<Seq<char>>;

/// Relies on `std::path::Path::file_name` (a component of a `&str` path is
/// valid UTF-8, so `to_str` always succeeds); the result depends on the
/// text of the path alone, and a final component is never empty.
#[verifier::external_body]
pub(crate) fn file_name_of(p: &str) -> (r: Option<String>)
    ensures
        match r {
            Some(n) => path_file_name(p@) == Some(n@) && n@.len() > 0,
            None => path_file_name(p@) is None,
        },
{
    std::path::Path::new(p).file_name().and_then(|n| n.to_str()).map(|n| n.to_string())
}

} // verus!
