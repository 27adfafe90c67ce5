//! Filesystem path arithmetic on path strings, done by `std::path`.

use vstd::prelude::*;
use crate::text::opt_view;

verus! {

/// The final component of a path, as `Path::file_name` gives it: `None`
/// when the path ends in `..`, is a root, or is empty.
pub uninterp spec fn file_name_of(path: Seq<char>) -> Option<Seq<char>>;

/// What remains of `path` after the leading components equal to `base`, as
/// `Path::strip_prefix` gives it; `None` when `base` is not a prefix of
/// `path` component by component.
pub uninterp spec fn relative_path(path: Seq<char>, base: Seq<char>) -> Option<Seq<char>>;

/// Calls `Path::file_name` on `path`. The result is named `file_name_of`;
/// component splitting (separators, `.` components) is not restated.
#[verifier::external_body]
pub fn file_name(path: &str) -> (r: Option<String>)
    ensures
        opt_view(r) == file_name_of(path@),
{
    match std::path::Path::new(path).file_name() {
        Some(n) => Some(n.to_string_lossy().into_owned()),
        None => None,
    }
}

/// Calls `Path::strip_prefix(path, base)`. The result is named
/// `relative_path`; the component comparison it performs is not restated.
#[verifier::external_body]
pub fn strip_path_prefix(path: &str, base: &str) -> (r: Option<String>)
    ensures
        opt_view(r) == relative_path(path@, base@),
{
    match std::path::Path::new(path).strip_prefix(base) {
        Ok(rest) => Some(rest.to_string_lossy().into_owned()),
        Err(_) => None,
    }
}

/// `part` adjoined to `base`, as `Path::join` gives it (a `part` that is
/// absolute replaces `base`).
pub uninterp spec fn joined_path(base: Seq<char>, part: Seq<char>) -> Seq<char>;

/// Calls `Path::join(base, part)`. The result is named `joined_path`; the
/// separator handling it performs is not restated.
#[verifier::external_body]
pub fn join_path(base: &str, part: &str) -> (r: String)
    ensures
        r@ == joined_path(base@, part@),
{
    std::path::Path::new(base).join(part).to_string_lossy().into_owned()
}

} // verus!
