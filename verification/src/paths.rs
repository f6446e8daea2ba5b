//! File paths, held as strings. The path arithmetic itself is std's
//! `std::path::Path`; these items say what the library takes from it. Its
//! answers follow the path syntax of the platform the crate is built for,
//! which is fixed for one build.

use vstd::prelude::*;

verus! {

/// The view of an optional string.
pub open spec fn opt_string_view(s: Option<String>) -> Option<Seq<char>> {
    match s {
        Some(x) => Some(x@),
        None => None,
    }
}

/// What `Path::strip_prefix` gives for `path` and `base`, as text: the part
/// of `path` after the whole components of `base`, or `None` when `base` is
/// not a component-wise prefix of `path`; components as the build
/// platform's path syntax splits them.
pub uninterp spec fn path_strip_prefix(path: Seq<char>, base: Seq<char>) -> Option<Seq<char>>;

/// What `Path::file_name` gives for `path`, as text, by the build
/// platform's path syntax.
pub uninterp spec fn path_file_name(path: Seq<char>) -> Option<Seq<char>>;

/// What `Path::join` gives for `base` and `rel`, as text, by the build
/// platform's path syntax.
pub uninterp spec fn path_join(base: Seq<char>, rel: Seq<char>) -> Seq<char>;

/// `std::path::Path::strip_prefix`, with the result as a string. Its
/// contract claims only that the result depends on the two texts alone;
/// what it is on given texts is left to std.
#[verifier::external_body]
pub(crate) fn strip_prefix(path: &str, base: &str) -> (r: Option<String>)
    ensures
        opt_string_view(r) == path_strip_prefix(path@, base@),
{
    std::path::Path::new(path).strip_prefix(base).ok().map(|rel| rel.to_string_lossy().into_owned())
}

/// `std::path::Path::file_name`, with the result as a string. Its contract
/// claims only that the result depends on the text alone.
#[verifier::external_body]
pub(crate) fn file_name(path: &str) -> (r: Option<String>)
    ensures
        opt_string_view(r) == path_file_name(path@),
{
    std::path::Path::new(path).file_name().and_then(|n| n.to_str()).map(|n| n.to_string())
}

/// `std::path::Path::join`, with the result as a string. Its contract claims
/// only that the result depends on the two texts alone.
#[verifier::external_body]
pub(crate) fn join(base: &str, rel: &str) -> (r: String)
    ensures
        r@ == path_join(base@, rel@),
{
    std::path::Path::new(base).join(rel).to_string_lossy().into_owned()
}

} // verus!
