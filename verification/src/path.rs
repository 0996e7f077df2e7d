//! Paths as text, joined the way the standard library joins them.

use vstd::prelude::*;

verus! {

/// The path that `std::path::Path::join` makes of `base` and `path`.
pub uninterp spec fn path_join(base: Seq<char>, path: Seq<char>) -> Seq<char>;

/// What `std::path::Path::strip_prefix` leaves of `path` once the root `/`
/// is taken off its front, or `None` where `path` does not start at the
/// root.
pub uninterp spec fn path_below_root(path: Seq<char>) -> Option<Seq<char>>;

/// Calls `std::path::Path::join`. Trusted: the joined path is a function of
/// the two texts alone.
#[verifier::external_body]
pub(crate) fn join(base: &str, path: &str) -> (joined: String)
    ensures
        joined@ == path_join(base@, path@),
{
    std::path::Path::new(base).join(path).to_string_lossy().into_owned()
}

/// Calls `std::path::Path::strip_prefix` with the prefix `/`. Trusted: the
/// outcome is a function of the text alone.
#[verifier::external_body]
pub(crate) fn below_root(path: &str) -> (rest: Option<String>)
    ensures
        match rest {
            Some(r) => path_below_root(path@) == Some(r@),
            None => path_below_root(path@) is None,
        },
{
    match std::path::Path::new(path).strip_prefix("/") {
        Ok(rest) => Some(rest.to_string_lossy().into_owned()),
        Err(_) => None,
    }
}

/// `path` without the root at its front, or `path` itself where it does not
/// start at the root.
pub open spec fn relative(path: Seq<char>) -> Seq<char> {
    match path_below_root(path) {
        Some(rest) => rest,
        None => path,
    }
}

/// `path` placed under `base`: the root at the front of `path`, if any, is
/// taken off, and what is left is joined to `base`.
pub open spec fn joined_below(base: Seq<char>, path: Seq<char>) -> Seq<char> {
    path_join(base, relative(path))
}

/// Places `path` under `base`, whether or not `path` starts at the root.
pub fn join_strip(base: &str, path: &str) -> (joined: String)
    ensures
        joined@ == joined_below(base@, path@),
{
    match below_root(path) {
        Some(rest) => join(base, rest.as_str()),
        None => join(base, path),
    }
}

/// What `std::path::Path::extension` gives for `path`: the extension of its
/// file name, or `None` where the file name has none.
pub uninterp spec fn path_extension(path: Seq<char>) -> Option<Seq<char>>;

/// Calls `std::path::Path::extension`. Trusted: the extension is a function
/// of the text alone.
#[verifier::external_body]
pub(crate) fn extension(path: &str) -> (ext: Option<String>)
    ensures
        match ext {
            Some(e) => path_extension(path@) == Some(e@),
            None => path_extension(path@) is None,
        },
{
    match std::path::Path::new(path).extension() {
        Some(e) => Some(e.to_string_lossy().into_owned()),
        None => None,
    }
}

} // verus!
