//! The few path queries the dispatcher needs, answered by `std::path`.
use vstd::prelude::*;

verus! {

/// The stem that `std::path::Path::file_stem` finds in a path's text.
pub uninterp spec fn file_stem_of(p: Seq<char>) -> Option<Seq<char>>;

/// The parent that `std::path::Path::parent` finds in a path's text.
pub uninterp spec fn parent_of(p: Seq<char>) -> Option<Seq<char>>;

/// The final component that `std::path::Path::file_name` finds in a path's text.
pub uninterp spec fn file_name_of(p: Seq<char>) -> Option<Seq<char>>;

/// The text of an optional string, as a sequence of characters.
pub open spec fn opt_text(s: Option<String>) -> Option<Seq<char>> {
    match s {
        Some(t) => Some(t@),
        None => None,
    }
}

/// Relies on `std::path::Path::file_stem`: the file name without its final
/// extension, or nothing where the path has no file name. On a path made
/// from a `&str` every part is valid UTF-8, so the text is kept whole.
#[verifier::external_body]
pub(crate) fn path_file_stem(p: &str) -> (r: Option<String>)
    ensures
        opt_text(r) == file_stem_of(p@),
{
    std::path::Path::new(p).file_stem().map(|s| s.to_string_lossy().into_owned())
}

/// Relies on `std::path::Path::parent`: the path without its final
/// component, or nothing where the path ends in a root or a prefix, or is
/// empty.
#[verifier::external_body]
pub(crate) fn path_parent(p: &str) -> (r: Option<String>)
    ensures
        opt_text(r) == parent_of(p@),
{
    std::path::Path::new(p).parent().map(|q| q.to_string_lossy().into_owned())
}

/// Relies on `std::path::Path::file_name`: the final component of a path,
/// or nothing where the path ends in `..`, is a root, or is empty.
#[verifier::external_body]
pub(crate) fn path_file_name(p: &str) -> (r: Option<String>)
    ensures
        opt_text(r) == file_name_of(p@),
{
    std::path::Path::new(p).file_name().map(|s| s.to_string_lossy().into_owned())
}

} // verus!
