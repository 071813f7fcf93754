//! Queries on file-system paths, answered by `std::path` and `pathdiff`.
use vstd::prelude::*;
use std::path::Path;
use crate::text::opt_view;
use crate::local_path::stem_and_extension;

verus! {

/// What `pathdiff::diff_paths(path, base)` yields, as text.
pub uninterp spec fn spec_diff_paths(path: Seq<char>, base: Seq<char>) -> Option<Seq<char>>;

/// What `Path::parent` yields, as text.
pub uninterp spec fn spec_path_parent(path: Seq<char>) -> Option<Seq<char>>;

/// What `Path::file_name` yields, as text.
pub uninterp spec fn spec_path_file_name(path: Seq<char>) -> Option<Seq<char>>;

/// The extension that `Path::extension` documents for a path whose file
/// name is `name`: nothing without a file name, nothing when the name has no
/// `.` after its first character, else what follows the last `.`.
pub open spec fn extension_of_file_name(name: Option<Seq<char>>) -> Option<Seq<char>> {
    match name {
        Some(n) => stem_and_extension(n).1,
        None => None,
    }
}

/// Calls `pathdiff::diff_paths`: the relative path that leads from the
/// directory `base` to `path`, component by component. The result is only
/// named here; its text is the path's components joined with `/`.
#[verifier::external_body]
pub(crate) fn relative_path(path: &str, base: &str) -> (r: Option<String>)
    ensures
        opt_view(r) == spec_diff_paths(path@, base@),
{
    pathdiff::diff_paths(path, base).map(|p| p.to_string_lossy().into_owned())
}

/// Calls `std::path::Path::parent`; the result is only named.
#[verifier::external_body]
pub(crate) fn path_parent(path: &str) -> (r: Option<String>)
    ensures
        opt_view(r) == spec_path_parent(path@),
{
    Path::new(path).parent().map(|p| p.to_string_lossy().into_owned())
}

/// Calls `std::path::Path::file_name`; the result is only named.
#[verifier::external_body]
pub(crate) fn path_file_name(path: &str) -> (r: Option<String>)
    ensures
        opt_view(r) == spec_path_file_name(path@),
{
    Path::new(path).file_name().map(|p| p.to_string_lossy().into_owned())
}

/// Calls `std::path::Path::extension`. As its documentation says, the
/// extension is read off the file name (`Path::file_name`): none without a
/// file name or without a `.` past the name's first character, else the
/// text after the last `.`.
#[verifier::external_body]
pub(crate) fn path_extension(path: &str) -> (r: Option<String>)
    ensures
        opt_view(r) == extension_of_file_name(spec_path_file_name(path@)),
{
    Path::new(path).extension().map(|p| p.to_string_lossy().into_owned())
}

} // verus!
