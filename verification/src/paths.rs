//! Paths are held as strings; what std's `Path` makes of them is named here.
use vstd::prelude::*;

use crate::text::opt_view;

verus! {

/// What `Path::file_name` returns for a path.
pub uninterp spec fn std_path_file_name(path: Seq<char>) -> Option<Seq<char>>;

/// What `Path::extension` returns for a path.
pub uninterp spec fn std_path_extension(path: Seq<char>) -> Option<Seq<char>>;

/// What `Path::file_stem` returns for a path.
pub uninterp spec fn std_path_file_stem(path: Seq<char>) -> Option<Seq<char>>;

/// What `Path::with_file_name` returns for a path and a file name.
pub uninterp spec fn std_path_with_file_name(path: Seq<char>, file_name: Seq<char>) -> Seq<char>;

/// What `Path::join` returns for a base path and a path to adjoin to it.
pub uninterp spec fn std_path_join(base: Seq<char>, path: Seq<char>) -> Seq<char>;

/// What `Path::is_relative` returns for a path.
pub uninterp spec fn std_path_is_relative(path: Seq<char>) -> bool;

/// What `Path::parent` returns for a path.
pub uninterp spec fn std_path_parent(path: Seq<char>) -> Option<Seq<char>>;

/// `Path::file_name` of the path: its final component, unless the path ends
/// in `..` or has no components. The result is named by
/// `std_path_file_name`; nothing more is claimed.
#[verifier::external_body]
pub(crate) fn file_name(path: &str) -> (res: Option<String>)
    ensures
        opt_view(res) == std_path_file_name(path@),
{
    std::path::Path::new(path).file_name().map(|n| n.to_string_lossy().into_owned())
}

/// `Path::extension` of the path, named by `std_path_extension`.
#[verifier::external_body]
pub(crate) fn extension(path: &str) -> (res: Option<String>)
    ensures
        opt_view(res) == std_path_extension(path@),
{
    std::path::Path::new(path).extension().map(|n| n.to_string_lossy().into_owned())
}

/// `Path::file_stem` of the path, named by `std_path_file_stem`.
#[verifier::external_body]
pub(crate) fn file_stem(path: &str) -> (res: Option<String>)
    ensures
        opt_view(res) == std_path_file_stem(path@),
{
    std::path::Path::new(path).file_stem().map(|n| n.to_string_lossy().into_owned())
}

/// `Path::with_file_name`, named by `std_path_with_file_name`.
#[verifier::external_body]
pub(crate) fn with_file_name(path: &str, file_name: &str) -> (res: String)
    ensures
        res@ == std_path_with_file_name(path@, file_name@),
{
    std::path::Path::new(path).with_file_name(file_name).to_string_lossy().into_owned()
}

/// `Path::join`, named by `std_path_join`.
#[verifier::external_body]
pub(crate) fn join(base: &str, path: &str) -> (res: String)
    ensures
        res@ == std_path_join(base@, path@),
{
    std::path::Path::new(base).join(path).to_string_lossy().into_owned()
}

/// `Path::is_relative`, named by `std_path_is_relative`.
#[verifier::external_body]
pub(crate) fn is_relative(path: &str) -> (res: bool)
    ensures
        res == std_path_is_relative(path@),
{
    std::path::Path::new(path).is_relative()
}

/// `Path::parent`, named by `std_path_parent`.
#[verifier::external_body]
pub(crate) fn parent(path: &str) -> (res: Option<String>)
    ensures
        opt_view(res) == std_path_parent(path@),
{
    std::path::Path::new(path).parent().map(|n| n.to_string_lossy().into_owned())
}

/// What `==` on two `Path`s gives: paths compare by their components.
pub uninterp spec fn std_path_eq(a: Seq<char>, b: Seq<char>) -> bool;

/// Compares two paths with `Path`'s `==`, named by `std_path_eq`; equal
/// strings have equal components.
#[verifier::external_body]
pub(crate) fn path_eq(a: &str, b: &str) -> (res: bool)
    ensures
        res == std_path_eq(a@, b@),
        a@ == b@ ==> res,
{
    std::path::Path::new(a) == std::path::Path::new(b)
}

/// What `Path::with_extension` returns for a path and an extension.
pub uninterp spec fn std_path_with_extension(path: Seq<char>, extension: Seq<char>) -> Seq<char>;

/// `Path::with_extension`, named by `std_path_with_extension`. std's
/// `with_extension` panics where the extension holds a path separator, so
/// the extension may hold neither `/` nor a backslash.
#[verifier::external_body]
pub(crate) fn with_extension(path: &str, extension: &str) -> (res: String)
    requires
        !extension@.contains('/'),
        !extension@.contains('\\'),
    ensures
        res@ == std_path_with_extension(path@, extension@),
{
    std::path::Path::new(path).with_extension(extension).to_string_lossy().into_owned()
}

} // verus!
