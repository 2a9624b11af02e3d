//! Plugins may be "ghosted" by appending `.ghost` to their filenames.
use vstd::prelude::*;

use crate::enums::Error;
use crate::paths::{
    extension, file_name, file_stem, std_path_extension, std_path_file_name, std_path_file_stem,
    std_path_with_file_name, with_file_name,
};
use crate::text::{owned, str_eq};

verus! {

/// The file extension that ghosted plugins carry.
pub const GHOST_FILE_EXTENSION: &'static str = ".ghost";

/// `.ghost`, character by character.
pub open spec fn ghost_suffix() -> Seq<char> {
    seq!['.', 'g', 'h', 'o', 's', 't']
}

/// `ghost`, character by character.
pub open spec fn ghost_extension_name() -> Seq<char> {
    seq!['g', 'h', 'o', 's', 't']
}

/// The path's extension is `ghost`.
pub open spec fn spec_has_ghost_extension(path: Seq<char>) -> bool {
    std_path_extension(path) == Some(ghost_extension_name())
}

/// The path with `.ghost` appended to its file name, if it does not already
/// have that extension.
pub open spec fn spec_as_ghosted_path(path: Seq<char>) -> Result<Seq<char>, ()> {
    if spec_has_ghost_extension(path) {
        Ok(path)
    } else {
        match std_path_file_name(path) {
            None => Err(()),
            Some(f) => Ok(std_path_with_file_name(path, f + ghost_suffix())),
        }
    }
}

/// The path with its `.ghost` extension removed, if it has one.
pub open spec fn spec_as_unghosted_path(path: Seq<char>) -> Result<Seq<char>, ()> {
    if !spec_has_ghost_extension(path) {
        Ok(path)
    } else {
        match std_path_file_stem(path) {
            None => Err(()),
            Some(f) => Ok(std_path_with_file_name(path, f)),
        }
    }
}

/// The other name under which the plugin at `path` may be found: the
/// unghosted path of a ghosted path, the ghosted path otherwise.
pub open spec fn spec_alternative_path(path: Seq<char>) -> Result<Seq<char>, ()> {
    if spec_has_ghost_extension(path) {
        spec_as_unghosted_path(path)
    } else {
        spec_as_ghosted_path(path)
    }
}

/// Whether the file or directory at the path exists (`Path::exists`).
///
/// The result depends on what is on disk: nothing is claimed of it.
#[verifier::external_body]
pub(crate) fn path_exists(path: &str) -> (res: bool) {
    std::path::Path::new(path).exists()
}

pub fn has_ghost_extension(path: &str) -> (res: bool)
    ensures
        res == spec_has_ghost_extension(path@),
{
    proof {
        reveal_strlit("ghost");
        assert("ghost"@ =~= ghost_extension_name());
    }
    match extension(path) {
        None => false,
        Some(x) => {
            let r = str_eq(x.as_str(), "ghost");
            r
        },
    }
}

pub fn as_ghosted_path(path: &str) -> (res: Result<String, Error>)
    ensures
        match res {
            Ok(p) => spec_as_ghosted_path(path@) == Ok::<Seq<char>, ()>(p@),
            Err(e) => spec_as_ghosted_path(path@) is Err && (e matches Error::NoFilename(p)
                && p@ == path@),
        },
{
    proof {
        reveal_strlit(".ghost");
        assert(".ghost"@ =~= ghost_suffix());
    }
    if has_ghost_extension(path) {
        Ok(owned(path))
    } else {
        match file_name(path) {
            None => Err(Error::NoFilename(owned(path))),
            Some(f) => {
                let mut filename = f;
                filename.append(GHOST_FILE_EXTENSION);
                assert(filename@ == f@ + ghost_suffix());
                Ok(with_file_name(path, filename.as_str()))
            },
        }
    }
}

pub fn as_unghosted_path(path: &str) -> (res: Result<String, Error>)
    ensures
        match res {
            Ok(p) => spec_as_unghosted_path(path@) == Ok::<Seq<char>, ()>(p@),
            Err(e) => spec_as_unghosted_path(path@) is Err && (e matches Error::NoFilename(p)
                && p@ == path@),
        },
{
    if !has_ghost_extension(path) {
        Ok(owned(path))
    } else {
        match file_stem(path) {
            None => Err(Error::NoFilename(owned(path))),
            Some(f) => Ok(with_file_name(path, f.as_str())),
        }
    }
}

/// The path at which the plugin named by `path` exists: the path itself, or
/// else its ghosted or unghosted alternative.
///
/// Which of them exists is read from disk, so the contract says what holds
/// of every outcome: the result is the path or its alternative, and an
/// error is `InvalidPath` for the path or `NoFilename` where it has no
/// alternative.
pub fn resolve_path(path: &str) -> (res: Result<String, Error>)
    ensures
        match res {
            Ok(p) => p@ == path@ || spec_alternative_path(path@) == Ok::<Seq<char>, ()>(p@),
            Err(e) => (e matches Error::InvalidPath(p) && p@ == path@ && spec_alternative_path(
                path@,
            ) is Ok) || (e matches Error::NoFilename(p) && p@ == path@
                && spec_alternative_path(path@) is Err),
        },
{
    if path_exists(path) {
        return Ok(owned(path));
    }
    let alt = if has_ghost_extension(path) {
        as_unghosted_path(path)?
    } else {
        as_ghosted_path(path)?
    };
    if path_exists(alt.as_str()) {
        Ok(alt)
    } else {
        Err(Error::InvalidPath(owned(path)))
    }
}

} // verus!
