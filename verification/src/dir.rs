//! Relative paths between a report file and the directories it links to.
//!
//! All of it is lexical: nothing here looks at the file system.

use crate::error::CompareError;
use crate::error::CompareErrorView;
use std::path::Path;
use vstd::prelude::*;

verus! {

/// An optional string as an optional sequence of characters.
pub open spec fn opt_text(text: Option<String>) -> Option<Seq<char>> {
    match text {
        Some(t) => Some(t@),
        None => None,
    }
}

/// The final component of a path, as `std::path::Path::file_name` gives it.
pub uninterp spec fn file_name_of(path: Seq<char>) -> Option<Seq<char>>;

/// A path without its final component, as `std::path::Path::parent` gives
/// it.
pub uninterp spec fn parent_of(path: Seq<char>) -> Option<Seq<char>>;

/// The relative path that leads from the directory `base` to `path`, as
/// `pathdiff::diff_paths` gives it.
pub uninterp spec fn relative_from(path: Seq<char>, base: Seq<char>) -> Option<Seq<char>>;

/// Calls `std::path::Path::file_name`. Not proved: the result is the final
/// component of `path`, which the library knows as `file_name_of`.
#[verifier::external_body]
fn path_file_name(path: &str) -> (name: Option<String>)
    ensures
        opt_text(name) == file_name_of(path@),
{
    Path::new(path).file_name().map(|name| name.to_string_lossy().into_owned())
}

/// Calls `std::path::Path::parent`. Not proved: the result is `path`
/// without its final component, which the library knows as `parent_of`.
#[verifier::external_body]
fn path_parent(path: &str) -> (parent: Option<String>)
    ensures
        opt_text(parent) == parent_of(path@),
{
    Path::new(path).parent().map(|parent| parent.to_string_lossy().into_owned())
}

/// Calls `pathdiff::diff_paths`. Not proved: the result is the relative path
/// from `base` to `path`, which the library knows as `relative_from`; it is
/// `None` where the crate finds no such path.
#[verifier::external_body]
fn diff_paths(path: &str, base: &str) -> (relative: Option<String>)
    ensures
        opt_text(relative) == relative_from(path@, base@),
{
    pathdiff::diff_paths(Path::new(path), Path::new(base)).map(
        |relative| relative.to_string_lossy().into_owned(),
    )
}

/// The directory of `path`, given its final component and its parent: the
/// parent where the path names a file (the empty path where it has none),
/// the path itself where it names none.
pub open spec fn dirname_from(
    path: Seq<char>,
    file_name: Option<Seq<char>>,
    parent: Option<Seq<char>>,
) -> Seq<char> {
    if file_name is Some {
        match parent {
            Some(dir) => dir,
            None => Seq::empty(),
        }
    } else {
        path
    }
}

/// The directory of `path`.
pub open spec fn spec_dirname(path: Seq<char>) -> Seq<char> {
    dirname_from(path, file_name_of(path), parent_of(path))
}

/// The directory of `path`, from its final component and its parent.
pub fn dirname_of(path: &str, file_name: Option<String>, parent: Option<String>) -> (dir: String)
    ensures
        dir@ == dirname_from(path@, opt_text(file_name), opt_text(parent)),
{
    if file_name.is_some() {
        match parent {
            Some(dir) => dir,
            None => String::new(),
        }
    } else {
        path.to_owned()
    }
}

/// The directory that a path stands for: the directory that holds it where
/// it names a file, the path itself where it does not.
pub fn dirname(path: &str) -> (dir: String)
    ensures
        dir@ == spec_dirname(path@),
{
    let file_name = path_file_name(path);
    let parent = path_parent(path);
    dirname_of(path, file_name, parent)
}

/// The relative path from the directory of `base` to `target`, if there is
/// one.
pub open spec fn spec_resolve_dir(base: Seq<char>, target: Seq<char>) -> Option<Seq<char>> {
    relative_from(target, spec_dirname(base))
}

/// What resolving `target` gives, from the relative path that was found: the
/// path, or the error that names `target`.
pub open spec fn resolved_from(target: Seq<char>, relative: Option<Seq<char>>) -> Result<
    Seq<char>,
    CompareErrorView,
> {
    match relative {
        Some(path) => Ok(path),
        None => Err(CompareErrorView::PathResolution(target)),
    }
}

/// A result with its texts as sequences of characters.
pub open spec fn result_text(result: Result<String, CompareError>) -> Result<
    Seq<char>,
    CompareErrorView,
> {
    match result {
        Ok(text) => Ok(text@),
        Err(error) => Err(error@),
    }
}

/// Turns the relative path that was found for `target` into the result of
/// resolving it: a missing path is a `PathResolution` error.
pub fn resolved(target: &str, relative: Option<String>) -> (result: Result<String, CompareError>)
    ensures
        result_text(result) == resolved_from(target@, opt_text(relative)),
{
    match relative {
        Some(path) => Ok(path),
        None => Err(CompareError::PathResolution(target.to_owned())),
    }
}

/// The relative path from the directory of `base` to the directory
/// `target`. Fails with `PathResolution` exactly if no relative path leads
/// there.
pub fn resolve_dir(base: &str, target: &str) -> (result: Result<String, CompareError>)
    ensures
        result_text(result) == resolved_from(target@, spec_resolve_dir(base@, target@)),
{
    let base_dir = dirname(base);
    let relative = diff_paths(target, base_dir.as_str());
    resolved(target, relative)
}

} // verus!
