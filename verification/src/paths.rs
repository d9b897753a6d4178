//! File paths as the stores need them: the text of a path and the name of
//! the file that it leads to.

use vstd::prelude::*;
use std::path::PathBuf;

verus! {

/// A path of the file system. Opaque here: it is spoken of through
/// `path_text` and `path_file_name`.
#[verifier::external_type_specification]
#[verifier::external_body]
pub struct ExPathBuf(PathBuf);

/// The text of a path, or `None` where the path is not valid Unicode.
pub uninterp spec fn path_text(path: PathBuf) -> Option<Seq<char>>;

/// The last component of a path as `Path::file_name` gives it: the name of
/// the file or directory that the path leads to, or `None` where the path
/// ends in `..` or has no component to name one by.
pub uninterp spec fn path_file_name(path: PathBuf) -> Option<PathBuf>;

/// The path that a text spells.
pub uninterp spec fn path_of(text: Seq<char>) -> PathBuf;

/// Reads a path's text with `Path::to_str`.
///
/// Trusted: the result is `path_text` of the path.
#[verifier::external_body]
fn text_of_path(path: &PathBuf) -> (text: Option<String>)
    ensures
        text matches Some(t) ==> path_text(*path) == Some(t@),
        text is None ==> path_text(*path) is None,
{
    path.to_str().map(|text| text.to_owned())
}

/// Takes a path's last component with `Path::file_name`.
///
/// Trusted: the result is `path_file_name` of the path.
#[verifier::external_body]
fn last_component(path: &PathBuf) -> (name: Option<PathBuf>)
    ensures
        name == path_file_name(*path),
{
    path.file_name().map(|name| PathBuf::from(name))
}

/// Makes a path of a text with `PathBuf::from`.
///
/// Trusted: the result is `path_of` of the text, and its text is the text
/// that it was made of.
#[verifier::external_body]
pub(crate) fn path_from_text(text: &String) -> (path: PathBuf)
    ensures
        path == path_of(text@),
        path_text(path) == Some(text@),
{
    PathBuf::from(text)
}

/// Whether the path's file name can be had as text: there is none, or it is
/// valid Unicode.
pub open spec fn has_readable_name(path: PathBuf) -> bool {
    path_file_name(path) matches Some(name) ==> path_text(name) is Some
}

/// The name of the file that a path leads to; empty where the path has no
/// last component or that component is not valid Unicode.
pub open spec fn file_name_text(path: PathBuf) -> Seq<char> {
    match path_file_name(path) {
        Some(name) => match path_text(name) {
            Some(text) => text,
            None => Seq::empty(),
        },
        None => Seq::empty(),
    }
}

/// The path as text, where it is valid Unicode.
pub fn try_file_path(path: &PathBuf) -> (text: Option<String>)
    ensures
        text matches Some(t) ==> path_text(*path) == Some(t@),
        text is None ==> path_text(*path) is None,
{
    text_of_path(path)
}

/// The path as text.
pub fn file_path(path: &PathBuf) -> (text: String)
    requires
        path_text(*path) is Some,
    ensures
        Some(text@) == path_text(*path),
{
    match text_of_path(path) {
        Some(text) => text,
        None => String::new(),
    }
}

/// The name of the file that `path` leads to, where it can be had as text.
/// `Some` of the empty text where the path has no last component.
pub fn try_file_name(path: &PathBuf) -> (name: Option<String>)
    ensures
        name is Some <==> has_readable_name(*path),
        name matches Some(n) ==> n@ == file_name_text(*path),
{
    match last_component(path) {
        Some(name) => text_of_path(&name),
        None => Some(String::new()),
    }
}

/// The name of the file that `path` leads to; empty where the path has no
/// last component.
pub fn file_name(path: &PathBuf) -> (name: String)
    requires
        has_readable_name(*path),
    ensures
        name@ == file_name_text(*path),
{
    match try_file_name(path) {
        Some(name) => name,
        None => String::new(),
    }
}

/// The name of the file that the path spelled by `text` leads to.
pub fn file_name_of_text(text: &String) -> (name: String)
    ensures
        name@ == file_name_text(path_of(text@)),
{
    let path = path_from_text(text);
    match try_file_name(&path) {
        Some(name) => name,
        None => String::new(),
    }
}

} // verus!
