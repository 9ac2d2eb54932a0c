//! Paths relative to the workspace.
use std::path::Path;
use vstd::prelude::*;

verus! {

/// What is left of `path` behind the components of `base`, as `Path::strip_prefix` gives it;
/// `None` where `base` is not a prefix of `path`. The components are those of the path syntax of
/// the platform that the library is built for.
pub uninterp spec fn path_below(path: Seq<char>, base: Seq<char>) -> Option<Seq<char>>;

/// `Path::strip_prefix`: the part of `path` below `base`, or `None` where `base` is not a prefix of
/// `path`. Which part that is, is left to [`path_below`]: it is fixed by the two paths, and
/// nothing more is said of it. A part of a path that is UTF-8 is UTF-8 too, so no character is
/// lost on the way back to a string.
#[verifier::external_body]
fn strip_path_prefix(path: &str, base: &str) -> (r: Option<String>)
    ensures
        optional_text(r) == path_below(path@, base@),
{
    match Path::new(path).strip_prefix(base) {
        Ok(rest) => Some(rest.to_string_lossy().into_owned()),
        Err(_) => None,
    }
}

/// The characters of an optional text.
pub open spec fn optional_text(s: Option<String>) -> Option<Seq<char>> {
    match s {
        Some(text) => Some(text@),
        None => None,
    }
}

/// The characters of an optional string slice.
pub open spec fn optional_str(s: Option<&str>) -> Option<Seq<char>> {
    match s {
        Some(text) => Some(text@),
        None => None,
    }
}

/// The path of a file as it is sent, if `below_root` is what is left of its absolute path below
/// the workspace root: that part, or else its own path.
pub open spec fn path_or_below(path: Seq<char>, below_root: Option<Seq<char>>) -> Seq<char> {
    match below_root {
        Some(rest) => rest,
        None => path,
    }
}

/// The path of a file as it is sent: the part of its absolute path below the workspace root
/// where both are known and the file lies below it, else its own path.
pub open spec fn relative_path(
    path: Seq<char>,
    absolute_path: Option<Seq<char>>,
    workspace_root: Option<Seq<char>>,
) -> Seq<char> {
    match (absolute_path, workspace_root) {
        (Some(absolute), Some(root)) => path_or_below(path, path_below(absolute, root)),
        _ => path,
    }
}

/// The part below the workspace root, or else the file's own path.
pub fn below_root_or_path(path: &str, below_root: Option<String>) -> (r: String)
    ensures
        r@ == path_or_below(path@, optional_text(below_root)),
{
    match below_root {
        Some(rest) => rest,
        None => path.to_owned(),
    }
}

/// The path of a file as it is sent.
pub fn relative_cursor_path(
    path: &str,
    absolute_path: Option<&str>,
    workspace_root: Option<&str>,
) -> (r: String)
    ensures
        r@ == relative_path(path@, optional_str(absolute_path), optional_str(workspace_root)),
{
    match (absolute_path, workspace_root) {
        (Some(absolute), Some(root)) => below_root_or_path(path, strip_path_prefix(absolute, root)),
        _ => path.to_owned(),
    }
}

/// A file is sent under what is left of its absolute path below the workspace root; where one of
/// them is not known, or the root is not above the file, under its own path, whole.
pub proof fn law_relative_path(path: Seq<char>, absolute: Seq<char>, root: Seq<char>)
    ensures
        path_below(absolute, root) is Some ==> relative_path(path, Some(absolute), Some(root))
            == path_below(absolute, root)->0,
        path_below(absolute, root) is None ==> relative_path(path, Some(absolute), Some(root))
            == path,
        relative_path(path, None, Some(root)) == path,
        relative_path(path, Some(absolute), None) == path,
        relative_path(path, None, None) == path,
{
}

/// A text that may be missing is viewed as its characters, or as missing.
pub proof fn law_optional_texts(s: Option<String>, r: Option<&str>)
    ensures
        s is Some ==> optional_text(s) == Some(s->0@),
        s is None ==> optional_text(s) is None,
        r is Some ==> optional_str(r) == Some(r->0@),
        r is None ==> optional_str(r) is None,
{
}

} // verus!
