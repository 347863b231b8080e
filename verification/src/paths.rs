//! Path arithmetic on text: extensions, parents and logical joins.
//!
//! Paths are Unix paths: `/` separates their components, and a path that
//! starts with it is absolute. The computations below are done by
//! `relative_path` and by `std::path`; their results are named here and
//! taken on trust.

use relative_path::RelativePath;
use std::path::Path;
use vstd::prelude::*;

verus! {

/// What `RelativePath::extension` yields for `path`.
pub uninterp spec fn path_extension(path: Seq<char>) -> Option<Seq<char>>;

/// What `RelativePath::to_logical_path` yields for `relative` on top of `root`.
pub uninterp spec fn logical_join(root: Seq<char>, relative: Seq<char>) -> Seq<char>;

/// What `Path::parent` yields for `path`.
pub uninterp spec fn path_parent(path: Seq<char>) -> Option<Seq<char>>;

/// Whether `path` is absolute: it starts at the root.
pub open spec fn path_is_absolute(path: Seq<char>) -> bool {
    path.len() > 0 && path[0] == '/'
}

/// What `Path::extension` yields for `path`.
pub uninterp spec fn file_extension(path: Seq<char>) -> Option<Seq<char>>;

/// The characters of an optional text.
pub open spec fn opt_text(o: Option<String>) -> Option<Seq<char>> {
    match o {
        Some(s) => Some(s@),
        None => None,
    }
}

/// Calls `relative_path::RelativePath::extension` on `path`. The contract only
/// gives the answer its name: the same text always has the same extension.
#[verifier::external_body]
pub(crate) fn extension_of(path: &str) -> (r: Option<String>)
    ensures
        opt_text(r) == path_extension(path@),
{
    RelativePath::new(path).extension().map(|e| e.to_string())
}

/// Calls `relative_path::RelativePath::to_logical_path` with `root` as the
/// base. Both inputs are text, so the joined path is text too; the contract
/// only gives it its name.
#[verifier::external_body]
pub(crate) fn join_logical(root: &str, relative: &str) -> (r: String)
    ensures
        r@ == logical_join(root@, relative@),
{
    RelativePath::new(relative).to_logical_path(root).to_string_lossy().into_owned()
}

/// Calls `std::path::Path::parent` on `path`. The contract only gives the
/// answer its name.
#[verifier::external_body]
pub(crate) fn parent_of(path: &str) -> (r: Option<String>)
    ensures
        opt_text(r) == path_parent(path@),
{
    Path::new(path).parent().map(|p| p.to_string_lossy().into_owned())
}

/// Decides whether `path` is absolute.
pub fn is_absolute(path: &str) -> (r: bool)
    ensures
        r == path_is_absolute(path@),
{
    !path.is_empty() && path.get_char(0) == '/'
}

/// Calls `std::path::Path::extension` on `path`. The contract only gives the
/// answer its name.
#[verifier::external_body]
pub(crate) fn file_extension_of(path: &str) -> (r: Option<String>)
    ensures
        opt_text(r) == file_extension(path@),
{
    Path::new(path).extension().map(|e| e.to_string_lossy().into_owned())
}

/// A specifier is path-like when it starts with a dot or carries a file
/// extension; every other specifier is a bare name.
pub open spec fn is_path_like(specifier: Seq<char>) -> bool {
    (specifier.len() > 0 && specifier[0] == '.') || path_extension(specifier) is Some
}

/// The directory a path-like specifier is resolved against: the parent of
/// `base` when that parent is absolute, the working directory otherwise.
pub open spec fn resolution_root(base: Seq<char>, cwd: Seq<char>) -> Seq<char> {
    match path_parent(base) {
        Some(parent) => if path_is_absolute(parent) {
            parent
        } else {
            cwd
        },
        None => cwd,
    }
}

/// The path a path-like specifier stands for.
pub open spec fn candidate_path(base: Seq<char>, cwd: Seq<char>, specifier: Seq<char>) -> Seq<
    char,
> {
    logical_join(resolution_root(base, cwd), specifier)
}

/// Whether `specifier` begins with a dot.
pub fn starts_with_dot(specifier: &str) -> (r: bool)
    ensures
        r == (specifier@.len() > 0 && specifier@[0] == '.'),
{
    !specifier.is_empty() && specifier.get_char(0) == '.'
}

/// Decides whether `specifier` names a file rather than a registered module.
pub fn path_like(specifier: &str) -> (r: bool)
    ensures
        r == is_path_like(specifier@),
{
    if starts_with_dot(specifier) {
        true
    } else {
        extension_of(specifier).is_some()
    }
}

/// Computes the path that `specifier` stands for when imported from `base`
/// by a registry whose working directory is `cwd`.
pub fn candidate(base: &str, cwd: &str, specifier: &str) -> (r: String)
    ensures
        r@ == candidate_path(base@, cwd@, specifier@),
{
    match parent_of(base) {
        Some(parent) => {
            if is_absolute(parent.as_str()) {
                join_logical(parent.as_str(), specifier)
            } else {
                join_logical(cwd, specifier)
            }
        },
        None => join_logical(cwd, specifier),
    }
}

} // verus!
