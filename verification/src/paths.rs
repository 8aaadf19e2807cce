//! Path operations of `std::path`, on paths held as text. Each result is named by a
//! specification function: what the standard library computes for the given text.

use vstd::prelude::*;
use crate::config::opt_text;

verus! {

/// What `Path::extension` gives for a path: the part of the file name after its
/// final `.`.
pub uninterp spec fn std_path_extension(path: Seq<char>) -> Option<Seq<char>>;

/// What `Path::file_name` gives for a path: its last normal component.
pub uninterp spec fn std_path_file_name(path: Seq<char>) -> Option<Seq<char>>;

/// What `Path::parent` gives for a path.
pub uninterp spec fn std_path_parent(path: Seq<char>) -> Option<Seq<char>>;

/// What `Path::ends_with("..")` gives for a path: whether its last component is `..`.
pub uninterp spec fn std_path_ends_with_parent_dir(path: Seq<char>) -> bool;

/// What `Path::join` gives for a base path and a relative name.
pub uninterp spec fn std_path_join(base: Seq<char>, name: Seq<char>) -> Seq<char>;

/// Calls `Path::extension` (the parts of a path given as text are text, so the
/// conversion back to a `String` loses nothing).
/// Trusted: the result is `std_path_extension(path)`.
#[verifier::external_body]
pub fn path_extension(path: &str) -> (ext: Option<String>)
    ensures
        opt_text(ext) == std_path_extension(path@),
{
    match std::path::Path::new(path).extension() {
        Some(e) => Some(e.to_string_lossy().into_owned()),
        None => None,
    }
}

/// Calls `Path::file_name`.
/// Trusted: the result is `std_path_file_name(path)`.
#[verifier::external_body]
pub fn path_file_name(path: &str) -> (name: Option<String>)
    ensures
        opt_text(name) == std_path_file_name(path@),
{
    match std::path::Path::new(path).file_name() {
        Some(n) => Some(n.to_string_lossy().into_owned()),
        None => None,
    }
}

/// Calls `Path::parent`.
/// Trusted: the result is `std_path_parent(path)`.
#[verifier::external_body]
pub fn path_parent(path: &str) -> (parent: Option<String>)
    ensures
        opt_text(parent) == std_path_parent(path@),
{
    match std::path::Path::new(path).parent() {
        Some(p) => Some(p.to_string_lossy().into_owned()),
        None => None,
    }
}

/// Calls `Path::ends_with("..")`.
/// Trusted: the result is `std_path_ends_with_parent_dir(path)`.
#[verifier::external_body]
pub fn path_ends_with_parent_dir(path: &str) -> (b: bool)
    ensures
        b == std_path_ends_with_parent_dir(path@),
{
    std::path::Path::new(path).ends_with("..")
}

/// Calls `Path::join`.
/// Trusted: the result is `std_path_join(base, name)`, and joining `..` gives a
/// path whose last component is `..` (`..` is a relative component, so it is
/// appended as the last one). How the separator is placed, and when a name
/// replaces the base, depends on the target's path rules and is not stated.
#[verifier::external_body]
pub fn path_join(base: &str, name: &str) -> (joined: String)
    ensures
        joined@ == std_path_join(base@, name@),
        name@ == ".."@ ==> std_path_ends_with_parent_dir(joined@),
{
    std::path::Path::new(base).join(name).to_string_lossy().into_owned()
}

} // verus!
