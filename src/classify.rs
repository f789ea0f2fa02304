//! Which paths look like an IPC socket of the editor's command-line hook.

use vstd::prelude::*;

verus! {

/// The final component of a path, where it has one (`Path::file_name`).
pub uninterp spec fn file_name_of(path: Seq<char>) -> Option<Seq<char>>;

pub open spec fn has_prefix(s: Seq<char>, p: Seq<char>) -> bool {
    p.len() <= s.len() && s.subrange(0, p.len() as int) == p
}

pub open spec fn has_suffix(s: Seq<char>, p: Seq<char>) -> bool {
    p.len() <= s.len() && s.subrange(s.len() - p.len(), s.len() as int) == p
}

pub open spec fn endpoint_prefix() -> Seq<char> {
    "vscode-ipc-"@
}

pub open spec fn endpoint_suffix() -> Seq<char> {
    ".sock"@
}

/// A file name that follows the socket naming convention.
pub open spec fn is_endpoint_name(name: Seq<char>) -> bool {
    has_prefix(name, endpoint_prefix()) && has_suffix(name, endpoint_suffix())
}

/// A path whose final component follows the socket naming convention.
pub open spec fn looks_like_endpoint(path: Seq<char>) -> bool {
    match file_name_of(path) {
        Some(name) => is_endpoint_name(name),
        None => false,
    }
}

/// Relies on `Path::file_name`: the final component of the path, if any. The
/// component of a `&str` path is valid Unicode, so `OsStr::to_str` only converts.
#[verifier::external_body]
fn file_name(path: &str) -> (r: Option<String>)
    ensures
        match r {
            Some(name) => file_name_of(path@) == Some(name@),
            None => file_name_of(path@) is None,
        },
{
    std::path::Path::new(path).file_name().and_then(|n| n.to_str()).map(|n| n.to_string())
}

/// Relies on `str::starts_with` with a string pattern: whether `p` begins `s`.
#[verifier::external_body]
fn starts_with(s: &str, p: &str) -> (r: bool)
    ensures
        r == has_prefix(s@, p@),
{
    s.starts_with(p)
}

/// Relies on `str::ends_with` with a string pattern: whether `p` ends `s`.
#[verifier::external_body]
fn ends_with(s: &str, p: &str) -> (r: bool)
    ensures
        r == has_suffix(s@, p@),
{
    s.ends_with(p)
}

/// Whether a file name starts with `vscode-ipc-` and ends with `.sock`
/// (exact and case-sensitive).
pub fn is_endpoint_file_name(name: &str) -> (r: bool)
    ensures
        r == is_endpoint_name(name@),
{
    starts_with(name, "vscode-ipc-") && ends_with(name, ".sock")
}

/// Whether the final component of `path` follows the socket naming convention.
/// A path without a final component (the root, or one ending in `..`) does not.
pub fn is_like_vscode_ipc_socket(path: &str) -> (r: bool)
    ensures
        r == looks_like_endpoint(path@),
{
    match file_name(path) {
        Some(name) => is_endpoint_file_name(name.as_str()),
        None => false,
    }
}

} // verus!
