//! Filesystem paths held as text, with the few path operations the library
//! needs.
//!
//! Joining and the absolute test are written here and proved against their
//! statements (Unix paths). Equality and prefix tests compare paths by
//! components, as `std::path::Path` does; they go through `Path` itself.

use vstd::prelude::*;
use vstd::string::StrSliceExecFns;
use vstd::string::StringExecFns;
use crate::text::{char_len, push_char, push_str};

verus! {

/// `base` joined with `part`, as `PathBuf::join` does on Unix: an absolute
/// `part` replaces `base`; otherwise a `/` goes between them unless `base`
/// is empty or already ends with one.
pub open spec fn joined(base: Seq<char>, part: Seq<char>) -> Seq<char> {
    if part.len() > 0 && part[0] == '/' {
        part
    } else if base.len() == 0 || base.last() == '/' {
        base + part
    } else {
        base + seq!['/'] + part
    }
}

/// A Unix path is absolute when it starts at the root.
pub open spec fn is_absolute(p: Seq<char>) -> bool {
    p.len() > 0 && p[0] == '/'
}

/// Joins `part` onto `base` (see `joined`).
pub fn join_path(base: &str, part: &str) -> (r: String)
    ensures
        r@ == joined(base@, part@),
{
    let np = char_len(part);
    if np > 0 && part.get_char(0) == '/' {
        return String::from_str(part);
    }
    let nb = char_len(base);
    let mut r = String::from_str(base);
    if nb > 0 && base.get_char(nb - 1) != '/' {
        push_char(&mut r, '/');
    }
    push_str(&mut r, part);
    r
}

/// Whether `p` is an absolute path (see `is_absolute`).
pub fn path_is_absolute(p: &str) -> (r: bool)
    ensures
        r == is_absolute(p@),
{
    let n = char_len(p);
    n > 0 && p.get_char(0) == '/'
}

/// Whether two paths are equal as `std::path::Path` values, that is
/// component by component.
pub uninterp spec fn same_path(a: Seq<char>, b: Seq<char>) -> bool;

/// Whether `base` is a prefix of `p` as `std::path::Path::starts_with`
/// decides it: by whole components.
pub uninterp spec fn path_starts_with(p: Seq<char>, base: Seq<char>) -> bool;

/// Compares two paths with `Path`'s `==`.
///
/// Claimed: the result is `same_path` of the two texts, and two equal texts
/// are equal paths. What else `==` identifies (repeated or trailing
/// separators, `.` components) is left to the name.
#[verifier::external_body]
pub(crate) fn paths_equal(a: &str, b: &str) -> (r: bool)
    ensures
        r == same_path(a@, b@),
        a@ == b@ ==> r,
{
    std::path::Path::new(a) == std::path::Path::new(b)
}

/// `Path::starts_with`: whether `base` names whole leading components of
/// `p`.
///
/// Claimed: the result is `path_starts_with` of the two texts, and every
/// path starts with itself (the documentation's own example).
#[verifier::external_body]
pub(crate) fn starts_with_path(p: &str, base: &str) -> (r: bool)
    ensures
        r == path_starts_with(p@, base@),
        p@ == base@ ==> r,
{
    std::path::Path::new(p).starts_with(std::path::Path::new(base))
}

} // verus!
