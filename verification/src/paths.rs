//! File paths, held as strings, with the joining rules of Unix paths.

use vstd::prelude::*;

verus! {

/// Whether a path is absolute (starts at the root).
pub open spec fn is_absolute_path(p: Seq<char>) -> bool {
    p.len() > 0 && p[0] == '/'
}

/// Joins `p` onto `base` as a Unix `PathBuf::join` does: an absolute `p` replaces
/// `base`; otherwise a `/` separates them unless `base` is empty or already ends
/// with one.
pub open spec fn spec_path_join(base: Seq<char>, p: Seq<char>) -> Seq<char> {
    if is_absolute_path(p) {
        p
    } else if base.len() == 0 || base.last() == '/' {
        base + p
    } else {
        base + "/"@ + p
    }
}

/// Whether a string is absolute as a path.
pub fn path_is_absolute(p: &str) -> (r: bool)
    ensures
        r == is_absolute_path(p@),
{
    p.unicode_len() > 0 && p.get_char(0) == '/'
}

/// Joins `p` onto `base` (see [`spec_path_join`]).
pub fn path_join(base: &str, p: &str) -> (r: String)
    ensures
        r@ == spec_path_join(base@, p@),
{
    if path_is_absolute(p) {
        return p.to_string();
    }
    let n = base.unicode_len();
    let mut r = base.to_string();
    if n > 0 && base.get_char(n - 1) == '/' {
        r.append(p);
    } else if n == 0 {
        r.append(p);
    } else {
        r.append("/");
        r.append(p);
    }
    r
}

/// The last component of a path, as `Path::file_name` gives it (`None` for a path
/// that ends in `..`, for the root, and for the empty path).
pub uninterp spec fn path_file_name(p: Seq<char>) -> Option<Seq<char>>;

/// The path without its last component, as `Path::parent` gives it (`None` for the
/// root and for the empty path).
pub uninterp spec fn path_parent(p: Seq<char>) -> Option<Seq<char>>;

/// The last component of `p`.
///
/// Calls `std::path::Path::file_name` and converts the result to a string. What
/// the component is follows Rust's path parsing and is left to the name
/// [`path_file_name`].
#[verifier::external_body]
pub(crate) fn file_name(p: &str) -> (r: Option<String>)
    ensures
        r matches Some(s) ==> path_file_name(p@) == Some(s@),
        r is None ==> path_file_name(p@) is None,
{
    std::path::Path::new(p).file_name().map(|n| n.to_string_lossy().to_string())
}

/// The parent of `p`.
///
/// Calls `std::path::Path::parent` and converts the result to a string; what the
/// parent is is left to the name [`path_parent`].
#[verifier::external_body]
pub(crate) fn parent(p: &str) -> (r: Option<String>)
    ensures
        r matches Some(s) ==> path_parent(p@) == Some(s@),
        r is None ==> path_parent(p@) is None,
{
    std::path::Path::new(p).parent().map(|n| n.to_string_lossy().to_string())
}

} // verus!
