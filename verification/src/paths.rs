//! Unix path operations on paths held as strings.
use std::path::Path;
use vstd::prelude::*;
use crate::text::{chars_of, owned, push_char, push_str};

verus! {

/// A path is absolute when it starts at the root directory.
pub open spec fn absolute(p: Seq<char>) -> bool {
    p.len() > 0 && p[0] == '/'
}

/// `Path::join`: an absolute `rel` replaces `base`; otherwise `rel` is
/// appended after a separator, which is added unless `base` is empty or
/// already ends in one.
pub open spec fn joined(base: Seq<char>, rel: Seq<char>) -> Seq<char> {
    if absolute(rel) {
        rel
    } else if base.len() == 0 || base.last() == '/' {
        base + rel
    } else {
        base.push('/') + rel
    }
}

/// What `Path::parent` gives back for a path.
pub uninterp spec fn parent_of(p: Seq<char>) -> Option<Seq<char>>;

/// What `Path::file_name` gives back for a path, as text.
pub uninterp spec fn file_name_of(p: Seq<char>) -> Option<Seq<char>>;

/// The path rebuilt from its components (`components().collect()`): empty
/// components and `.` components dropped, except a `.` that begins the path,
/// separators single, no trailing separator.
pub uninterp spec fn normalized(p: Seq<char>) -> Seq<char>;

/// `Path::is_absolute` on Unix.
pub fn is_absolute(p: &str) -> (b: bool)
    ensures
        b == absolute(p@),
{
    let v = chars_of(p);
    v.len() > 0 && v[0] == '/'
}

/// `Path::join` on Unix, on paths held as strings.
pub fn path_join(base: &str, rel: &str) -> (r: String)
    ensures
        r@ == joined(base@, rel@),
{
    if is_absolute(rel) {
        return owned(rel);
    }
    let b = chars_of(base);
    let mut r = owned(base);
    if b.len() > 0 && b[b.len() - 1] != '/' {
        push_char(&mut r, '/');
    }
    push_str(&mut r, rel);
    r
}

/// `Path::parent`: the path without its last component, `None` for the
/// root or an empty path. The parent of a path held as text ends at a
/// separator, so it is text too and the conversion back loses nothing.
#[verifier::external_body]
pub(crate) fn path_parent(p: &str) -> (r: Option<String>)
    ensures
        r matches Some(s) ==> parent_of(p@) == Some(s@),
        r is None ==> parent_of(p@) is None,
{
    Path::new(p).parent().map(|q| q.to_string_lossy().into_owned())
}

/// `Path::file_name`: the last component, unless the path ends in `..`
/// or has no components; a name that is not valid UTF-8 counts as none.
#[verifier::external_body]
pub(crate) fn path_file_name(p: &str) -> (r: Option<String>)
    ensures
        r matches Some(s) ==> file_name_of(p@) == Some(s@),
        r is None ==> file_name_of(p@) is None,
{
    Path::new(p).file_name().and_then(|n| n.to_str()).map(|n| n.to_owned())
}

/// `Path::components` collected back into a path. The components of a path
/// held as text are text, so the conversion back loses nothing.
#[verifier::external_body]
pub(crate) fn path_normalize(p: &str) -> (r: String)
    ensures
        r@ == normalized(p@),
{
    Path::new(p).components().collect::<std::path::PathBuf>().to_string_lossy().into_owned()
}

/// `Path::canonicalize`: the absolute path with every symbolic link
/// resolved, as the file system has it; `None` when the path does not exist
/// or cannot be read. Which path comes back depends on the disk; the
/// documentation promises only that it is absolute. A canonical path that
/// is not UTF-8 comes back as its lossy text (invalid bytes become U+FFFD),
/// as `Path::display` would print it.
#[verifier::external_body]
pub(crate) fn path_canonicalize(p: &str) -> (r: Option<String>)
    ensures
        r matches Some(s) ==> absolute(s@),
{
    Path::new(p).canonicalize().ok().map(|q| q.to_string_lossy().into_owned())
}

} // verus!
