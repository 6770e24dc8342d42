//! Path operations of the standard library, on paths held as text. What a
//! path is made of depends on the platform: each operation is named as it
//! works on the platform that the library is built for.

use vstd::prelude::*;

verus! {

/// What `Path::strip_prefix` leaves of a path behind a prefix of whole
/// components, or nothing when the path does not start with them.
pub uninterp spec fn path_without_prefix(path: Seq<char>, prefix: Seq<char>) -> Option<Seq<char>>;

/// The path without its last component as `Path::parent` gives it, or nothing
/// when the path ends in a root or is empty.
pub uninterp spec fn path_parent(path: Seq<char>) -> Option<Seq<char>>;

/// A path extended by another as `PathBuf::push` does it.
pub uninterp spec fn path_joined(base: Seq<char>, more: Seq<char>) -> Seq<char>;

/// `Path::strip_prefix`.
#[verifier::external_body]
pub(crate) fn strip_prefix(path: &str, prefix: &str) -> (rest: Option<String>)
    ensures
        match rest {
            Some(r) => path_without_prefix(path@, prefix@) == Some(r@),
            None => path_without_prefix(path@, prefix@) is None,
        },
{
    std::path::Path::new(path).strip_prefix(prefix).ok().map(
        |rest| rest.to_string_lossy().into_owned(),
    )
}

/// `Path::parent`: the path without its last component, which is a part
/// of the path and shorter than it.
#[verifier::external_body]
pub(crate) fn parent(path: &str) -> (above: Option<String>)
    ensures
        match above {
            Some(a) => path_parent(path@) == Some(a@) && a@.len() < path@.len(),
            None => path_parent(path@) is None,
        },
{
    std::path::Path::new(path).parent().map(|above| above.to_string_lossy().into_owned())
}

/// `PathBuf::push` on a copy of `base`.
#[verifier::external_body]
pub(crate) fn join(base: &str, more: &str) -> (whole: String)
    ensures
        whole@ == path_joined(base@, more@),
{
    let mut whole = std::path::PathBuf::from(base);
    whole.push(more);
    whole.to_string_lossy().into_owned()
}

/// A path without the extension of its last component, as
/// `Path::with_extension` with an empty extension gives it.
pub uninterp spec fn path_without_extension(path: Seq<char>) -> Seq<char>;

/// The extension of the last component of a path, as `Path::extension`
/// gives it.
pub uninterp spec fn path_extension(path: Seq<char>) -> Option<Seq<char>>;

/// `Path::with_extension` with an empty extension.
#[verifier::external_body]
pub(crate) fn without_extension(path: &str) -> (stem: String)
    ensures
        stem@ == path_without_extension(path@),
{
    std::path::Path::new(path).with_extension("").to_string_lossy().into_owned()
}

/// `std::path::MAIN_SEPARATOR`: the character that separates the components
/// of a path on the platform. Which character it is depends on the platform,
/// so nothing is said of it.
#[verifier::external_body]
pub(crate) fn main_separator() -> char {
    std::path::MAIN_SEPARATOR
}

/// `Path::extension`.
#[verifier::external_body]
pub(crate) fn extension(path: &str) -> (ext: Option<String>)
    ensures
        match ext {
            Some(e) => path_extension(path@) == Some(e@),
            None => path_extension(path@) is None,
        },
{
    std::path::Path::new(path).extension().map(|ext| ext.to_string_lossy().into_owned())
}

/// Whether a path comes before another the way paths are ordered, which
/// is step by step.
pub uninterp spec fn path_precedes(a: Seq<char>, b: Seq<char>) -> bool;

/// `Path`'s `<`.
#[verifier::external_body]
pub(crate) fn precedes(a: &str, b: &str) -> (r: bool)
    ensures
        r == path_precedes(a@, b@),
{
    std::path::Path::new(a) < std::path::Path::new(b)
}

/// The last component of a path as `Path::file_name` gives it, or nothing
/// when the path ends in a root or in `..`.
pub uninterp spec fn path_file_name(path: Seq<char>) -> Option<Seq<char>>;

/// `Path::file_name`.
#[verifier::external_body]
pub(crate) fn file_name(path: &str) -> (name: Option<String>)
    ensures
        match name {
            Some(n) => path_file_name(path@) == Some(n@),
            None => path_file_name(path@) is None,
        },
{
    std::path::Path::new(path).file_name().map(|name| name.to_string_lossy().into_owned())
}

} // verus!
