//! File-system path queries, answered by `std::path::Path`.
//!
//! Paths are passed around the library as UTF-8 text. What `Path` makes of a
//! path (its last component, stem and extension, and how components are
//! joined or replaced) follows the platform's path rules; the library names
//! those results below and does not restate them.
use vstd::prelude::*;

verus! {

/// What `Path::file_name` returns for the path with characters `p`.
pub uninterp spec fn path_file_name(p: Seq<char>) -> Option<Seq<char>>;

/// What `Path::file_stem` returns for the path with characters `p`.
pub uninterp spec fn path_file_stem(p: Seq<char>) -> Option<Seq<char>>;

/// What `Path::extension` returns for the path with characters `p`.
pub uninterp spec fn path_extension(p: Seq<char>) -> Option<Seq<char>>;

/// What `Path::with_file_name` returns for path `p` and file name `name`.
pub uninterp spec fn path_with_file_name(p: Seq<char>, name: Seq<char>) -> Seq<char>;

/// What `Path::join` returns for base path `p` and the relative part `rel`.
pub uninterp spec fn path_join(p: Seq<char>, rel: Seq<char>) -> Seq<char>;

/// What `Path::parent` returns for the path with characters `p`.
pub uninterp spec fn path_parent(p: Seq<char>) -> Option<Seq<char>>;

/// What `Path::with_extension` returns for path `p` and extension `ext`.
pub uninterp spec fn path_with_extension(p: Seq<char>, ext: Seq<char>) -> Seq<char>;

/// An extension that holds no path separator (`/` or `\`).
pub open spec fn plain_extension(ext: Seq<char>) -> bool {
    forall|i: int| 0 <= i < ext.len() ==> ext[i] != '/' && ext[i] != '\\'
}

/// The named result, or the empty text where there is none.
pub open spec fn or_empty(o: Option<Seq<char>>) -> Seq<char> {
    match o {
        Some(s) => s,
        None => Seq::empty(),
    }
}

/// `Path::file_name`: the last component of `p` (none for a root, an empty
/// path or one ending in `..`). The result is the one that `path_file_name`
/// names; nothing more is claimed.
#[verifier::external_body]
pub(crate) fn file_name(p: &str) -> (r: Option<String>)
    ensures
        r matches Some(s) ==> path_file_name(p@) == Some(s@),
        r is None ==> path_file_name(p@) is None,
{
    std::path::Path::new(p).file_name().map(|s| s.to_string_lossy().into_owned())
}

/// `Path::file_stem`: the last component of `p` without its extension. The
/// result is the one that `path_file_stem` names; nothing more is claimed.
#[verifier::external_body]
pub(crate) fn file_stem(p: &str) -> (r: Option<String>)
    ensures
        r matches Some(s) ==> path_file_stem(p@) == Some(s@),
        r is None ==> path_file_stem(p@) is None,
{
    std::path::Path::new(p).file_stem().map(|s| s.to_string_lossy().into_owned())
}

/// `Path::extension`: the extension of the last component of `p`. The result
/// is the one that `path_extension` names; nothing more is claimed.
#[verifier::external_body]
pub(crate) fn extension(p: &str) -> (r: Option<String>)
    ensures
        r matches Some(s) ==> path_extension(p@) == Some(s@),
        r is None ==> path_extension(p@) is None,
{
    std::path::Path::new(p).extension().map(|s| s.to_string_lossy().into_owned())
}

/// `Path::with_file_name`: `p` with its last component replaced by `name`.
/// The result is the one that `path_with_file_name` names; nothing more is
/// claimed.
#[verifier::external_body]
pub(crate) fn with_file_name(p: &str, name: &str) -> (r: String)
    ensures
        r@ == path_with_file_name(p@, name@),
{
    std::path::Path::new(p).with_file_name(name).to_string_lossy().into_owned()
}

/// `Path::parent`: `p` without its last component (none for a root or an
/// empty path). The result is the one that `path_parent` names; nothing more
/// is claimed.
#[verifier::external_body]
pub(crate) fn parent(p: &str) -> (r: Option<String>)
    ensures
        r matches Some(s) ==> path_parent(p@) == Some(s@),
        r is None ==> path_parent(p@) is None,
{
    std::path::Path::new(p).parent().map(|s| s.to_string_lossy().into_owned())
}

/// `Path::with_extension`: `p` with the extension of its last component
/// replaced by `ext` (added where it has none). The result is the one that
/// `path_with_extension` names; nothing more is claimed. `Path` panics on an
/// extension holding a path separator, so such extensions are not admitted.
#[verifier::external_body]
pub(crate) fn with_extension(p: &str, ext: &str) -> (r: String)
    requires
        plain_extension(ext@),
    ensures
        r@ == path_with_extension(p@, ext@),
{
    std::path::Path::new(p).with_extension(ext).to_string_lossy().into_owned()
}

/// `Path::join`: `rel` appended to `p` as a further component. The result is
/// the one that `path_join` names; nothing more is claimed.
#[verifier::external_body]
pub(crate) fn join(p: &str, rel: &str) -> (r: String)
    ensures
        r@ == path_join(p@, rel@),
{
    std::path::Path::new(p).join(rel).to_string_lossy().into_owned()
}

} // verus!
