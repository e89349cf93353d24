//! Standard-library text and path functions that have no specification in
//! vstd. Their results carry names: each is a function of its argument alone.
use vstd::prelude::*;
use crate::model::smell::opt_view;

verus! {

/// The final component of `path` (`Path::file_name`, as text), if it has one.
pub uninterp spec fn file_name_of(path: Seq<char>) -> Option<Seq<char>>;

/// The lowercase form of `s` (`str::to_lowercase`).
pub uninterp spec fn lowercase_of(s: Seq<char>) -> Seq<char>;

/// The components of `path` (`Path::components`), each as text.
pub uninterp spec fn components_of(path: Seq<char>) -> Seq<Seq<char>>;

/// The extension of `path` (`Path::extension`, as text), if it has one.
pub uninterp spec fn extension_of(path: Seq<char>) -> Option<Seq<char>>;

/// `std::path::Path::file_name` of `path`, as a string.
#[verifier::external_body]
pub(crate) fn file_name(path: &str) -> (r: Option<String>)
    ensures
        opt_view(r) == file_name_of(path@),
{
    std::path::Path::new(path).file_name().and_then(|n| n.to_str()).map(|n| n.to_string())
}

/// `str::to_lowercase` of `s`.
#[verifier::external_body]
pub(crate) fn lowercase(s: &str) -> (r: String)
    ensures
        r@ == lowercase_of(s@),
{
    s.to_lowercase()
}

/// `std::path::Path::components` of `path`, each component as text.
#[verifier::external_body]
pub(crate) fn path_components(path: &str) -> (r: Vec<String>)
    ensures
        r@.map_values(|c: String| c@) == components_of(path@),
{
    std::path::Path::new(path).components().map(|c| c.as_os_str().to_string_lossy().to_string()).collect()
}

/// `std::path::Path::extension` of `path`, as a string.
#[verifier::external_body]
pub(crate) fn file_extension(path: &str) -> (r: Option<String>)
    ensures
        opt_view(r) == extension_of(path@),
{
    std::path::Path::new(path).extension().and_then(|e| e.to_str()).map(|e| e.to_string())
}

} // verus!
