//! What the library takes from `std` on text: lower case, and the
//! extension of a path.

use vstd::prelude::*;
use crate::model::text_view;

verus! {

/// `s` in lower case, as `str::to_lowercase` gives it.
pub uninterp spec fn lowercase_of(s: Seq<char>) -> Seq<char>;

/// The extension of `path`, as `std::path::Path::extension` gives it for the
/// platform that the library is built for: the part of the last component
/// after its last dot, if that component has one that is not its first
/// character.
pub uninterp spec fn extension_of(path: Seq<char>) -> Option<Seq<char>>;

/// Calls `str::to_lowercase`, which maps each character by the Unicode
/// lower-case tables. The contract only gives that result its name.
#[verifier::external_body]
pub(crate) fn to_lowercase(s: &str) -> (lower: String)
    ensures
        lower@ == lowercase_of(s@),
{
    s.to_lowercase()
}

/// Calls `std::path::Path::extension` on `path`. The contract only gives
/// that result its name.
#[verifier::external_body]
pub(crate) fn path_extension(path: &str) -> (extension: Option<String>)
    ensures
        text_view(extension) == extension_of(path@),
{
    match std::path::Path::new(path).extension() {
        Some(e) => Some(e.to_string_lossy().into_owned()),
        None => None,
    }
}

/// The extension of `path` in lower case, if the path has an extension.
pub fn get_maybe_extension_string(path: &str) -> (extension: Option<String>)
    ensures
        text_view(extension) == match extension_of(path@) {
            Some(e) => Some(lowercase_of(e)),
            None => None,
        },
{
    match path_extension(path) {
        Some(v) => Some(to_lowercase(v.as_str())),
        None => None,
    }
}

} // verus!
