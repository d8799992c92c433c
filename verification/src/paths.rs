//! The path operations of the standard library the shell relies on.
use vstd::prelude::*;

verus! {

/// `Path::file_stem` of a path string: the final component without its
/// extension, or `None` when the path has no final file name.
pub uninterp spec fn file_stem_of(path: Seq<char>) -> Option<Seq<char>>;

/// `std::path::Path::file_stem`, converted to an owned string. The
/// contract only ties the result to `file_stem_of` of the argument; the
/// component and extension rules of `Path` are not restated.
#[verifier::external_body]
pub(crate) fn path_file_stem(path: &str) -> (r: Option<String>)
    ensures
        match r {
            Some(s) => file_stem_of(path@) == Some(s@),
            None => file_stem_of(path@) is None,
        },
{
    match std::path::Path::new(path).file_stem() {
        Some(stem) => Some(stem.to_string_lossy().into_owned()),
        None => None,
    }
}

/// `Path::join` of two path strings: `rel` appended as a component, or
/// `rel` itself when it is absolute.
pub uninterp spec fn path_join_of(base: Seq<char>, rel: Seq<char>) -> Seq<char>;

/// `std::path::Path::join`, rendered back to a string. The contract ties
/// the result to `path_join_of` of the two arguments and does not restate
/// the separator rules of `Path`.
#[verifier::external_body]
pub(crate) fn path_join(base: &str, rel: &str) -> (r: String)
    ensures
        r@ == path_join_of(base@, rel@),
{
    std::path::Path::new(base).join(rel).to_string_lossy().into_owned()
}

} // verus!
