//! The path component of a URL, supplied by the `url` crate.

use vstd::prelude::*;

verus! {

/// The path component of `s` parsed as an absolute URL, or `None` if `s`
/// does not parse: a function of the string alone.
pub uninterp spec fn url_path_of(s: Seq<char>) -> Option<Seq<char>>;

/// Relies on `url::Url::parse` and `url::Url::path`: whether a string
/// parses, and the path of the parsed URL, are functions of the string
/// alone.  The path excludes any query or fragment.
#[verifier::external_body]
pub fn url_path(s: &str) -> (r: Option<String>)
    ensures
        r is Some <==> url_path_of(s@) is Some,
        r matches Some(p) ==> Some(p@) == url_path_of(s@),
{
    match url::Url::parse(s) {
        Ok(u) => Some(u.path().to_string()),
        Err(_) => None,
    }
}

} // verus!
