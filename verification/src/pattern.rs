//! Regular-expression matching, supplied by the `regex` crate.
//!
//! A compiled expression is paired with the pattern it was built from, so
//! contracts can speak of "matches pattern `p`" as a function of the pattern
//! and the text.

use vstd::prelude::*;

verus! {

#[verifier::external_type_specification]
#[verifier::external_body]
pub struct ExRegex(regex::Regex);

/// Whether `pattern` is a valid regular expression: a function of the
/// pattern alone.
pub uninterp spec fn regex_ok(pattern: Seq<char>) -> bool;

/// Whether `pattern` matches somewhere in `text`: a function of the pattern
/// and the text alone.
pub uninterp spec fn regex_match(pattern: Seq<char>, text: Seq<char>) -> bool;

/// A compiled regular expression together with its source pattern.
pub struct Pattern {
    re: regex::Regex,
    source: String,
}

impl Pattern {
    /// The pattern this expression was compiled from.
    pub closed spec fn src(&self) -> Seq<char> {
        self.source@
    }

    /// Relies on `regex::Regex::new`: whether a pattern compiles is a
    /// function of the pattern alone.
    #[verifier::external_body]
    pub fn compile(pattern: &str) -> (r: Option<Pattern>)
        ensures
            r is Some <==> regex_ok(pattern@),
            r matches Some(p) ==> p.src() == pattern@,
    {
        match regex::Regex::new(pattern) {
            Ok(re) => Some(Pattern { re, source: pattern.to_string() }),
            Err(_) => None,
        }
    }

    /// Relies on `regex::Regex::is_match`: the result is a function of the
    /// pattern and the text alone.
    #[verifier::external_body]
    pub fn is_match(&self, text: &str) -> (r: bool)
        ensures
            r == regex_match(self.src(), text@),
    {
        self.re.is_match(text)
    }
}

} // verus!
