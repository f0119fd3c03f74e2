//! Regular-expression matching, delegated to the `regex` crate.

use regex::Regex;
use vstd::prelude::*;

verus! {

#[verifier::external_type_specification]
#[verifier::external_body]
pub struct ExRegex(Regex);

/// Whether `regex::Regex::is_match` reports a match of the expression written
/// `pattern` somewhere in `text` (anchors in the pattern apply).
pub uninterp spec fn regex_is_match(pattern: Seq<char>, text: Seq<char>) -> bool;

/// A compiled regular expression together with the pattern it was compiled from.
pub struct PatternMatcher {
    re: Regex,
    pattern: Ghost<Seq<char>>,
}

impl View for PatternMatcher {
    type V = Seq<char>;

    /// The source text of the expression.
    closed spec fn view(&self) -> Seq<char> {
        self.pattern@
    }
}

/// Whether `regex::Regex::new` accepts `pattern`: it refuses patterns with a
/// syntax error and those whose compiled form exceeds the crate's default
/// size limits.
pub uninterp spec fn regex_compiles(pattern: Seq<char>) -> bool;

/// Calls `regex::Regex::new`, which compiles `pattern`, and keeps the pattern
/// beside the compiled expression; `None` where the crate refuses the pattern.
#[verifier::external_body]
fn regex_new(pattern: &str) -> (r: Option<PatternMatcher>)
    ensures
        r is Some <==> regex_compiles(pattern@),
        r matches Some(m) ==> m@ == pattern@,
{
    match Regex::new(pattern) {
        Ok(re) => Some(PatternMatcher { re, pattern: Ghost(pattern@) }),
        Err(_) => None,
    }
}

/// Calls `regex::Regex::is_match` on the expression held by `m`; the answer is
/// the one the crate gives for that pattern and `text`.
#[verifier::external_body]
fn call_is_match(m: &PatternMatcher, text: &str) -> (b: bool)
    ensures
        b == regex_is_match(m@, text@),
{
    m.re.is_match(text)
}

impl PatternMatcher {
    /// Compiles `pattern`; `None` where the regex crate refuses it.
    pub fn new(pattern: &str) -> (r: Option<PatternMatcher>)
        ensures
            r is Some <==> regex_compiles(pattern@),
            r matches Some(m) ==> m@ == pattern@,
    {
        regex_new(pattern)
    }

    /// Whether the expression matches `text`.
    pub fn is_match(&self, text: &str) -> (b: bool)
        ensures
            b == regex_is_match(self@, text@),
    {
        call_is_match(self, text)
    }
}

} // verus!
