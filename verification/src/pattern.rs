//! Regular expressions, as the `regex` crate compiles and runs them. Nothing
//! of their syntax or meaning is modelled here: what a pattern matches is
//! whatever that crate says it matches.

use regex::Regex;
use vstd::prelude::*;

verus! {

/// A compiled regular expression.
#[verifier::external_type_specification]
#[verifier::external_body]
pub struct ExRegex(Regex);

/// What `regex::Regex::new` fails with.
#[verifier::external_type_specification]
#[verifier::external_body]
pub struct ExRegexError(regex::Error);

/// The pattern text that a compiled expression holds, as `Regex::as_str`
/// hands it back.
pub uninterp spec fn pattern_source(re: Regex) -> Seq<char>;

/// Whether `Regex::new` accepts the pattern text: the text is sound by the
/// crate's syntax, and what it compiles to stays within the crate's default
/// size limit.
pub uninterp spec fn pattern_compiles(pattern: Seq<char>) -> bool;

/// Whether the expression compiled from `pattern` matches somewhere in `text`,
/// as `Regex::is_match` decides it.
pub uninterp spec fn pattern_matches(pattern: Seq<char>, text: Seq<char>) -> bool;

/// A regular expression compiled from a pattern text with the crate's
/// defaults. There is no other way to make one, so what it matches depends on
/// its text alone.
#[derive(Clone, Debug)]
pub struct Pattern {
    re: Regex,
}

impl View for Pattern {
    type V = Seq<char>;

    /// The pattern text.
    closed spec fn view(&self) -> Seq<char> {
        pattern_source(self.re)
    }
}

/// `Regex::new` compiles a pattern, or refuses it. Whether it compiles
/// depends on the pattern text alone, and a compiled expression keeps the
/// text it was made from.
#[verifier::external_body]
fn regex_new(pattern: &str) -> (r: Result<Regex, regex::Error>)
    ensures
        r is Ok == pattern_compiles(pattern@),
        r matches Ok(re) ==> pattern_source(re) == pattern@,
{
    Regex::new(pattern)
}

/// `Regex::as_str` hands back the pattern text that the expression was
/// compiled from.
#[verifier::external_body]
fn regex_as_str(pattern: &Pattern) -> (r: String)
    ensures
        r@ == pattern@,
{
    pattern.re.as_str().to_string()
}

/// A clone of a compiled expression is an expression of the same pattern.
pub assume_specification[ <Regex as Clone>::clone ](re: &Regex) -> (r: Regex)
    ensures
        pattern_source(r) == pattern_source(*re),
;

/// `Regex::is_match` says whether the expression matches anywhere in the
/// text. For an expression compiled with the crate's defaults, as every
/// `Pattern` is, the answer depends on the pattern text and the text
/// searched alone.
#[verifier::external_body]
fn regex_is_match(pattern: &Pattern, text: &str) -> (r: bool)
    ensures
        r == pattern_matches(pattern@, text@),
{
    pattern.re.is_match(text)
}

impl Pattern {
    /// Compiles a pattern text, if the text is a sound pattern.
    pub fn compile(text: &str) -> (r: Option<Pattern>)
        ensures
            r is Some == pattern_compiles(text@),
            r matches Some(p) ==> p@ == text@,
    {
        match regex_new(text) {
            Ok(re) => Some(Pattern { re }),
            Err(_) => None,
        }
    }

    /// Whether the pattern matches somewhere in the text.
    pub fn is_match(&self, text: &str) -> (r: bool)
        ensures
            r == pattern_matches(self@, text@),
    {
        regex_is_match(self, text)
    }

    /// The pattern text.
    pub fn source(&self) -> (r: String)
        ensures
            r@ == self@,
    {
        regex_as_str(self)
    }
}

} // verus!
