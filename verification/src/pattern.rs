//! Compiled regular expressions, by way of the `regex` crate.
use vstd::prelude::*;

verus! {

/// `regex::Regex`, as an opaque type.
#[verifier::external_type_specification]
#[verifier::external_body]
pub struct ExRegex(regex::Regex);

/// `regex::Error`, as an opaque type.
#[verifier::external_type_specification]
#[verifier::external_body]
pub struct ExRegexError(regex::Error);

/// Whether `regex::Regex::new` accepts the pattern.
pub uninterp spec fn regex_compiles(pattern: Seq<char>) -> bool;

/// What `regex::Regex::is_match` answers for the regex compiled from `pattern`, on `haystack`.
pub uninterp spec fn regex_is_match(pattern: Seq<char>, haystack: Seq<char>) -> bool;

/// Calls `regex::Regex::new`. Claims only that it succeeds exactly when the pattern compiles
/// (the name `regex_compiles`); what the error holds is not stated.
#[verifier::external_body]
fn compile_regex(pattern: &str) -> (r: Result<regex::Regex, regex::Error>)
    ensures
        r is Ok <==> regex_compiles(pattern@),
{
    regex::Regex::new(pattern)
}

/// Calls `Display::fmt` of `regex::Error` through `to_string`. Nothing is claimed of the text.
#[verifier::external_body]
fn regex_error_text(e: &regex::Error) -> String {
    e.to_string()
}

/// A regular expression together with the source it was compiled from.
///
/// The only way to obtain one is `Pattern::compile`, which keeps `compiled` the result of
/// compiling `source`.
#[derive(Debug)]
pub struct Pattern {
    source: String,
    compiled: regex::Regex,
}

impl View for Pattern {
    type V = Seq<char>;

    open spec fn view(&self) -> Seq<char> {
        self.source_text()
    }
}

impl Pattern {
    /// The source the pattern was compiled from.
    pub closed spec fn source_text(&self) -> Seq<char> {
        self.source@
    }

    /// Compiles `pattern`; on failure, gives the `regex` crate's error text.
    pub fn compile(pattern: &str) -> (r: Result<Pattern, String>)
        ensures
            r is Ok <==> regex_compiles(pattern@),
            r matches Ok(p) ==> p@ == pattern@,
    {
        match compile_regex(pattern) {
            Ok(compiled) => Ok(Pattern { source: pattern.to_owned(), compiled }),
            Err(e) => Err(regex_error_text(&e)),
        }
    }

    /// Whether the text holds a match.
    pub fn is_match(&self, haystack: &str) -> (b: bool)
        ensures
            b == regex_is_match(self@, haystack@),
    {
        pattern_is_match(self, haystack)
    }
}

/// Calls `regex::Regex::is_match` on the regex that `Pattern::compile` compiled from the
/// pattern's source. Claims that the answer is the name `regex_is_match` of that source and the
/// haystack; which texts match is not stated.
#[verifier::external_body]
fn pattern_is_match(p: &Pattern, haystack: &str) -> (b: bool)
    ensures
        b == regex_is_match(p@, haystack@),
{
    p.compiled.is_match(haystack)
}

/// Whether the pattern compiles, and the error text where it does not.
pub fn check_pattern(pattern: &str) -> (r: Result<(), String>)
    ensures
        r is Ok <==> regex_compiles(pattern@),
{
    match compile_regex(pattern) {
        Ok(_) => Ok(()),
        Err(e) => Err(regex_error_text(&e)),
    }
}

} // verus!
