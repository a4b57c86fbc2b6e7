//! The pattern by which projects are told apart, compiled and matched by
//! the `regex` crate.

use vstd::prelude::*;
use vstd::string::*;

verus! {

/// Whether `regex` accepts `source` as a regular expression.
pub uninterp spec fn regex_compiles(source: Seq<char>) -> bool;

/// Whether the regular expression `source` matches some part of `text`.
/// It has a meaning only for a `source` that compiles.
pub uninterp spec fn regex_finds(source: Seq<char>, text: Seq<char>) -> bool;

/// A compiled regular expression of the `regex` crate.
#[verifier::external_type_specification]
#[verifier::external_body]
pub struct ExRegex(regex::Regex);

/// The error that `regex` gives for a source that it cannot compile.
#[verifier::external_type_specification]
#[verifier::external_body]
pub struct ExRegexError(regex::Error);

/// A regular expression: its source and what `regex` compiled of it. The
/// two belong together: only `compile` makes a `Pattern`, and nothing
/// changes one.
pub struct Pattern {
    source: String,
    compiled: regex::Regex,
}

impl View for Pattern {
    type V = Seq<char>;

    /// The source text of the expression.
    closed spec fn view(&self) -> Seq<char> {
        self.source@
    }
}

/// Compiles `source` with `regex::Regex::new` and keeps the result beside
/// a copy of the source.
///
/// Trusted: whether the source compiles depends on the source alone.
#[verifier::external_body]
fn compile(source: &str) -> (r: Result<Pattern, regex::Error>)
    ensures
        r is Ok <==> regex_compiles(source@),
        r matches Ok(p) ==> p@ == source@,
{
    match regex::Regex::new(source) {
        Ok(compiled) => Ok(Pattern { source: source.to_owned(), compiled }),
        Err(e) => Err(e),
    }
}

/// Searches `text` with `regex::Regex::find`, for the compiled expression
/// of `pattern`.
///
/// Trusted: whether a match is found depends on the source of the
/// expression and on the text alone. Which texts match is not stated.
#[verifier::external_body]
fn finds(pattern: &Pattern, text: &str) -> (found: bool)
    ensures
        found == regex_finds(pattern@, text@),
{
    pattern.compiled.find(text).is_some()
}

impl Pattern {
    #[verifier::type_invariant]
    spec fn compiles(self) -> bool {
        regex_compiles(self.source@)
    }

    /// Makes a pattern of `source`, or `None` where `source` is no regular
    /// expression. The expression is compiled here, once.
    pub fn new(source: &str) -> (r: Option<Pattern>)
        ensures
            r is Some <==> regex_compiles(source@),
            r matches Some(p) ==> p@ == source@,
    {
        match compile(source) {
            Ok(pattern) => Some(pattern),
            Err(_) => None,
        }
    }

    /// The source text of the expression, which compiles.
    pub fn source(&self) -> (s: &str)
        ensures
            s@ == self@,
            regex_compiles(s@),
    {
        proof {
            use_type_invariant(self);
        }
        self.source.as_str()
    }

    /// Whether the expression matches some part of `text`.
    pub fn matches(&self, text: &str) -> (r: bool)
        ensures
            r == regex_finds(self@, text@),
    {
        finds(self, text)
    }
}

/// Whether an optional pattern matches some part of `text`; no pattern
/// matches nothing.
pub open spec fn pattern_matches(pattern: Option<Seq<char>>, text: Seq<char>) -> bool {
    match pattern {
        Some(source) => regex_finds(source, text),
        None => false,
    }
}

/// The source text of an optional pattern.
pub open spec fn source_of(pattern: Option<&Pattern>) -> Option<Seq<char>> {
    match pattern {
        Some(p) => Some(p@),
        None => None,
    }
}

/// Whether an optional pattern matches some part of `text`.
pub fn matches_any(pattern: Option<&Pattern>, text: &str) -> (r: bool)
    ensures
        r == pattern_matches(source_of(pattern), text@),
{
    match pattern {
        Some(p) => p.matches(text),
        None => false,
    }
}

} // verus!
