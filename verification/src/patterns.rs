//! The pattern languages of the policy: shell patterns and regular expressions.

use glob::{Pattern, PatternError};
use regex::Regex;
use vstd::prelude::*;

verus! {

/// Whether `Pattern::new` of the crate `glob` accepts a pattern, where `/` is the path
/// separator.
pub uninterp spec fn glob_compiles(pattern: Seq<char>) -> bool;

/// Whether a text matches a pattern that `Pattern::new` accepts, as `Pattern::matches` decides
/// where `/` is the path separator.
pub uninterp spec fn glob_matches(pattern: Seq<char>, text: Seq<char>) -> bool;

/// The text that a compiled pattern was made from, which it keeps.
pub uninterp spec fn glob_source(pattern: Pattern) -> Seq<char>;

/// Whether `Regex::new` of the crate `regex` accepts an expression.
pub uninterp spec fn regex_compiles(expression: Seq<char>) -> bool;

/// Whether an expression that `Regex::new` accepts matches somewhere in a text, as
/// `Regex::is_match` decides for what `Regex::new` makes of it.
pub uninterp spec fn regex_matches(expression: Seq<char>, text: Seq<char>) -> bool;

/// The text that a compiled expression was made from, which it keeps.
pub uninterp spec fn regex_source(expression: Regex) -> Seq<char>;

/// Whether a compiled expression has the settings that `Regex::new` gives it. A `RegexBuilder`
/// can give it others, under which the same text matches otherwise.
pub uninterp spec fn regex_is_plain(expression: Regex) -> bool;

/// A compiled shell pattern of the crate `glob`.
#[verifier::external_type_specification]
#[verifier::external_body]
pub struct ExPattern(Pattern);

/// Why the crate `glob` refused a pattern.
#[verifier::external_type_specification]
#[verifier::external_body]
pub struct ExPatternError(PatternError);

/// A compiled regular expression of the crate `regex`.
#[verifier::external_type_specification]
#[verifier::external_body]
pub struct ExRegex(Regex);

/// Why the crate `regex` refused an expression.
#[verifier::external_type_specification]
#[verifier::external_body]
pub struct ExRegexError(regex::Error);

/// Calls `Pattern::new`: whether a pattern is accepted depends on its text, which the compiled
/// pattern keeps.
#[verifier::external_body]
pub(crate) fn compile_glob(token: &str) -> (r: Result<Pattern, PatternError>)
    ensures
        r is Ok <==> glob_compiles(token@),
        r matches Ok(p) ==> glob_source(p) == token@,
{
    Pattern::new(token)
}

/// Calls `Pattern::matches`, whose answer depends on the text of the pattern and on the text
/// that is matched.
#[verifier::external_body]
pub(crate) fn match_glob(pattern: &Pattern, text: &str) -> (r: bool)
    ensures
        r == glob_matches(glob_source(*pattern), text@),
{
    pattern.matches(text)
}

/// Calls `Pattern::as_str`, which gives the text that the pattern was made from.
#[verifier::external_body]
pub(crate) fn glob_text(pattern: &Pattern) -> (s: &str)
    ensures
        s@ == glob_source(*pattern),
{
    pattern.as_str()
}

/// Calls `Regex::new`: whether an expression is accepted depends on its text, which the compiled
/// expression keeps. Its settings are the default ones.
#[verifier::external_body]
fn compile_regex(token: &str) -> (r: Result<Regex, regex::Error>)
    ensures
        r is Ok <==> regex_compiles(token@),
        r matches Ok(e) ==> regex_is_plain(e) && regex_source(e) == token@,
{
    Regex::new(token)
}

/// Calls `Regex::is_match` on an expression with the default settings, whose answer depends on
/// the text of the expression and on the text that is searched.
#[verifier::external_body]
fn match_regex(expression: &Regex, text: &str) -> (r: bool)
    requires
        regex_is_plain(*expression),
    ensures
        r == regex_matches(regex_source(*expression), text@),
{
    expression.is_match(text)
}

/// Calls `Regex::as_str`, which gives the text that the expression was made from.
#[verifier::external_body]
fn regex_text(expression: &Regex) -> (s: &str)
    ensures
        s@ == regex_source(*expression),
{
    expression.as_str()
}

/// A regular expression with the default settings.
#[derive(Debug)]
pub struct PlainRegex {
    regex: Regex,
}

impl PlainRegex {
    #[verifier::type_invariant]
    spec fn wf(self) -> bool {
        regex_is_plain(self.regex)
    }

    /// The text that the expression was made from.
    pub closed spec fn source(&self) -> Seq<char> {
        regex_source(self.regex)
    }

    /// Compiles an expression.
    pub fn new(token: &str) -> (r: Result<PlainRegex, regex::Error>)
        ensures
            r is Ok <==> regex_compiles(token@),
            r matches Ok(e) ==> e.source() == token@,
    {
        match compile_regex(token) {
            Ok(regex) => Ok(PlainRegex { regex }),
            Err(e) => Err(e),
        }
    }

    /// Whether the expression matches somewhere in a text.
    pub fn is_match(&self, text: &str) -> (r: bool)
        ensures
            r == regex_matches(self.source(), text@),
    {
        proof {
            use_type_invariant(self);
        }
        match_regex(&self.regex, text)
    }

    /// The text that the expression was made from.
    pub fn as_str(&self) -> (s: &str)
        ensures
            s@ == self.source(),
    {
        regex_text(&self.regex)
    }
}

} // verus!
