//! Regular expressions as the configuration holds them: the pattern text
//! together with the regex that `fancy_regex` compiled from it.

use vstd::prelude::*;

use crate::text::owned;

verus! {

#[verifier::external_type_specification]
#[verifier::external_body]
pub struct ExFancyRegex(fancy_regex::Regex);

#[verifier::external_type_specification]
#[verifier::external_body]
pub struct ExFancyRegexError(fancy_regex::Error);

/// Whether `fancy_regex` accepts `pattern` as a regular expression.
pub uninterp spec fn regex_is_valid(pattern: Seq<char>) -> bool;

/// Compiles `pattern`.
///
/// Trusted: calls `fancy_regex::Regex::new`; the contract claims only that it
/// succeeds exactly on the patterns that `regex_is_valid` names, a function of
/// the pattern alone. Nothing is claimed of the compiled value itself.
#[verifier::external_body]
fn compile_regex(pattern: &str) -> (r: Result<fancy_regex::Regex, fancy_regex::Error>)
    ensures
        r is Ok <==> regex_is_valid(pattern@),
{
    fancy_regex::Regex::new(pattern)
}

/// Copies a compiled regex.
///
/// Trusted: calls `Clone::clone` of `fancy_regex::Regex`; nothing is claimed
/// of the copy, which the library never inspects.
#[verifier::external_body]
fn clone_regex(regex: &fancy_regex::Regex) -> fancy_regex::Regex {
    regex.clone()
}

/// The characters that `fancy_regex` treats as special in a pattern.
pub open spec fn regex_special(c: char) -> bool {
    c == '\\' || c == '.' || c == '+' || c == '*' || c == '?' || c == '(' || c == ')' || c
        == '|' || c == '[' || c == ']' || c == '{' || c == '}' || c == '^' || c == '$' || c
        == '#'
}

/// `text` with a backslash put before each special character.
pub open spec fn regex_escaped(text: Seq<char>) -> Seq<char>
    decreases text.len(),
{
    if text.len() == 0 {
        Seq::empty()
    } else {
        let c = text.last();
        let rest = regex_escaped(text.drop_last());
        if regex_special(c) {
            rest + seq!['\\', c]
        } else {
            rest.push(c)
        }
    }
}

/// Escapes the special characters of `text`.
///
/// Trusted: calls `fancy_regex::escape`, whose source puts a backslash before
/// each of the fifteen special characters and copies every other character.
#[verifier::external_body]
pub(crate) fn escape_regex(text: &str) -> (r: String)
    ensures
        r@ == regex_escaped(text@),
{
    fancy_regex::escape(text).into_owned()
}

/// A pattern that failed to compile, and why.
#[derive(Debug)]
pub struct RegexError {
    pub pattern: String,
    pub source: fancy_regex::Error,
}

/// A compiled regular expression that remembers its pattern.
///
/// Its view is the pattern. The compiled value is what `fancy_regex`
/// built from that pattern; nothing here checks it, and no contract says
/// what it matches or that a copy matches alike.
#[derive(Debug)]
pub struct SerdeRegex {
    pattern: String,
    regex: fancy_regex::Regex,
}

impl View for SerdeRegex {
    type V = Seq<char>;

    closed spec fn view(&self) -> Seq<char> {
        self.pattern@
    }
}

impl SerdeRegex {
    /// Compiles `pattern`; fails exactly when `fancy_regex` rejects it.
    pub fn new(pattern: &str) -> (r: Result<SerdeRegex, RegexError>)
        ensures
            r is Ok <==> regex_is_valid(pattern@),
            r matches Ok(re) ==> re@ == pattern@,
            r matches Err(e) ==> e.pattern@ == pattern@,
    {
        match compile_regex(pattern) {
            Ok(regex) => Ok(SerdeRegex { pattern: owned(pattern), regex }),
            Err(source) => Err(RegexError { pattern: owned(pattern), source }),
        }
    }

    /// The pattern this regex was compiled from.
    pub fn as_str(&self) -> (s: &str)
        ensures
            s@ == self@,
    {
        self.pattern.as_str()
    }

    /// The compiled regex, for matching.
    pub fn regex(&self) -> (r: &fancy_regex::Regex)
        ensures
            *r == self.compiled(),
    {
        &self.regex
    }

    /// The regex compiled from the pattern, as this value holds it.
    pub closed spec fn compiled(&self) -> fancy_regex::Regex {
        self.regex
    }
}

impl Clone for SerdeRegex {
    fn clone(&self) -> (r: Self)
        ensures
            r@ == self@,
    {
        SerdeRegex { pattern: self.pattern.clone(), regex: clone_regex(&self.regex) }
    }
}

} // verus!
