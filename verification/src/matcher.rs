//! Compiled regular expressions and glob patterns, each kept with the text
//! it was compiled from.
use vstd::prelude::*;
use crate::text::owned;

verus! {

/// A compiled regular expression (`regex::Regex`).
#[verifier::external_type_specification]
#[verifier::external_body]
pub struct ExRegex(regex::Regex);

/// A compiled glob pattern (`glob::Pattern`).
#[verifier::external_type_specification]
#[verifier::external_body]
pub struct ExGlobPattern(glob::Pattern);

/// Whether the regular expression `pattern` matches somewhere in `text`
/// (`regex::Regex::is_match`).
pub uninterp spec fn regex_match(pattern: Seq<char>, text: Seq<char>) -> bool;

/// Whether the glob `pattern` matches all of `text`
/// (`glob::Pattern::matches`).
pub uninterp spec fn glob_match(pattern: Seq<char>, text: Seq<char>) -> bool;

/// The text of the error `regex::Regex::new` gives for `pattern`, or none
/// when it compiles.
pub uninterp spec fn regex_error(pattern: Seq<char>) -> Option<Seq<char>>;

/// The text of the error `glob::Pattern::new` gives for `pattern`, or none
/// when it compiles.
pub uninterp spec fn glob_error(pattern: Seq<char>) -> Option<Seq<char>>;

/// Compiles a regular expression (`regex::Regex::new`); the error's text
/// when it does not compile. Whether it compiles, and the error, are
/// `regex_error` of the pattern.
#[verifier::external_body]
fn compile_regex(pattern: &str) -> (r: Result<regex::Regex, String>)
    ensures
        match r {
            Ok(_) => regex_error(pattern@) is None,
            Err(e) => regex_error(pattern@) == Some(e@),
        },
{
    regex::Regex::new(pattern).map_err(|e| e.to_string())
}

/// Compiles a glob pattern (`glob::Pattern::new`); the error's text when
/// it does not compile. Whether it compiles, and the error, are
/// `glob_error` of the pattern.
#[verifier::external_body]
fn compile_glob(pattern: &str) -> (r: Result<glob::Pattern, String>)
    ensures
        match r {
            Ok(_) => glob_error(pattern@) is None,
            Err(e) => glob_error(pattern@) == Some(e@),
        },
{
    glob::Pattern::new(pattern).map_err(|e| e.to_string())
}

/// A regular expression compiled from its text.
pub struct TextRegex {
    pattern: String,
    re: regex::Regex,
}

impl View for TextRegex {
    type V = Seq<char>;

    closed spec fn view(&self) -> Seq<char> {
        self.pattern@
    }
}

/// Whether the expression matches somewhere in `text`
/// (`regex::Regex::is_match` on the expression compiled from `re@`).
#[verifier::external_body]
fn regex_is_match(re: &TextRegex, text: &str) -> (r: bool)
    ensures
        r == regex_match(re@, text@),
{
    re.re.is_match(text)
}

impl TextRegex {
    /// Compiles `pattern`; the compiler's message when it does not compile.
    pub fn new(pattern: &str) -> (r: Result<TextRegex, String>)
        ensures
            match r {
                Ok(re) => re@ == pattern@ && regex_error(pattern@) is None,
                Err(e) => regex_error(pattern@) == Some(e@),
            },
    {
        match compile_regex(pattern) {
            Ok(re) => Ok(TextRegex { pattern: owned(pattern), re }),
            Err(e) => Err(e),
        }
    }

    /// Whether the expression matches somewhere in `text`.
    pub fn is_match(&self, text: &str) -> (r: bool)
        ensures
            r == regex_match(self@, text@),
    {
        regex_is_match(self, text)
    }
}

/// A glob pattern compiled from its text.
pub struct TextGlob {
    pattern: String,
    g: glob::Pattern,
}

impl View for TextGlob {
    type V = Seq<char>;

    closed spec fn view(&self) -> Seq<char> {
        self.pattern@
    }
}

/// Whether the pattern matches all of `text` (`glob::Pattern::matches` on
/// the pattern compiled from `g@`).
#[verifier::external_body]
fn glob_matches(g: &TextGlob, text: &str) -> (r: bool)
    ensures
        r == glob_match(g@, text@),
{
    g.g.matches(text)
}

impl TextGlob {
    /// Compiles `pattern`; the compiler's message when it does not compile.
    pub fn new(pattern: &str) -> (r: Result<TextGlob, String>)
        ensures
            match r {
                Ok(g) => g@ == pattern@ && glob_error(pattern@) is None,
                Err(e) => glob_error(pattern@) == Some(e@),
            },
    {
        match compile_glob(pattern) {
            Ok(g) => Ok(TextGlob { pattern: owned(pattern), g }),
            Err(e) => Err(e),
        }
    }

    /// Whether the pattern matches all of `text`.
    pub fn matches(&self, text: &str) -> (r: bool)
        ensures
            r == glob_match(self@, text@),
    {
        glob_matches(self, text)
    }
}

} // verus!
