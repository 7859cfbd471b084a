//! Regular expressions, compiled and run by the `regex` crate.

use vstd::prelude::*;

verus! {

/// `regex::Regex`, carried through as an opaque value.
#[verifier::external_type_specification]
#[verifier::external_body]
pub struct ExRegex(regex::Regex);

/// `regex::Error`, the reason `regex::Regex::new` refuses a pattern; opaque.
#[verifier::external_type_specification]
#[verifier::external_body]
pub struct ExRegexError(regex::Error);

/// Whether `regex::Regex::new` accepts `pattern` (valid syntax, within the default size
/// limit).
pub uninterp spec fn regex_accepts(pattern: Seq<char>) -> bool;

/// What `regex::Regex::replace` gives back: `haystack` with the leftmost-first match of
/// `pattern` replaced by `rep`, in which `$` names a capture group.
pub uninterp spec fn regex_replace_first(pattern: Seq<char>, haystack: Seq<char>, rep: Seq<char>) -> Seq<char>;

/// The texts of the successive non-overlapping matches of `pattern` in `haystack`, as
/// `regex::Regex::find_iter` yields them.
pub uninterp spec fn regex_match_texts(pattern: Seq<char>, haystack: Seq<char>) -> Seq<Seq<char>>;

/// Why a pattern could not be used.
#[derive(Debug, Clone, Copy, PartialEq, Eq, Structural)]
pub enum PatternError {
    /// `regex` refused to compile the pattern.
    Invalid,
}

/// A compiled regular expression together with the pattern it was compiled from. Only
/// `compile_regex` builds one, so `compiled` is always what `regex` made of `source`.
pub struct Pattern {
    source: String,
    compiled: regex::Regex,
}

impl View for Pattern {
    type V = Seq<char>;

    /// The pattern the expression was compiled from.
    closed spec fn view(&self) -> Seq<char> {
        self.source@
    }
}

/// Compiles `pattern` with `regex::Regex::new`. The contract claims that it succeeds exactly
/// when `regex` accepts the pattern and that the result remembers the pattern; which patterns
/// are accepted is left to the name `regex_accepts`.
#[verifier::external_body]
fn compile_regex(pattern: &str) -> (r: Result<Pattern, regex::Error>)
    ensures
        r is Ok <==> regex_accepts(pattern@),
        r matches Ok(p) ==> p@ == pattern@,
{
    match regex::Regex::new(pattern) {
        Ok(compiled) => Ok(Pattern { source: pattern.to_string(), compiled }),
        Err(e) => Err(e),
    }
}

impl Pattern {
    /// Compiles `pattern`; `Invalid` when `regex` refuses it.
    pub fn new(pattern: &str) -> (r: Result<Pattern, PatternError>)
        ensures
            r is Ok <==> regex_accepts(pattern@),
            r matches Ok(p) ==> p@ == pattern@,
            r matches Err(e) ==> e == PatternError::Invalid,
    {
        match compile_regex(pattern) {
            Ok(p) => Ok(p),
            Err(_) => Err(PatternError::Invalid),
        }
    }

    /// `regex::Regex::replace` followed by `into_owned`: the contract claims only that the
    /// result is the named replacement of the leftmost-first match, so what a match is and
    /// how `$` in `rep` expands are left to the name `regex_replace_first`.
    #[verifier::external_body]
    pub(crate) fn replace_first(&self, haystack: &str, rep: &str) -> (r: String)
        ensures
            r@ == regex_replace_first(self@, haystack@, rep@),
    {
        self.compiled.replace(haystack, rep).into_owned()
    }

    /// The texts of `regex::Regex::find_iter`'s matches, in order; the contract names them
    /// without saying what they are.
    #[verifier::external_body]
    pub(crate) fn match_texts(&self, haystack: &str) -> (r: Vec<String>)
        ensures
            r@.map_values(|m: String| m@) == regex_match_texts(self@, haystack@),
    {
        let mut out = Vec::new();
        for m in self.compiled.find_iter(haystack) {
            out.push(m.as_str().to_string());
        }
        out
    }
}

} // verus!
