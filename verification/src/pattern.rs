//! Regular expressions, through the `regex` crate.
//!
//! What `regex` computes is not restated here: the two names below stand for
//! whether a pattern compiles and for the leftmost-first match of a pattern in a
//! text, and the callers' contracts are written over them.
use vstd::prelude::*;

verus! {

#[verifier::external_type_specification]
#[verifier::external_body]
pub struct ExRegex(regex::Regex);

#[verifier::external_type_specification]
#[verifier::external_body]
pub struct ExRegexError(regex::Error);

/// Whether `regex::Regex::new` accepts `pattern`.
pub uninterp spec fn regex_compiles(pattern: Seq<char>) -> bool;

/// The text of the leftmost-first match of `pattern` in `haystack`, as
/// `regex::Regex::find` reports it, or `None` when there is no match.
pub uninterp spec fn regex_first_match(pattern: Seq<char>, haystack: Seq<char>) -> Option<
    Seq<char>,
>;

/// The characters of an optional string.
pub open spec fn opt_text(o: Option<String>) -> Option<Seq<char>> {
    match o {
        Some(s) => Some(s@),
        None => None,
    }
}

/// A compiled regular expression together with the text it was compiled from.
/// Its fields are private: `Pattern::compile` is the only way to make one, so the
/// compiled expression is always the one of its text.
pub(crate) struct Pattern {
    source: String,
    re: regex::Regex,
}

impl View for Pattern {
    type V = Seq<char>;

    /// The text of the pattern.
    closed spec fn view(&self) -> Seq<char> {
        self.source@
    }
}

impl Pattern {
    /// Compiles `source` with `regex::Regex::new`.
    /// Claimed of the outside code: it succeeds exactly when `regex_compiles(source@)`,
    /// and then the pattern is that of `source`.
    #[verifier::external_body]
    pub(crate) fn compile(source: &str) -> (res: Result<Pattern, regex::Error>)
        ensures
            res is Ok <==> regex_compiles(source@),
            res matches Ok(p) ==> p@ == source@,
    {
        regex::Regex::new(source).map(|re| Pattern { source: source.to_string(), re })
    }

    /// The text of the first match in `haystack`, through `regex::Regex::find` and
    /// `regex::Match::as_str`.
    /// Claimed of the outside code: the result is `regex_first_match` of the
    /// pattern's text and `haystack`.
    #[verifier::external_body]
    pub(crate) fn first_match(&self, haystack: &str) -> (res: Option<String>)
        ensures
            opt_text(res) == regex_first_match(self@, haystack@),
    {
        self.re.find(haystack).map(|m| m.as_str().to_string())
    }
}

} // verus!
