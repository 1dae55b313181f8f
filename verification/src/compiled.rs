use regex::Regex;
use vstd::prelude::*;

verus! {

#[verifier::external_type_specification]
#[verifier::external_body]
pub struct ExRegex(Regex);

/// What `regex::Regex::new` says of `pattern`: `None` when it compiles the
/// pattern, or `Some` of the text of its error (the error's `Display`) when it
/// refuses it, because the pattern is invalid or its compiled program exceeds
/// the crate's default size limit. The size check counts bytes with the
/// target's type sizes, so for a pattern close to the limit the answer can
/// differ between a 32-bit and a 64-bit build; for one build it depends on
/// the pattern alone.
pub uninterp spec fn regex_refusal(pattern: Seq<char>) -> Option<Seq<char>>;

/// Whether the regex crate compiles `pattern`.
pub open spec fn regex_accepts(pattern: Seq<char>) -> bool {
    regex_refusal(pattern) is None
}

/// Whether the regex compiled from `pattern` finds a match anywhere in
/// `haystack`, as `regex::Regex::is_match` reports it.
pub uninterp spec fn regex_is_match(pattern: Seq<char>, haystack: Seq<char>) -> bool;

/// A compiled regular expression together with the text it was compiled
/// from. Its fields are private to this file, and the only code here that
/// builds one is `regex_new`, which compiles the regex from that very text;
/// code elsewhere cannot pair a text with another regex.
pub struct Pattern {
    source: String,
    compiled: Regex,
}

impl View for Pattern {
    type V = Seq<char>;

    closed spec fn view(&self) -> Seq<char> {
        self.source@
    }
}

/// Calls `regex::Regex::new` on `pattern` and keeps the compiled regex
/// together with the pattern's text; a refusal becomes the text of its
/// error. Claimed: the result is `Ok` exactly when `regex_refusal` of the
/// pattern is `None`, the compiled pattern's text is the pattern itself, and
/// otherwise the error text is what `regex_refusal` names. Both depend on the
/// pattern alone (for a given build target), as the crate compiles with fixed
/// default limits.
#[verifier::external_body]
pub(crate) fn regex_new(pattern: &str) -> (compiled: Result<Pattern, String>)
    ensures
        match compiled {
            Ok(p) => regex_refusal(pattern@) is None && p@ == pattern@,
            Err(message) => regex_refusal(pattern@) == Some(message@),
        },
{
    match Regex::new(pattern) {
        Ok(compiled) => Ok(Pattern { source: pattern.to_owned(), compiled }),
        Err(error) => Err(error.to_string()),
    }
}

/// Calls `regex::Regex::is_match` on the regex that a `Pattern` holds.
/// Claimed: the answer is `regex_is_match` of the pattern's source text and
/// the haystack, as the regex is the one `regex_new` compiled from that text.
#[verifier::external_body]
pub(crate) fn pattern_is_match(pattern: &Pattern, haystack: &str) -> (found: bool)
    ensures
        found == regex_is_match(pattern@, haystack@),
{
    pattern.compiled.is_match(haystack)
}

} // verus!
