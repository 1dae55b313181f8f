use crate::compiled::{regex_accepts, regex_new, regex_refusal, Pattern};
use vstd::prelude::*;

verus! {

/// A pattern that the regex crate refused, with the crate's explanation.
#[derive(Debug)]
pub struct PatternError {
    pub pattern: String,
    pub message: String,
}

impl Pattern {
    /// Compiles `source`; fails exactly when the regex crate refuses it, with
    /// the crate's explanation.
    pub fn new(source: &str) -> (result: Result<Pattern, PatternError>)
        ensures
            result is Ok <==> regex_accepts(source@),
            result matches Ok(pattern) ==> pattern@ == source@,
            result matches Err(error) ==> error.pattern@ == source@ && regex_refusal(source@)
                == Some(error.message@),
    {
        match regex_new(source) {
            Ok(compiled) => Ok(compiled),
            Err(message) => Err(PatternError { pattern: source.to_owned(), message }),
        }
    }
}

} // verus!
