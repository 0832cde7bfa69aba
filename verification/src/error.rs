//! The parser's error type.

use vstd::prelude::*;

verus! {

/// A colour-code letter that is not one of the options, kept as the
/// offending token text.
#[derive(Debug, PartialEq, Eq)]
pub struct ParseBobbleStrError(pub String);

impl ParseBobbleStrError {
    /// A human-readable description of the error, naming the bad token.
    pub fn message(&self) -> (m: String)
        ensures
            m@ == "ParsePinError: "@ + self.0@ + " is not one of the options."@,
    {
        let head = String::from_str("ParsePinError: ");
        let with_token = head.concat(self.0.as_str());
        with_token.concat(" is not one of the options.")
    }
}

} // verus!
