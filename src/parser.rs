//! Matching inputs against grammars.
use vstd::prelude::*;

pub mod concat;
pub mod matching;
pub mod naive_parser;
pub mod properties;
pub mod text;

verus! {

/// Why an input was not split into tokens.
#[derive(Debug, Clone, Copy, PartialEq, Eq, Structural)]
pub enum ParseError {
    /// No candidate grammar consumed the whole input.
    NoMatch,
    /// Two or more candidate grammars each consumed the whole input.
    AmbiguousMatch,
    /// The grammar uses a feature that the matcher does not handle.
    Unsupported,
}

/// A result with each token viewed as its characters.
pub open spec fn texts(r: Result<Vec<String>, ParseError>) -> Result<Seq<Seq<char>>, ParseError> {
    match r {
        Ok(v) => Ok(v.deep_view()),
        Err(e) => Err(e),
    }
}

/// What every parser of this library offers: splitting an input into tokens.
pub trait Parser {
    /// Settings that a parse may take.
    type Config;

    /// The result that `parse` gives on `input`.
    spec fn outcome(&self, input: Seq<char>) -> Result<Seq<Seq<char>>, ParseError>;

    /// Splits `input` into tokens, or says why it cannot.
    fn parse(&self, input: &str, config: Option<Self::Config>) -> (r: Result<Vec<String>, ParseError>)
        ensures
            texts(r) == self.outcome(input@),
    ;
}

} // verus!
