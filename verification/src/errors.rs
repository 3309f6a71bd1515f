use vstd::prelude::*;
use vstd::string::*;

use crate::text::{dec_chars, u64_to_string};

verus! {

/// A semantic fault found while building the AST: a token matched the
/// grammar but failed a secondary validation (numeric parse, register
/// range). Carries the line and column of the offending token.
#[derive(Debug, PartialEq, Eq)]
pub struct SourceError {
    /// Line and column, both counted from one.
    pub location: (usize, usize),
    /// A short human-readable description of the fault.
    pub description: String,
}

/// The one-line rendering of a source error.
pub open spec fn source_error_chars(e: SourceError) -> Seq<char> {
    "Error '"@ + e.description@ + "' at Line: "@ + dec_chars(e.location.0 as nat) + ", Col: "@
        + dec_chars(e.location.1 as nat)
}

impl SourceError {
    /// Renders the error as one line naming the fault and its place.
    pub fn to_string(&self) -> (r: String)
        ensures
            r@ == source_error_chars(*self),
    {
        String::from_str("Error '").concat(self.description.as_str()).concat(
            "' at Line: ",
        ).concat(u64_to_string(self.location.0 as u64).as_str()).concat(", Col: ").concat(
            u64_to_string(self.location.1 as u64).as_str(),
        )
    }
}

/// Everything that can abort a parse. The first failure is fatal:
/// no partial script is ever returned.
#[derive(Debug, PartialEq, Eq)]
pub enum Error {
    /// The input text does not conform to the grammar; carries the
    /// engine's own diagnostic text.
    GrammarError(String),
    /// The source path could not be read. Carries no location.
    LoadError,
    /// A token failed a semantic validation, with its position.
    SourceError(SourceError),
}

/// A diagnostic with the line and column it speaks of appended, for
/// the grammar engine's own messages.
pub fn positioned_message(what: &str, line: usize, col: usize) -> (r: String)
    ensures
        r@ == what@ + " at Line: "@ + dec_chars(line as nat) + ", Col: "@ + dec_chars(col as nat),
{
    what.to_owned().concat(" at Line: ").concat(u64_to_string(line as u64).as_str()).concat(
        ", Col: ",
    ).concat(u64_to_string(col as u64).as_str())
}

/// The one-line rendering of any parse-aborting error.
pub open spec fn error_chars(e: Error) -> Seq<char> {
    match e {
        Error::GrammarError(msg) => "Parse error: "@ + msg@,
        Error::LoadError => "Failed to load source."@,
        Error::SourceError(se) => source_error_chars(se),
    }
}

impl Error {
    /// Renders the error as the one line a caller reports.
    pub fn to_string(&self) -> (r: String)
        ensures
            r@ == error_chars(*self),
    {
        match self {
            Error::GrammarError(msg) => String::from_str("Parse error: ").concat(msg.as_str()),
            Error::LoadError => String::from_str("Failed to load source."),
            Error::SourceError(se) => se.to_string(),
        }
    }
}

} // verus!
