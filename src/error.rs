//! Structured parse errors.
use vstd::prelude::*;

verus! {

/// The class of a parse failure.
#[derive(Clone, Copy, Debug, PartialEq, Eq, Structural)]
pub enum ErrorKind {
    /// A literal delimiter, digit run or identifier character was not found.
    Lexical,
    /// A required part of a directive or an element is missing.
    Structure,
    /// A property or nested element inside a body failed; the offset is the
    /// innermost failure's.
    Composition,
}

/// What the parser expected where it failed.
#[derive(Clone, Copy, Debug, PartialEq, Eq, Structural)]
pub enum Expected {
    At,
    Identifier,
    Equals,
    Value,
    Quote,
    OpenDelimiter,
    CloseDelimiter,
    EndOfInput,
}

/// A parse failure at a character offset of the input.
#[derive(Clone, Copy, Debug, PartialEq, Eq, Structural)]
pub struct ParseError {
    pub kind: ErrorKind,
    pub offset: usize,
    pub expected: Expected,
}

/// The description of each expectation.
pub open spec fn description(e: Expected) -> Seq<char> {
    match e {
        Expected::At => "`@`"@,
        Expected::Identifier => "an identifier"@,
        Expected::Equals => "`=`"@,
        Expected::Value => "a string, number or identifier value"@,
        Expected::Quote => "a closing `\"`"@,
        Expected::OpenDelimiter => "`{` or `(`"@,
        Expected::CloseDelimiter => "a closing delimiter"@,
        Expected::EndOfInput => "end of input"@,
    }
}

impl Expected {
    /// A human-readable description of what was expected.
    pub fn describe(&self) -> (r: &'static str)
        ensures
            r@ == description(*self),
    {
        match self {
            Expected::At => "`@`",
            Expected::Identifier => "an identifier",
            Expected::Equals => "`=`",
            Expected::Value => "a string, number or identifier value",
            Expected::Quote => "a closing `\"`",
            Expected::OpenDelimiter => "`{` or `(`",
            Expected::CloseDelimiter => "a closing delimiter",
            Expected::EndOfInput => "end of input",
        }
    }
}

/// The error of the given kind at offset `at`.
pub open spec fn fail(kind: ErrorKind, at: int, expected: Expected) -> ParseError {
    ParseError { kind, offset: at as usize, expected }
}

/// The same failure, reported from inside a body.
pub open spec fn nested(e: ParseError) -> ParseError {
    ParseError { kind: ErrorKind::Composition, ..e }
}

} // verus!
