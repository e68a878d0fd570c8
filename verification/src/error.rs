//! The parser's error taxonomy. Every failure is immediate and fail-fast:
//! the first error aborts the parse, nothing is wrapped or accumulated.

use vstd::prelude::*;

verus! {

/// Mathematical image of a parse error; names are character sequences.
pub enum ParseErrorV {
    UnexpectedKeyword,
    MissingFunctionName,
    DuplicateParameter(Seq<char>),
    MissingFunctionBody,
    MissingRightParen,
    UnknownFactor,
    CallOnNonIdentifier,
    MultipleStatements,
    NoStatement,
    Evaluation(Seq<char>),
}

/// Why a parse failed.
#[derive(Debug, Clone, PartialEq, Eq)]
pub enum ParseError {
    /// A top-level keyword other than `fn`.
    UnexpectedKeyword,
    /// `fn` was not followed by an identifier naming the function.
    MissingFunctionName,
    /// A parameter name repeated inside one function definition; carries the
    /// repeated name.
    DuplicateParameter(String),
    /// The function-body marker was missing after the parameter list.
    MissingFunctionBody,
    /// A parenthesized expression was not closed by `)`.
    MissingRightParen,
    /// No factor production starts with the current token.
    UnknownFactor,
    /// A call-argument run followed an accumulated result that is not an
    /// identifier.
    CallOnNonIdentifier,
    /// More than one top-level statement was supplied.
    MultipleStatements,
    /// The input held no statement at all.
    NoStatement,
    /// The evaluator collaborator failed; carries its message unchanged.
    Evaluation(String),
}

impl View for ParseError {
    type V = ParseErrorV;

    open spec fn view(&self) -> ParseErrorV {
        match self {
            ParseError::UnexpectedKeyword => ParseErrorV::UnexpectedKeyword,
            ParseError::MissingFunctionName => ParseErrorV::MissingFunctionName,
            ParseError::DuplicateParameter(s) => ParseErrorV::DuplicateParameter(s@),
            ParseError::MissingFunctionBody => ParseErrorV::MissingFunctionBody,
            ParseError::MissingRightParen => ParseErrorV::MissingRightParen,
            ParseError::UnknownFactor => ParseErrorV::UnknownFactor,
            ParseError::CallOnNonIdentifier => ParseErrorV::CallOnNonIdentifier,
            ParseError::MultipleStatements => ParseErrorV::MultipleStatements,
            ParseError::NoStatement => ParseErrorV::NoStatement,
            ParseError::Evaluation(s) => ParseErrorV::Evaluation(s@),
        }
    }
}

} // verus!
