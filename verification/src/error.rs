//! The errors of the parser.

use vstd::prelude::*;

verus! {

/// What is wrong with a definition file.
#[derive(Debug, Clone, Copy, PartialEq, Eq, Structural)]
pub enum ParseErrorKind {
    /// The document does not consist of exactly three sections.
    SectionCount,
    /// A pattern cannot be read. The parser of this crate reads every text
    /// as a pattern, in the last resort as one of the matching engine, and
    /// never reports this kind itself.
    PatternSyntax,
    /// A context rule lacks its arrow, or the text before the arrow is not a
    /// context name and a pattern.
    MalformedContextRule,
    /// A context rule names a token that no rule before it declares.
    UnknownContextToken,
}

/// An error of the parser: its kind, and a message that holds
/// the offending line as it was written.
#[derive(Debug)]
pub struct ParseError {
    pub kind: ParseErrorKind,
    pub message: String,
}

/// The mathematical value of a [`ParseError`].
pub struct ErrorView {
    pub kind: ParseErrorKind,
    pub message: Seq<char>,
}

impl View for ParseError {
    type V = ErrorView;

    open spec fn view(&self) -> ErrorView {
        ErrorView { kind: self.kind, message: self.message@ }
    }
}

/// The text that opens every error shown to a reader.
pub const ERROR_OPEN: &'static str = "Parse error: ";

/// The message for a document that has not three sections.
pub const SECTION_COUNT_MESSAGE: &'static str =
    "Input must have exactly 3 sections separated by %%";

/// Opens the message for a context rule without an arrow.
pub const MISSING_ARROW_OPEN: &'static str = "Context rule must have -> operator: ";

/// Opens the message for a context rule whose left side is not two parts.
pub const BAD_CONTEXT_OPEN: &'static str = "Invalid context rule format: ";

/// Opens the message for an unknown context token, up to the token.
pub const UNKNOWN_CONTEXT_OPEN: &'static str = "Unknown context token '";

/// Stands between the unknown context token and the line.
pub const UNKNOWN_CONTEXT_IN: &'static str = "' in rule: ";

/// The error for a document that has not three sections.
pub open spec fn section_count_error() -> ErrorView {
    ErrorView { kind: ParseErrorKind::SectionCount, message: SECTION_COUNT_MESSAGE@ }
}

/// The error for the context rule `line`, which has no arrow.
pub open spec fn missing_arrow_error(line: Seq<char>) -> ErrorView {
    ErrorView { kind: ParseErrorKind::MalformedContextRule, message: MISSING_ARROW_OPEN@ + line }
}

/// The error for the context rule `line`, whose left side is not a context
/// name and a pattern.
pub open spec fn bad_context_error(line: Seq<char>) -> ErrorView {
    ErrorView { kind: ParseErrorKind::MalformedContextRule, message: BAD_CONTEXT_OPEN@ + line }
}

/// The error for the context rule `line`, which names the undeclared token
/// `context`.
pub open spec fn unknown_context_error(context: Seq<char>, line: Seq<char>) -> ErrorView {
    ErrorView {
        kind: ParseErrorKind::UnknownContextToken,
        message: UNKNOWN_CONTEXT_OPEN@ + context + UNKNOWN_CONTEXT_IN@ + line,
    }
}

impl ParseError {
    /// An error about the syntax of a pattern, with the given message.
    pub fn new(message: String) -> (error: Self)
        ensures
            error@ == (ErrorView { kind: ParseErrorKind::PatternSyntax, message: message@ }),
    {
        ParseError { kind: ParseErrorKind::PatternSyntax, message }
    }

    /// An error of the given kind, with the given message.
    pub fn of_kind(kind: ParseErrorKind, message: String) -> (error: Self)
        ensures
            error@ == (ErrorView { kind, message: message@ }),
    {
        ParseError { kind, message }
    }

    /// The error as it is shown to a reader.
    pub fn to_string(&self) -> (text: String)
        ensures
            text@ == ERROR_OPEN@ + self@.message,
    {
        let mut text = String::from_str(ERROR_OPEN);
        text.append(self.message.as_str());
        text
    }
}

} // verus!
