use vstd::prelude::*;

verus! {

/// The pattern the grammar was looking for where a line stopped matching.
#[derive(Clone, Copy, PartialEq, Eq, Debug)]
pub enum Expected {
    /// The literal `:`.
    Colon,
    /// A single space between two numbers.
    Space,
    /// One or more decimal digits.
    Digits,
    /// A non-empty attacker name followed by `" killed "`.
    Killed,
    /// A non-empty victim name followed by `" by "`.
    By,
    /// A non-empty cause-of-death token.
    CauseToken,
    /// A token that is one of the canonical cause-of-death strings.
    KnownCause,
    /// One of the line headers.
    Header,
    /// A run of exactly sixty hyphens.
    Spacer,
}

/// A grammar failure: where the input stopped matching, counted in
/// characters from the start of the parsed text, and what was expected there.
#[derive(Clone, Copy, PartialEq, Eq, Debug)]
pub struct ParseError {
    pub position: usize,
    pub expected: Expected,
}

/// The mathematical value of a [`ParseError`].
pub struct Mismatch {
    pub position: int,
    pub expected: Expected,
}

impl View for ParseError {
    type V = Mismatch;

    open spec fn view(&self) -> Mismatch {
        Mismatch { position: self.position as int, expected: self.expected }
    }
}

/// Everything that can go wrong while interpreting a log.
#[derive(Debug)]
pub enum Error {
    /// Incrementing a counter would exceed its range.
    Overflow,
    /// Decrementing a counter would fall below its range.
    Underflow,
    /// A condition that the input has to meet does not hold.
    Assertion(&'static str),
    /// The text is not the canonical name of any cause of death.
    UnknownCauseOfDeath(String),
    /// The byte is not the code of any cause of death.
    CauseOfDeathFromByte(u8),
    /// The line does not follow the grammar.
    ParsingError(ParseError),
}

/// The mathematical value of an [`Error`].
pub enum ErrorView {
    Overflow,
    Underflow,
    Assertion(Seq<char>),
    UnknownCauseOfDeath(Seq<char>),
    CauseOfDeathFromByte(u8),
    ParsingError(Mismatch),
}

impl View for Error {
    type V = ErrorView;

    open spec fn view(&self) -> ErrorView {
        match self {
            Error::Overflow => ErrorView::Overflow,
            Error::Underflow => ErrorView::Underflow,
            Error::Assertion(message) => ErrorView::Assertion(message@),
            Error::UnknownCauseOfDeath(text) => ErrorView::UnknownCauseOfDeath(text@),
            Error::CauseOfDeathFromByte(byte) => ErrorView::CauseOfDeathFromByte(*byte),
            Error::ParsingError(error) => ErrorView::ParsingError(error@),
        }
    }
}

} // verus!
