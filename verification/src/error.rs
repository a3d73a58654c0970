//! What can go wrong while a line is scanned or evaluated.

use vstd::prelude::*;
use crate::text::{
    char_debug_text, chars_of, debug_char, debug_str, str_debug_text, string_of,
};

verus! {

#[verifier::external_type_specification]
#[verifier::external_body]
#[verifier::reject_recursive_types(E)]
pub struct ExParseComplexError<E>(num_complex::ParseComplexError<E>);

#[verifier::external_type_specification]
#[verifier::external_body]
pub struct ExParseFloatError(std::num::ParseFloatError);

/// An error from the interpreter.
#[derive(Debug)]
pub enum Error {
    /// The scanner met a character that can start no word.
    Unexpected(char),
    /// A word that looks like a number is not one.
    ParseNumber(num_complex::ParseComplexError<std::num::ParseFloatError>),
    /// A value lies outside the domain of a primitive.
    Domain,
    /// A feature of the language that is not supported.
    Unimplemented(&'static str),
    /// The arrays are not the same shape or length.
    Length,
    /// The operation would use too much memory.
    OutOfMemory,
    /// The sentence does not reduce to a single word.
    SyntaxError,
}

/// What an error says: its kind, with what the parser of numbers reported as text.
pub enum ErrorKind {
    Unexpected(char),
    ParseNumber(Seq<char>),
    Domain,
    Unimplemented(&'static str),
    Length,
    OutOfMemory,
    SyntaxError,
}

/// How a failed parse of a complex number describes itself when it is
/// printed for debugging.
pub uninterp spec fn parse_error_text(
    e: num_complex::ParseComplexError<std::num::ParseFloatError>,
) -> Seq<char>;

/// How an error is printed for debugging: the name of its kind, and in
/// parentheses what it carries, if it carries anything.
pub open spec fn error_text(k: ErrorKind) -> Seq<char> {
    match k {
        ErrorKind::Unexpected(c) => "Unexpected("@ + char_debug_text(c) + ")"@,
        ErrorKind::ParseNumber(detail) => "ParseNumber("@ + detail + ")"@,
        ErrorKind::Domain => "Domain"@,
        ErrorKind::Unimplemented(what) => "Unimplemented("@ + str_debug_text(what@) + ")"@,
        ErrorKind::Length => "Length"@,
        ErrorKind::OutOfMemory => "OutOfMemory"@,
        ErrorKind::SyntaxError => "SyntaxError"@,
    }
}

impl View for Error {
    type V = ErrorKind;

    open spec fn view(&self) -> ErrorKind {
        match *self {
            Error::Unexpected(c) => ErrorKind::Unexpected(c),
            Error::ParseNumber(e) => ErrorKind::ParseNumber(parse_error_text(e)),
            Error::Domain => ErrorKind::Domain,
            Error::Unimplemented(what) => ErrorKind::Unimplemented(what),
            Error::Length => ErrorKind::Length,
            Error::OutOfMemory => ErrorKind::OutOfMemory,
            Error::SyntaxError => ErrorKind::SyntaxError,
        }
    }
}

/// The `Debug` form of `num_complex::ParseComplexError`.
#[verifier::external_body]
fn debug_parse_error(e: &num_complex::ParseComplexError<std::num::ParseFloatError>) -> (text: Vec<
    char,
>)
    ensures
        text@ == parse_error_text(*e),
{
    format!("{:?}", e).chars().collect()
}

impl Error {
    /// Writes the error as it is printed for debugging.
    pub fn text(&self) -> (text: Vec<char>)
        ensures
            text@ == error_text(self@),
    {
        match self {
            Error::Unexpected(c) => {
                let mut text = chars_of("Unexpected(");
                let mut detail = debug_char(*c);
                let mut close = chars_of(")");
                text.append(&mut detail);
                text.append(&mut close);
                text
            },
            Error::ParseNumber(e) => {
                let mut text = chars_of("ParseNumber(");
                let mut detail = debug_parse_error(e);
                let mut close = chars_of(")");
                text.append(&mut detail);
                text.append(&mut close);
                text
            },
            Error::Domain => chars_of("Domain"),
            Error::Unimplemented(what) => {
                let mut text = chars_of("Unimplemented(");
                let mut detail = debug_str(what);
                let mut close = chars_of(")");
                text.append(&mut detail);
                text.append(&mut close);
                text
            },
            Error::Length => chars_of("Length"),
            Error::OutOfMemory => chars_of("OutOfMemory"),
            Error::SyntaxError => chars_of("SyntaxError"),
        }
    }

    /// The error as a string, as it is printed for debugging.
    pub fn display(&self) -> (s: String)
        ensures
            s@ == error_text(self@),
    {
        string_of(&self.text())
    }
}

} // verus!
