use crate::{position_text, push_char, Position};
use vstd::prelude::*;

verus! {

/// The `Result` of `Lexer`.
#[derive(Debug)]
pub enum LexerResult<T> {
    /// A token, or another success value.
    Item(T),
    /// An error.
    Error(LexerError),
    /// No tokens found; `Eof` must be returned when the end of the file is reached.
    Eof,
}

impl<T> LexerResult<T> {
    /// Returns `true` if the result is `Item`.
    pub fn is_ok(&self) -> (r: bool)
        ensures
            r == self is Item,
    {
        match self {
            LexerResult::Item(_) => true,
            _ => false,
        }
    }

    /// Returns `true` if the result is `Error`.
    pub fn is_err(&self) -> (r: bool)
        ensures
            r == self is Error,
    {
        match self {
            LexerResult::Error(_) => true,
            _ => false,
        }
    }

    /// Returns `true` if the result is `Eof`.
    pub fn is_eof(&self) -> (r: bool)
        ensures
            r == self is Eof,
    {
        match self {
            LexerResult::Eof => true,
            _ => false,
        }
    }

    /// Unwrap an `Item` value.
    pub fn unwrap(self) -> (r: T)
        requires
            self is Item,
        ensures
            r == self->Item_0,
    {
        match self {
            LexerResult::Item(t) => t,
            _ => unreached(),
        }
    }

    /// Map an `Item` value.
    pub fn map<U, F: FnOnce(T) -> U>(self, op: F) -> (r: LexerResult<U>)
        requires
            self is Item ==> op.requires((self->Item_0,)),
        ensures
            self is Item ==> r is Item && op.ensures((self->Item_0,), r->Item_0),
            self is Error ==> r == LexerResult::<U>::Error(self->Error_0),
            self is Eof ==> r is Eof,
    {
        match self {
            LexerResult::Item(t) => LexerResult::Item(op(t)),
            LexerResult::Error(e) => LexerResult::Error(e),
            LexerResult::Eof => LexerResult::Eof,
        }
    }
}

/// The error type of `Lexer`.
#[derive(Debug)]
pub enum LexerError {
    /// An unexpected character was found.
    UnexpectedCharacter {
        /// The unexpected character.
        ch: char,
        /// The position of the character.
        position: Position,
    },
    /// The end of the file was found, but a character was expected.
    UnexpectedEof { expected: &'static str },
    /// The found escape character is invalid.
    UnknownEscape {
        /// The unknown escape character.
        ch: char,
        /// The position of the character.
        position: Position,
    },
    /// A different error, such as an integer literal too large for 64 bits.
    Other {
        /// A description of the error.
        error: String,
        /// The position at which the error happened.
        position: Position,
    },
}

/// The mathematical value of a `LexerError`.
pub enum LexFault {
    UnexpectedCharacter(char, Position),
    UnexpectedEof(Seq<char>),
    UnknownEscape(char, Position),
    Other(Seq<char>, Position),
}

impl View for LexerError {
    type V = LexFault;

    open spec fn view(&self) -> LexFault {
        match self {
            LexerError::UnexpectedCharacter { ch, position } => LexFault::UnexpectedCharacter(
                *ch,
                *position,
            ),
            LexerError::UnexpectedEof { expected } => LexFault::UnexpectedEof(expected@),
            LexerError::UnknownEscape { ch, position } => LexFault::UnknownEscape(*ch, *position),
            LexerError::Other { error, position } => LexFault::Other(error@, *position),
        }
    }
}

/// The message that describes a lexer error.
pub open spec fn lex_fault_message(f: LexFault) -> Seq<char> {
    match f {
        LexFault::UnexpectedCharacter(ch, p) => "unexpected character at "@ + position_text(p)
            + ": '"@ + seq![ch] + "' "@,
        LexFault::UnknownEscape(ch, p) => "invalid escape character at "@ + position_text(p)
            + ": '"@ + seq![ch] + "' "@,
        LexFault::UnexpectedEof(expected) => "unexpected end of file, expected "@ + expected,
        LexFault::Other(error, p) => "error at "@ + position_text(p) + ": "@ + error,
    }
}

impl LexerError {
    /// Append the message that describes the error to `out`.
    pub fn write_to(&self, out: &mut String)
        ensures
            final(out)@ == old(out)@ + lex_fault_message(self@),
    {
        match self {
            LexerError::UnexpectedCharacter { ch, position } => {
                out.append("unexpected character at ");
                position.write_to(out);
                out.append(": '");
                push_char(out, *ch);
                out.append("' ");
            },
            LexerError::UnknownEscape { ch, position } => {
                out.append("invalid escape character at ");
                position.write_to(out);
                out.append(": '");
                push_char(out, *ch);
                out.append("' ");
            },
            LexerError::UnexpectedEof { expected } => {
                out.append("unexpected end of file, expected ");
                out.append(expected);
            },
            LexerError::Other { error, position } => {
                out.append("error at ");
                position.write_to(out);
                out.append(": ");
                out.append(error.as_str());
            },
        }
        assert(final(out)@ =~= old(out)@ + lex_fault_message(self@));
    }

    /// The message that describes the error.
    pub fn message(&self) -> (r: String)
        ensures
            r@ == lex_fault_message(self@),
    {
        let mut out = String::new();
        self.write_to(&mut out);
        assert(out@ =~= lex_fault_message(self@));
        out
    }
}

} // verus!
