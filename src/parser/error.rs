use crate::ast::{Tree, AST};
use crate::lexer::{lex_fault_message, LexFault, LexerError};
use crate::token::{token_text, Token, TokenKind};
use crate::{position_text, Position};
use vstd::prelude::*;

verus! {

/// The `Result` of `Parser`.
#[derive(Debug)]
pub enum ParseResult<T> {
    /// A success value.
    Item(T),
    /// An error.
    Error(ParseError),
    /// No expressions found; `Eof` must be returned when the end of the file is reached.
    Eof,
}

impl<T> ParseResult<T> {
    /// Returns `true` if the result is `Item`.
    pub fn is_ok(&self) -> (r: bool)
        ensures
            r == self is Item,
    {
        match self {
            ParseResult::Item(_) => true,
            _ => false,
        }
    }

    /// Returns `true` if the result is `Error`.
    pub fn is_err(&self) -> (r: bool)
        ensures
            r == self is Error,
    {
        match self {
            ParseResult::Error(_) => true,
            _ => false,
        }
    }

    /// Returns `true` if the result is `Eof`.
    pub fn is_eof(&self) -> (r: bool)
        ensures
            r == self is Eof,
    {
        match self {
            ParseResult::Eof => true,
            _ => false,
        }
    }

    /// Unwrap an `Item` value.
    pub fn unwrap(self) -> (r: T)
        requires
            self is Item,
        ensures
            r == self->Item_0,
    {
        match self {
            ParseResult::Item(t) => t,
            _ => unreached(),
        }
    }

    /// Map an `Item` value.
    pub fn map<U, F: FnOnce(T) -> U>(self, op: F) -> (r: ParseResult<U>)
        requires
            self is Item ==> op.requires((self->Item_0,)),
        ensures
            self is Item ==> r is Item && op.ensures((self->Item_0,), r->Item_0),
            self is Error ==> r == ParseResult::<U>::Error(self->Error_0),
            self is Eof ==> r is Eof,
    {
        match self {
            ParseResult::Item(t) => ParseResult::Item(op(t)),
            ParseResult::Error(e) => ParseResult::Error(e),
            ParseResult::Eof => ParseResult::Eof,
        }
    }
}

/// The error type of `Parser`.
#[derive(Debug)]
pub enum ParseError {
    /// The next token in the token stream was not expected.
    UnexpectedToken(Token),
    /// The next expression was not expected.
    UnexpectedExpression(AST),
    /// End of file found, but expected token.
    UnexpectedEof { expected: &'static str },
    /// An error happened in the lexer.
    LexerError(LexerError),
    /// A different error.
    Other {
        /// A description of the error.
        error: String,
        /// The position at which the error happened.
        position: Position,
    },
}

/// The mathematical value of a `ParseError`.
pub enum ParseFault {
    UnexpectedToken(TokenKind, Position),
    UnexpectedExpression(Tree),
    UnexpectedEof(Seq<char>),
    Lexer(LexFault),
    Other(Seq<char>, Position),
}

impl View for ParseError {
    type V = ParseFault;

    open spec fn view(&self) -> ParseFault {
        match self {
            ParseError::UnexpectedToken(t) => ParseFault::UnexpectedToken(t.token@, t.position),
            ParseError::UnexpectedExpression(a) => ParseFault::UnexpectedExpression(a@),
            ParseError::UnexpectedEof { expected } => ParseFault::UnexpectedEof(expected@),
            ParseError::LexerError(e) => ParseFault::Lexer(e@),
            ParseError::Other { error, position } => ParseFault::Other(error@, *position),
        }
    }
}

/// The message that describes a parse error. An unexpected expression is described by where it
/// starts.
pub open spec fn parse_fault_message(f: ParseFault) -> Seq<char> {
    match f {
        ParseFault::UnexpectedToken(k, p) => "unexpected token at "@ + position_text(p) + ": "@
            + token_text(k),
        ParseFault::UnexpectedExpression(t) => "unexpected expression at "@ + position_text(
            t.position,
        ),
        ParseFault::UnexpectedEof(expected) => "found end of file, but expected "@ + expected,
        ParseFault::Lexer(e) => lex_fault_message(e),
        ParseFault::Other(error, p) => "error at "@ + position_text(p) + ": "@ + error,
    }
}

impl ParseError {
    /// The message that describes the error.
    pub fn message(&self) -> (r: String)
        ensures
            r@ == parse_fault_message(self@),
    {
        let mut out = String::new();
        match self {
            ParseError::UnexpectedToken(Token { token, position }) => {
                out.append("unexpected token at ");
                position.write_to(&mut out);
                out.append(": ");
                token.write_to(&mut out);
            },
            ParseError::UnexpectedExpression(AST { position, .. }) => {
                out.append("unexpected expression at ");
                position.write_to(&mut out);
            },
            ParseError::UnexpectedEof { expected } => {
                out.append("found end of file, but expected ");
                out.append(expected);
            },
            ParseError::LexerError(e) => e.write_to(&mut out),
            ParseError::Other { error, position } => {
                out.append("error at ");
                position.write_to(&mut out);
                out.append(": ");
                out.append(error.as_str());
            },
        }
        assert(out@ =~= parse_fault_message(self@));
        out
    }
}

} // verus!
