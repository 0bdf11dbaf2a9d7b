//! `token` contains the `Token` structure.
use crate::interpreter::{decimal, push_decimal};
use crate::{Identifier, Position};
use vstd::prelude::*;

verus! {

/// `Token` represents a token, containing the token's type and its line and column.
#[derive(Clone, Debug, PartialEq)]
pub struct Token {
    /// The `Token`'s type.
    pub token: TokenType,
    /// The `Token`'s position in a file.
    pub position: Position,
}

/// `TokenType` contains all possible token types.
#[derive(Clone, Debug, PartialEq)]
pub enum TokenType {
    /// An identifier.
    Identifier(Identifier),
    /// An integer literal.
    Integer(i64),
    /// `(`
    LeftBracket,
    /// `)`
    RightBracket,
    /// `if`
    If,
    /// `define`
    Define,
}

/// The mathematical value of a `TokenType`: identifiers are character sequences.
pub enum TokenKind {
    Identifier(Seq<char>),
    Integer(i64),
    LeftBracket,
    RightBracket,
    If,
    Define,
}

/// The characters of the keyword `if`.
pub open spec fn if_word() -> Seq<char> {
    seq!['i', 'f']
}

/// The characters of the keyword `define`.
pub open spec fn define_word() -> Seq<char> {
    seq!['d', 'e', 'f', 'i', 'n', 'e']
}

/// The kind of token that a name becomes: a keyword if it is spelled like one, else an
/// identifier.
pub open spec fn keyword_or_identifier(name: Seq<char>) -> TokenKind {
    if name == if_word() {
        TokenKind::If
    } else if name == define_word() {
        TokenKind::Define
    } else {
        TokenKind::Identifier(name)
    }
}

impl View for TokenType {
    type V = TokenKind;

    open spec fn view(&self) -> TokenKind {
        match self {
            TokenType::Identifier(name) => TokenKind::Identifier(name@),
            TokenType::Integer(v) => TokenKind::Integer(*v),
            TokenType::LeftBracket => TokenKind::LeftBracket,
            TokenType::RightBracket => TokenKind::RightBracket,
            TokenType::If => TokenKind::If,
            TokenType::Define => TokenKind::Define,
        }
    }
}

/// Whether the characters of `s` are exactly `word`.
fn spelled(s: &str, word: &str) -> (r: bool)
    ensures
        r == (s@ == word@),
{
    let n = s.unicode_len();
    if n != word.unicode_len() {
        return false;
    }
    let mut i: usize = 0;
    while i < n
        invariant
            n == s@.len(),
            n == word@.len(),
            0 <= i <= n,
            forall|j: int| 0 <= j < i ==> s@[j] == word@[j],
        decreases n - i,
    {
        if s.get_char(i) != word.get_char(i) {
            return false;
        }
        i = i + 1;
    }
    assert(s@ =~= word@);
    true
}

impl Token {
    /// Create a new `Token`.
    pub fn new(token: TokenType, line: usize, column: usize) -> (r: Token)
        ensures
            r.token == token,
            r.position == (Position { line, column }),
    {
        Token { token, position: Position::new(line, column) }
    }
}

/// The source text of a token.
pub open spec fn token_text(k: TokenKind) -> Seq<char> {
    match k {
        TokenKind::Identifier(name) => name,
        TokenKind::Integer(v) => decimal(v as int),
        TokenKind::LeftBracket => "("@,
        TokenKind::RightBracket => ")"@,
        TokenKind::If => "if"@,
        TokenKind::Define => "define"@,
    }
}

impl TokenType {
    /// Append the source text of the token to `out`.
    pub fn write_to(&self, out: &mut String)
        ensures
            final(out)@ == old(out)@ + token_text(self@),
    {
        match self {
            TokenType::Identifier(name) => out.append(name.as_str()),
            TokenType::Integer(v) => push_decimal(out, *v),
            TokenType::LeftBracket => out.append("("),
            TokenType::RightBracket => out.append(")"),
            TokenType::If => out.append("if"),
            TokenType::Define => out.append("define"),
        }
    }

    /// Turn a name into a `TokenType`. If the name is a keyword, the keyword's `TokenType` will be
    /// returned, otherwise the name is an identifier.
    pub fn identifier_or_keyword(name: String) -> (r: TokenType)
        ensures
            r@ == keyword_or_identifier(name@),
    {
        proof {
            reveal_strlit("if");
            reveal_strlit("define");
            assert("if"@ =~= if_word());
            assert("define"@ =~= define_word());
        }
        if spelled(name.as_str(), "if") {
            TokenType::If
        } else if spelled(name.as_str(), "define") {
            TokenType::Define
        } else {
            TokenType::Identifier(name)
        }
    }
}

} // verus!
