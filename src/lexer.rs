//! `lexer` contains the `Lexer`, which turns a stream of characters into a stream of `Token`s.
mod error;

pub use self::error::{lex_fault_message, LexFault, LexerError, LexerResult};

use crate::token::{keyword_or_identifier, Token, TokenKind, TokenType};
use crate::{advance, advance_over, push_char, Position};
use vstd::prelude::*;
use vstd::std_specs::iter::IteratorSpec;

verus! {

/// Whether `c` has Unicode's White_Space property, as `char::is_whitespace` decides it.
pub open spec fn whitespace_of(c: char) -> bool {
    ||| '\t' <= c <= '\r'
    ||| c == ' '
    ||| c == '\u{85}'
    ||| c == '\u{a0}'
    ||| c == '\u{1680}'
    ||| '\u{2000}' <= c <= '\u{200a}'
    ||| c == '\u{2028}'
    ||| c == '\u{2029}'
    ||| c == '\u{202f}'
    ||| c == '\u{205f}'
    ||| c == '\u{3000}'
}

/// Whether `c` has Unicode's Alphabetic property, as `char::is_alphabetic` decides it.
pub uninterp spec fn alphabetic_of(c: char) -> bool;

/// Relies on `char::is_whitespace`: whether `c` has the White_Space property.
#[verifier::external_body]
fn is_whitespace(c: char) -> (r: bool)
    ensures
        r == whitespace_of(c),
{
    c.is_whitespace()
}

/// Relies on `char::is_alphabetic`: whether `c` has the Alphabetic property, which among ASCII
/// characters the letters `a` to `z` and `A` to `Z` have, and no other.
#[verifier::external_body]
fn is_alphabetic(c: char) -> (r: bool)
    ensures
        r == alphabetic_of(c),
        (c as u32) < 128 ==> (r <==> ('a' <= c <= 'z' || 'A' <= c <= 'Z')),
{
    c.is_alphabetic()
}

/// A decimal digit.
pub open spec fn is_digit(c: char) -> bool {
    '0' <= c && c <= '9'
}

/// The symbols that may stand in an identifier: ``'!@#$%^&*-=+|:/?,.<>`~_``.
pub open spec fn is_symbol(c: char) -> bool {
    c == '\'' || c == '!' || c == '@' || c == '#' || c == '$' || c == '%' || c == '^' || c == '&'
        || c == '*' || c == '-' || c == '=' || c == '+' || c == '|' || c == ':' || c == '/' || c
        == '?' || c == ',' || c == '.' || c == '<' || c == '>' || c == '`' || c == '~' || c == '_'
}

/// An alphabetic character: among ASCII characters the letters `a` to `z` and `A` to `Z`, beyond
/// ASCII those with Unicode's Alphabetic property.
pub open spec fn is_letter(c: char) -> bool {
    if (c as u32) < 128 {
        'a' <= c <= 'z' || 'A' <= c <= 'Z'
    } else {
        alphabetic_of(c)
    }
}

/// A character that may begin an identifier.
pub open spec fn is_identifier_begin(c: char) -> bool {
    is_letter(c) || is_symbol(c)
}

/// A character that may continue an identifier.
pub open spec fn is_identifier_char(c: char) -> bool {
    is_letter(c) || is_digit(c) || is_symbol(c)
}

/// The index of the first character at or after `i` that is neither whitespace nor part of a
/// comment; `in_comment` says whether `i` lies inside a comment. A comment runs from `;` up to and
/// including the next newline.
pub open spec fn trivia_end(s: Seq<char>, i: int, in_comment: bool) -> int
    decreases s.len() - i,
{
    if i < 0 || i >= s.len() {
        i
    } else if in_comment {
        trivia_end(s, i + 1, s[i] != '\n')
    } else if whitespace_of(s[i]) {
        trivia_end(s, i + 1, false)
    } else if s[i] == ';' {
        trivia_end(s, i + 1, true)
    } else {
        i
    }
}

/// The end of the longest run from `i` of digits (`digits`) or of identifier characters.
pub open spec fn run_end(s: Seq<char>, i: int, digits: bool) -> int
    decreases s.len() - i,
{
    if 0 <= i < s.len() && (if digits {
        is_digit(s[i])
    } else {
        is_identifier_char(s[i])
    }) {
        run_end(s, i + 1, digits)
    } else {
        i
    }
}

/// The number that a sequence of decimal digits denotes.
pub open spec fn digits_value(d: Seq<char>) -> int
    decreases d.len(),
{
    if d.len() == 0 {
        0
    } else {
        digits_value(d.drop_last()) * 10 + (d.last() as int - '0' as int)
    }
}

/// What an integer literal that does not fit in 64 bits is reported as.
pub open spec fn too_large_message() -> Seq<char> {
    "number too large to fit in target type"@
}

/// The outcome of one request for a token.
pub enum LexStep {
    Token(TokenKind, Position),
    Error(LexFault),
    End,
}

/// The mathematical value of what `Lexer::next_token` returns.
pub open spec fn lex_view(r: LexerResult<Token>) -> LexStep {
    match r {
        LexerResult::Item(t) => LexStep::Token(t.token@, t.position),
        LexerResult::Error(e) => LexStep::Error(e@),
        LexerResult::Eof => LexStep::End,
    }
}

/// One request for a token, on the characters `s` read up to index `i`, at position `p`: the
/// outcome and the index reached. Whitespace and comments are skipped first; the token's position
/// is the one reached there.
pub open spec fn lex_next(s: Seq<char>, i: int, p: Position) -> (LexStep, int) {
    let k = trivia_end(s, i, false);
    let q = advance_over(p, s, i, k);
    if k >= s.len() {
        (LexStep::End, k)
    } else if s[k] == '(' {
        (LexStep::Token(TokenKind::LeftBracket, q), k + 1)
    } else if s[k] == ')' {
        (LexStep::Token(TokenKind::RightBracket, q), k + 1)
    } else if is_digit(s[k]) {
        let e = run_end(s, k, true);
        let v = digits_value(s.subrange(k, e));
        if v <= i64::MAX {
            (LexStep::Token(TokenKind::Integer(v as i64), q), e)
        } else {
            (LexStep::Error(LexFault::Other(too_large_message(), q)), e)
        }
    } else if is_identifier_begin(s[k]) {
        let e = run_end(s, k + 1, false);
        (LexStep::Token(keyword_or_identifier(s.subrange(k, e)), q), e)
    } else {
        (LexStep::Error(LexFault::UnexpectedCharacter(s[k], q)), k)
    }
}

/// `Lexer` turns a stream of characters into `Token`s.
pub struct Lexer {
    /// The characters that serve as input.
    input: Vec<char>,
    /// The index of the next character to read.
    index: usize,
    /// The current position.
    position: Position,
}

impl Lexer {
    /// The input characters.
    pub closed spec fn chars(&self) -> Seq<char> {
        self.input@
    }

    /// The index of the next character to read.
    pub closed spec fn index(&self) -> int {
        self.index as int
    }

    /// The current position.
    pub closed spec fn pos(&self) -> Position {
        self.position
    }

    /// The index stays within the input, and the position's counters stay below the number of
    /// characters read plus one, so that neither can overflow.
    pub closed spec fn wf(&self) -> bool {
        &&& self.index <= self.input@.len() < usize::MAX
        &&& self.position.line <= self.index + 1
        &&& self.position.column <= self.index + 1
    }

    /// The index of a well-formed `Lexer` lies within its input.
    pub proof fn lemma_index_in_input(&self)
        requires
            self.wf(),
        ensures
            0 <= self.index() <= self.chars().len(),
    {
    }

    /// Create a new `Lexer` with an input.
    pub fn new(input: &str) -> (r: Lexer)
        requires
            input@.len() < usize::MAX,
        ensures
            r.wf(),
            r.chars() == input@,
            r.index() == 0,
            r.pos() == (Position { line: 1, column: 1 }),
    {
        broadcast use vstd::string::group_string_axioms;

        let mut chars: Vec<char> = Vec::new();
        let mut it = input.chars();
        loop
            invariant
                chars@ + it.remaining() == input@,
                it.decrease() is Some,
            ensures
                chars@ == input@,
            decreases it.decrease()->0,
        {
            match it.next() {
                Some(c) => {
                    chars.push(c);
                },
                None => {
                    assert(chars@ =~= input@);
                    break;
                },
            }
        }
        Lexer { input: chars, index: 0, position: Position::new(1, 1) }
    }

    /// The current position.
    pub fn position(&self) -> (r: Position)
        ensures
            r == self.pos(),
    {
        self.position
    }

    /// Returns the next token in the input. If there is no next token, returns `Eof`.
    pub fn next_token(&mut self) -> (r: LexerResult<Token>)
        requires
            old(self).wf(),
        ensures
            final(self).wf(),
            final(self).chars() == old(self).chars(),
            lex_view(r) == lex_next(old(self).chars(), old(self).index(), old(self).pos()).0,
            final(self).index() == lex_next(old(self).chars(), old(self).index(), old(self).pos()).1,
            final(self).pos() == advance_over(
                old(self).pos(),
                old(self).chars(),
                old(self).index(),
                final(self).index(),
            ),
    {
        let ghost s = self.input@;
        let ghost start = self.index as int;
        let ghost p = self.position;
        self.skip_whitespace();
        let position = self.position;
        let ch = match self.peek_char() {
            Some(ch) => ch,
            None => return LexerResult::Eof,
        };
        let ghost k = self.index as int;
        proof {
            lemma_trivia_end_bounds(s, start, false);
            lemma_run_end_bounds(s, k, true);
            lemma_run_end_bounds(s, k + 1, false);
        }
        let token = if ch == '(' {
            self.read_char();
            TokenType::LeftBracket
        } else if ch == ')' {
            self.read_char();
            TokenType::RightBracket
        } else if ('0' <= ch && ch <= '9') {
            match self.read_number() {
                Some(v) => TokenType::Integer(v),
                None => {
                    proof {
                        lemma_advance_over_split(p, s, start, k, self.index as int);
                    }
                    return LexerResult::Error(
                        LexerError::Other {
                            error: String::from_str("number too large to fit in target type"),
                            position,
                        },
                    );
                },
            }
        } else if Lexer::is_identifier_begin(ch) {
            TokenType::identifier_or_keyword(self.read_identifier())
        } else {
            return LexerResult::Error(LexerError::UnexpectedCharacter { ch, position });
        };
        proof {
            lemma_advance_over_split(p, s, start, k, self.index as int);
        }
        LexerResult::Item(Token { token, position })
    }

    /// Returns what `next_token` would return, without consuming it.
    pub fn peek_token(&mut self) -> (r: LexerResult<Token>)
        requires
            old(self).wf(),
        ensures
            final(self).wf(),
            final(self).chars() == old(self).chars(),
            final(self).index() == old(self).index(),
            final(self).pos() == old(self).pos(),
            lex_view(r) == lex_next(old(self).chars(), old(self).index(), old(self).pos()).0,
    {
        let index = self.index;
        let position = self.position;
        let r = self.next_token();
        self.index = index;
        self.position = position;
        r
    }

    /// Read the next char.
    fn read_char(&mut self) -> (r: Option<char>)
        requires
            old(self).wf(),
        ensures
            final(self).wf(),
            final(self).input@ == old(self).input@,
            old(self).index < old(self).input@.len() ==> {
                &&& r == Some(old(self).input@[old(self).index as int])
                &&& final(self).index == old(self).index + 1
                &&& final(self).position == advance(
                    old(self).position,
                    old(self).input@[old(self).index as int],
                )
            },
            old(self).index >= old(self).input@.len() ==> r is None && *final(self) == *old(self),
    {
        if self.index >= self.input.len() {
            return None;
        }
        let ch = self.input[self.index];
        self.index = self.index + 1;
        if ch == '\n' {
            self.position.next_line();
        } else {
            self.position.next_column();
        }
        Some(ch)
    }

    /// Peek the next char.
    fn peek_char(&self) -> (r: Option<char>)
        requires
            self.wf(),
        ensures
            self.index < self.input@.len() ==> r == Some(self.input@[self.index as int]),
            self.index >= self.input@.len() ==> r is None,
    {
        if self.index < self.input.len() {
            Some(self.input[self.index])
        } else {
            None
        }
    }

    /// Skip all whitespace characters and comments.
    fn skip_whitespace(&mut self)
        requires
            old(self).wf(),
        ensures
            final(self).wf(),
            final(self).input@ == old(self).input@,
            final(self).index == trivia_end(old(self).input@, old(self).index as int, false),
            final(self).position == advance_over(
                old(self).position,
                old(self).input@,
                old(self).index as int,
                final(self).index as int,
            ),
    {
        let ghost s = self.input@;
        let ghost start = self.index as int;
        let ghost p = self.position;
        let mut in_comment = false;
        loop
            invariant
                self.wf(),
                self.input@ == s,
                start <= self.index,
                trivia_end(s, self.index as int, in_comment) == trivia_end(s, start, false),
                self.position == advance_over(p, s, start, self.index as int),
            ensures
                self.wf(),
                self.input@ == s,
                self.index == trivia_end(s, start, false),
                self.position == advance_over(p, s, start, self.index as int),
            decreases s.len() - self.index,
        {
            match self.peek_char() {
                None => break,
                Some(ch) => {
                    if in_comment {
                        self.read_char();
                        in_comment = ch != '\n';
                    } else if is_whitespace(ch) {
                        self.read_char();
                    } else if ch == ';' {
                        self.read_char();
                        in_comment = true;
                    } else {
                        break;
                    }
                },
            }
        }
    }

    /// Read an identifier and collect it into a `String`.
    /// This function must only be called when the next char in the input is an identifier beginner
    /// (see `Lexer::is_identifier_begin`).
    fn read_identifier(&mut self) -> (r: String)
        requires
            old(self).wf(),
            old(self).index < old(self).input@.len(),
        ensures
            final(self).wf(),
            final(self).input@ == old(self).input@,
            final(self).index == run_end(old(self).input@, old(self).index + 1, false),
            r@ == old(self).input@.subrange(old(self).index as int, final(self).index as int),
            final(self).position == advance_over(
                old(self).position,
                old(self).input@,
                old(self).index as int,
                final(self).index as int,
            ),
    {
        let ghost s = self.input@;
        let ghost start = self.index as int;
        let ghost p = self.position;
        let mut ident = String::new();
        let first = self.read_char();
        push_char(&mut ident, first.unwrap());
        assert(ident@ =~= s.subrange(start, self.index as int));
        assert(advance_over(p, s, start, start) == p);
        loop
            invariant
                self.wf(),
                self.input@ == s,
                0 <= start < self.index,
                run_end(s, self.index as int, false) == run_end(s, start + 1, false),
                ident@ == s.subrange(start, self.index as int),
                self.position == advance_over(p, s, start, self.index as int),
            ensures
                self.wf(),
                self.input@ == s,
                self.index == run_end(s, start + 1, false),
                ident@ == s.subrange(start, self.index as int),
                self.position == advance_over(p, s, start, self.index as int),
            decreases s.len() - self.index,
        {
            match self.peek_char() {
                Some(ch) => {
                    if Lexer::is_identifier(ch) {
                        let ghost before = self.index as int;
                        self.read_char();
                        push_char(&mut ident, ch);
                        proof {
                            lemma_subrange_extend(s, start, before);
                        }
                    } else {
                        break;
                    }
                },
                None => break,
            }
        }
        ident
    }

    /// Read a number. Returns `None` if its value does not fit in an `i64`; the digits are
    /// consumed either way.
    /// This function must only be called when the next char in the input is a digit.
    fn read_number(&mut self) -> (r: Option<i64>)
        requires
            old(self).wf(),
        ensures
            final(self).wf(),
            final(self).input@ == old(self).input@,
            final(self).index == run_end(old(self).input@, old(self).index as int, true),
            ({
                let v = digits_value(
                    old(self).input@.subrange(old(self).index as int, final(self).index as int),
                );
                if v <= i64::MAX {
                    r == Some(v as i64)
                } else {
                    r is None
                }
            }),
            final(self).position == advance_over(
                old(self).position,
                old(self).input@,
                old(self).index as int,
                final(self).index as int,
            ),
    {
        let ghost s = self.input@;
        let ghost start = self.index as int;
        let ghost p = self.position;
        let mut value: i64 = 0;
        let mut too_large = false;
        assert(s.subrange(start, start).len() == 0);
        loop
            invariant
                self.wf(),
                self.input@ == s,
                0 <= start <= self.index,
                run_end(s, self.index as int, true) == run_end(s, start, true),
                !too_large ==> value == digits_value(s.subrange(start, self.index as int)),
                too_large ==> digits_value(s.subrange(start, self.index as int)) > i64::MAX,
                value >= 0,
                self.position == advance_over(p, s, start, self.index as int),
            ensures
                self.wf(),
                self.input@ == s,
                self.index == run_end(s, start, true),
                !too_large ==> value == digits_value(s.subrange(start, self.index as int)),
                too_large ==> digits_value(s.subrange(start, self.index as int)) > i64::MAX,
                self.position == advance_over(p, s, start, self.index as int),
            decreases s.len() - self.index,
        {
            match self.peek_char() {
                Some(ch) => {
                    if ('0' <= ch && ch <= '9') {
                        self.read_char();
                        proof {
                            lemma_subrange_extend(s, start, self.index - 1);
                        }
                        let d = (ch as u32 - '0' as u32) as i64;
                        if !too_large {
                            if value > (i64::MAX - d) / 10 {
                                assert(value * 10 + d > i64::MAX) by (nonlinear_arith)
                                    requires
                                        value > (i64::MAX - d) / 10,
                                        0 <= d <= 9,
                                ;
                                too_large = true;
                            } else {
                                assert(value * 10 + d <= i64::MAX) by (nonlinear_arith)
                                    requires
                                        value <= (i64::MAX - d) / 10,
                                        0 <= d <= 9,
                                ;
                                value = value * 10 + d;
                            }
                        }
                    } else {
                        break;
                    }
                },
                None => break,
            }
        }
        if too_large {
            None
        } else {
            Some(value)
        }
    }

    /// Returns whether `ch` is alphabetic. ASCII characters are decided here; others by their
    /// Unicode property.
    fn is_letter(ch: char) -> (r: bool)
        ensures
            r == is_letter(ch),
    {
        if (ch as u32) < 128 {
            ('a' <= ch && ch <= 'z') || ('A' <= ch && ch <= 'Z')
        } else {
            is_alphabetic(ch)
        }
    }

    /// Returns whether `ch` can be the begin of an identifier.
    fn is_identifier_begin(ch: char) -> (r: bool)
        ensures
            r == is_identifier_begin(ch),
    {
        Lexer::is_symbol(ch) || Lexer::is_letter(ch)
    }

    /// Returns whether `ch` can be inside an identifier.
    fn is_identifier(ch: char) -> (r: bool)
        ensures
            r == is_identifier_char(ch),
    {
        ('0' <= ch && ch <= '9') || Lexer::is_symbol(ch) || Lexer::is_letter(ch)
    }

    /// Returns whether `ch` is one of the symbols allowed in identifiers.
    fn is_symbol(ch: char) -> (r: bool)
        ensures
            r == is_symbol(ch),
    {
        ch == '\'' || ch == '!' || ch == '@' || ch == '#' || ch == '$' || ch == '%' || ch == '^'
            || ch == '&' || ch == '*' || ch == '-' || ch == '=' || ch == '+' || ch == '|' || ch
            == ':' || ch == '/' || ch == '?' || ch == ',' || ch == '.' || ch == '<' || ch == '>'
            || ch == '`' || ch == '~' || ch == '_'
    }
}

/// A request for a token moves forward and stays within the input; one that yields a token
/// consumes at least one character.
pub proof fn lemma_lex_next_advances(s: Seq<char>, i: int, p: Position)
    requires
        0 <= i <= s.len(),
    ensures
        i <= lex_next(s, i, p).1 <= s.len(),
        lex_next(s, i, p).0 is Token ==> i < lex_next(s, i, p).1,
{
    let k = trivia_end(s, i, false);
    lemma_trivia_end_bounds(s, i, false);
    if k < s.len() {
        lemma_run_end_bounds(s, k + 1, false);
        lemma_run_end_bounds(s, k + 1, true);
    }
}

/// Skipping whitespace and comments from `i` ends between `i` and the end of `s`.
proof fn lemma_trivia_end_bounds(s: Seq<char>, i: int, in_comment: bool)
    requires
        0 <= i <= s.len(),
    ensures
        i <= trivia_end(s, i, in_comment) <= s.len(),
    decreases s.len() - i,
{
    if i < s.len() {
        lemma_trivia_end_bounds(s, i + 1, s[i] != '\n');
        lemma_trivia_end_bounds(s, i + 1, false);
        lemma_trivia_end_bounds(s, i + 1, true);
    }
}

/// A run from `i` ends between `i` and the end of `s`.
proof fn lemma_run_end_bounds(s: Seq<char>, i: int, digits: bool)
    requires
        0 <= i <= s.len(),
    ensures
        i <= run_end(s, i, digits) <= s.len(),
    decreases s.len() - i,
{
    if i < s.len() {
        lemma_run_end_bounds(s, i + 1, digits);
    }
}

/// Extending a range of `s` by the character at `j`.
proof fn lemma_subrange_extend(s: Seq<char>, i: int, j: int)
    requires
        0 <= i <= j < s.len(),
    ensures
        s.subrange(i, j + 1) == s.subrange(i, j).push(s[j]),
        s.subrange(i, j + 1).drop_last() == s.subrange(i, j),
        s.subrange(i, j + 1).last() == s[j],
{
    assert(s.subrange(i, j + 1) =~= s.subrange(i, j).push(s[j]));
    assert(s.subrange(i, j + 1).drop_last() =~= s.subrange(i, j));
}

/// Reading `s[i..k]` and then `s[k..j]` ends where reading `s[i..j]` does.
proof fn lemma_advance_over_split(p: Position, s: Seq<char>, i: int, k: int, j: int)
    requires
        i <= k <= j,
    ensures
        advance_over(advance_over(p, s, i, k), s, k, j) == advance_over(p, s, i, j),
    decreases j - k,
{
    if j > k {
        lemma_advance_over_split(p, s, i, k, j - 1);
    }
}

} // verus!
