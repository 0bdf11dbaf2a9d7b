//! An interpreter for a small parenthesized language of integers, definitions, conditionals and
//! function calls: a lexer, a recursive-descent parser and a tree-walking evaluator.
pub mod ast;
pub mod interpreter;
pub mod lexer;
pub mod parser;
pub mod prelude;
pub mod token;

use vstd::prelude::*;

verus! {

/// Relies on `String::push`: appends `c` to the end of `s`.
#[verifier::external_body]
pub(crate) fn push_char(s: &mut String, c: char)
    ensures
        final(s)@ == old(s)@.push(c),
{
    s.push(c)
}

/// The type of an identifier.
pub type Identifier = String;

/// A position in a file, consisting of a line number and a column number.
#[derive(Clone, Copy, Debug, Default, PartialEq, Eq, Structural)]
pub struct Position {
    /// The line number in a file.
    pub line: usize,
    /// The column number in a file.
    pub column: usize,
}

/// The position after reading the character `c` at position `p`: a newline starts the next
/// line, any other character moves one column on.
pub open spec fn advance(p: Position, c: char) -> Position {
    if c == '\n' {
        Position { line: (p.line + 1) as usize, column: 1 }
    } else {
        Position { line: p.line, column: (p.column + 1) as usize }
    }
}

/// The position after reading `s[i..j]` from position `p`.
pub open spec fn advance_over(p: Position, s: Seq<char>, i: int, j: int) -> Position
    decreases j - i,
{
    if j <= i {
        p
    } else {
        advance(advance_over(p, s, i, j - 1), s[j - 1])
    }
}

/// The text of a position: `line:column`.
pub open spec fn position_text(p: Position) -> Seq<char> {
    crate::interpreter::digits(p.line as nat) + ":"@ + crate::interpreter::digits(p.column as nat)
}

impl Position {
    /// Append the text of the position, `line:column`, to `out`.
    pub fn write_to(&self, out: &mut String)
        ensures
            final(out)@ == old(out)@ + position_text(*self),
    {
        crate::interpreter::push_digits(out, self.line as u64);
        out.append(":");
        crate::interpreter::push_digits(out, self.column as u64);
        assert(final(out)@ =~= old(out)@ + position_text(*self));
    }

    /// Create a new `Position`.
    pub fn new(line: usize, column: usize) -> (r: Position)
        ensures
            r == (Position { line, column }),
    {
        Position { line, column }
    }

    /// Go to the beginning of the next line.
    pub fn next_line(&mut self)
        requires
            old(self).line < usize::MAX,
        ensures
            *final(self) == advance(*old(self), '\n'),
    {
        self.line = self.line + 1;
        self.column = 1;
    }

    /// Go to the next column.
    pub fn next_column(&mut self)
        requires
            old(self).column < usize::MAX,
        ensures
            final(self).line == old(self).line,
            final(self).column == old(self).column + 1,
    {
        self.column = self.column + 1;
    }
}

} // verus!
