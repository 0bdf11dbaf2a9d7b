//! `parser` contains the `Parser`, which turns a stream of `Token`s into a stream of `AST`s.
mod error;

pub use self::error::{parse_fault_message, ParseError, ParseFault, ParseResult};

use crate::ast::{
    lemma_trees_of, lemma_trees_of_push, names_of, tree_of, trees_of, ASTType, Tree, TreeKind, AST,
};
use crate::interpreter::{digit_char, digits, display_of, Val};
use crate::lexer::{
    digits_value, is_digit, lemma_lex_next_advances, lex_next, lex_view, run_end, trivia_end,
    LexStep, Lexer, LexerResult,
};
use crate::token::{Token, TokenKind, TokenType};
use crate::{advance_over, Identifier, Position};
use vstd::prelude::*;

verus! {

/// Where reading stands: an index into the characters and the position there.
pub struct Cursor {
    pub index: int,
    pub position: Position,
}

/// The outcome of parsing one expression.
pub enum ParseStep {
    Done(Tree),
    Fault(ParseFault),
    End,
}

/// The mathematical value of what `Parser::parse_expression` returns.
pub open spec fn parse_view(r: ParseResult<AST>) -> ParseStep {
    match r {
        ParseResult::Item(a) => ParseStep::Done(a@),
        ParseResult::Error(e) => ParseStep::Fault(e@),
        ParseResult::Eof => ParseStep::End,
    }
}

/// The next token from cursor `c`, and the cursor after it.
pub open spec fn next_at(s: Seq<char>, c: Cursor) -> (LexStep, Cursor) {
    let (t, j) = lex_next(s, c.index, c.position);
    (t, Cursor { index: j, position: advance_over(c.position, s, c.index, j) })
}

/// `d` lies after `c`, within the input.
pub open spec fn advanced(s: Seq<char>, c: Cursor, d: Cursor) -> bool {
    c.index < d.index <= s.len()
}

/// `d` lies at or after `c`, within the input.
pub open spec fn within(s: Seq<char>, c: Cursor, d: Cursor) -> bool {
    c.index <= d.index <= s.len()
}

/// What is reported when the input ends after `(`.
pub open spec fn form_expected() -> Seq<char> {
    "`if`, `define`, a value, or an identifier"@
}

/// What is reported when the input ends inside a function call.
pub open spec fn argument_expected() -> Seq<char> {
    "function parameter or `)`"@
}

/// What is reported when the input ends before a closing bracket.
pub open spec fn bracket_expected() -> Seq<char> {
    "`)`"@
}

/// What is reported when the input ends before the condition of an `if`.
pub open spec fn condition_expected() -> Seq<char> {
    "condition in if expression"@
}

/// What is reported when the input ends before the consequence of an `if`.
pub open spec fn consequence_expected() -> Seq<char> {
    "consequence in if expression"@
}

/// What is reported when the input ends before the alternative of an `if`.
pub open spec fn alternative_expected() -> Seq<char> {
    "alternative in if expression"@
}

/// What is reported when the input ends before the name or the head of a `define`.
pub open spec fn define_head_expected() -> Seq<char> {
    "name or parameter list in define expression"@
}

/// What is reported when the input ends before the value of a `define`.
pub open spec fn define_value_expected() -> Seq<char> {
    "value in define expression"@
}

/// The failure of a sub-expression that was required: its own error, or, at the end of the
/// input, an unexpected end naming `expected`.
pub open spec fn slot_failure(e: ParseStep, expected: Seq<char>) -> ParseStep {
    match e {
        ParseStep::End => ParseStep::Fault(ParseFault::UnexpectedEof(expected)),
        _ => e,
    }
}

/// The closing bracket of a form whose contents make `tree`.
pub open spec fn close(s: Seq<char>, c: Cursor, tree: Tree) -> (ParseStep, Cursor) {
    let (t, c1) = next_at(s, c);
    (
        match t {
            LexStep::Token(TokenKind::RightBracket, _) => ParseStep::Done(tree),
            LexStep::Token(k, q) => ParseStep::Fault(ParseFault::UnexpectedToken(k, q)),
            LexStep::Error(f) => ParseStep::Fault(ParseFault::Lexer(f)),
            LexStep::End => ParseStep::Fault(ParseFault::UnexpectedEof(bracket_expected())),
        },
        c1,
    )
}

/// The parameter names of a function definition's head: the names of `args` if each is an
/// identifier, else the first that is not.
pub open spec fn parameters_of(args: Seq<Tree>) -> Result<Seq<Seq<char>>, Tree>
    decreases args.len(),
{
    if args.len() == 0 {
        Ok(Seq::empty())
    } else {
        match parameters_of(args.drop_last()) {
            Ok(ps) => match args.last().kind {
                TreeKind::Identifier(n) => Ok(ps.push(n)),
                _ => Err(args.last()),
            },
            Err(bad) => Err(bad),
        }
    }
}

/// Once a prefix of `args` holds a non-identifier, every longer prefix reports that one.
proof fn lemma_parameters_of_error(args: Seq<Tree>, i: int)
    requires
        0 <= i < args.len(),
        parameters_of(args.subrange(0, i)) is Ok,
        !(args[i].kind is Identifier),
    ensures
        parameters_of(args) == Err::<Seq<Seq<char>>, Tree>(args[i]),
    decreases args.len() - i,
{
    let k = args.len();
    assert(args.subrange(0, i + 1).drop_last() =~= args.subrange(0, i));
    if i + 1 == k {
        assert(args.subrange(0, i + 1) =~= args);
    } else {
        lemma_parameters_of_error_extends(args, i, i + 1);
    }
}

/// An error in the prefix `args[..j]` found at `args[i]` stays the answer for longer prefixes.
proof fn lemma_parameters_of_error_extends(args: Seq<Tree>, i: int, j: int)
    requires
        0 <= i < j <= args.len(),
        parameters_of(args.subrange(0, j)) == Err::<Seq<Seq<char>>, Tree>(args[i]),
    ensures
        parameters_of(args) == Err::<Seq<Seq<char>>, Tree>(args[i]),
    decreases args.len() - j,
{
    if j == args.len() {
        assert(args.subrange(0, j) =~= args);
    } else {
        assert(args.subrange(0, j + 1).drop_last() =~= args.subrange(0, j));
        lemma_parameters_of_error_extends(args, i, j + 1);
    }
}

/// Every character of the decimal digits of `n` is a digit, and there is at least one.
proof fn lemma_digits_are_digits(n: nat)
    ensures
        digits(n).len() >= 1,
        forall|i: int| 0 <= i < digits(n).len() ==> is_digit(#[trigger] digits(n)[i]),
    decreases n,
{
    if n >= 10 {
        lemma_digits_are_digits(n / 10);
    }
}

/// The digit character of `x` lies `x` places after `0`.
proof fn lemma_digit_char(x: nat)
    requires
        x < 10,
    ensures
        digit_char(x) as int - '0' as int == x,
{
}

/// The decimal digits of `n` denote `n`.
proof fn lemma_digits_value(n: nat)
    ensures
        digits_value(digits(n)) == n,
    decreases n,
{
    let d = digits(n);
    lemma_digit_char((n % 10) as nat);
    assert(d.len() > 0);
    assert(digits_value(d) == digits_value(d.drop_last()) * 10 + (d.last() as int - '0' as int));
    if n >= 10 {
        lemma_digits_value(n / 10);
        assert(d.drop_last() =~= digits(n / 10));
        assert(d.last() == digit_char((n % 10) as nat));
        assert(n == (n / 10) * 10 + n % 10) by (nonlinear_arith);
    } else {
        assert(d.drop_last() =~= Seq::<char>::empty());
        assert(d.last() == digit_char(n));
    }
}

/// A run of digits from `i` reaches the end of `s` when every character from `i` on is a digit.
proof fn lemma_run_end_all_digits(s: Seq<char>, i: int)
    requires
        0 <= i <= s.len(),
        forall|j: int| i <= j < s.len() ==> is_digit(#[trigger] s[j]),
    ensures
        run_end(s, i, true) == s.len(),
    decreases s.len() - i,
{
    if i < s.len() {
        lemma_run_end_all_digits(s, i + 1);
    }
}

/// What a non-negative integer is displayed as parses back to that integer: one integer
/// expression, at the position where reading starts.
pub proof fn lemma_integer_round_trip(v: i64, p: Position)
    requires
        v >= 0,
    ensures
        parse_expr(display_of(Val::Integer(v)), Cursor { index: 0, position: p }).0
            == ParseStep::Done(Tree { kind: TreeKind::Integer(v), position: p }),
{
    let s = display_of(Val::Integer(v));
    assert(s == digits(v as nat));
    lemma_digits_are_digits(v as nat);
    lemma_digits_value(v as nat);
    lemma_run_end_all_digits(s, 0);
    assert(trivia_end(s, 0, false) == 0);
    assert(s.subrange(0, s.len() as int) =~= s);
}

/// Parse one expression from cursor `c`:
/// `expression := INTEGER | IDENTIFIER | '(' form`.
pub open spec fn parse_expr(s: Seq<char>, c: Cursor) -> (ParseStep, Cursor)
    decreases s.len() - c.index, 0int,
{
    let (t, c1) = next_at(s, c);
    match t {
        LexStep::End => (ParseStep::End, c1),
        LexStep::Error(f) => (ParseStep::Fault(ParseFault::Lexer(f)), c1),
        LexStep::Token(k, q) => match k {
            TokenKind::Integer(v) => (
                ParseStep::Done(Tree { kind: TreeKind::Integer(v), position: q }),
                c1,
            ),
            TokenKind::Identifier(n) => (
                ParseStep::Done(Tree { kind: TreeKind::Identifier(n), position: q }),
                c1,
            ),
            TokenKind::LeftBracket => if advanced(s, c, c1) {
                parse_form(s, c1, q)
            } else {
                (ParseStep::End, c1)
            },
            _ => (ParseStep::Fault(ParseFault::UnexpectedToken(k, q)), c1),
        },
    }
}

/// Parse what follows `(`, which stood at `p`: the next token decides the form, and the form's
/// tree takes the position of the `(`.
pub open spec fn parse_form(s: Seq<char>, c: Cursor, p: Position) -> (ParseStep, Cursor)
    decreases s.len() - c.index, 3int,
{
    let (t, c1) = next_at(s, c);
    match t {
        LexStep::Token(TokenKind::Identifier(_), _) => parse_call(s, c, p),
        LexStep::Token(TokenKind::If, _) => parse_if(s, c, p),
        LexStep::Token(TokenKind::Define, _) => parse_define(s, c, p),
        LexStep::Token(k, q) => (ParseStep::Fault(ParseFault::UnexpectedToken(k, q)), c1),
        LexStep::Error(f) => (ParseStep::Fault(ParseFault::Lexer(f)), c1),
        LexStep::End => (ParseStep::Fault(ParseFault::UnexpectedEof(form_expected())), c1),
    }
}

/// Parse a function call from its name on: `IDENTIFIER {expression} ')'`; the call sits at `p`,
/// where its `(` stood.
pub open spec fn parse_call(s: Seq<char>, c: Cursor, p: Position) -> (ParseStep, Cursor)
    decreases s.len() - c.index, 2int,
{
    let (t, c1) = next_at(s, c);
    match t {
        LexStep::Token(TokenKind::Identifier(name), _) => if advanced(s, c, c1) {
            match parse_args(s, c1, Seq::empty()) {
                (Ok(args), c2) => (
                    ParseStep::Done(
                        Tree {
                            kind: TreeKind::FunctionCall { name, arguments: args },
                            position: p,
                        },
                    ),
                    c2,
                ),
                (Err(f), c2) => (ParseStep::Fault(f), c2),
            }
        } else {
            (ParseStep::End, c1)
        },
        _ => (ParseStep::End, c1),
    }
}

/// Parse the arguments of a function call up to and including `)`, after those in `acc`.
pub open spec fn parse_args(s: Seq<char>, c: Cursor, acc: Seq<Tree>) -> (
    Result<Seq<Tree>, ParseFault>,
    Cursor,
)
    decreases s.len() - c.index, 1int,
{
    let (t, c1) = next_at(s, c);
    if t matches LexStep::Token(TokenKind::RightBracket, _) {
        (Ok(acc), c1)
    } else {
        let (e, c2) = parse_expr(s, c);
        match e {
            ParseStep::Done(arg) => if advanced(s, c, c2) {
                parse_args(s, c2, acc.push(arg))
            } else {
                (Ok(acc), c2)
            },
            ParseStep::Fault(f) => (Err(f), c2),
            ParseStep::End => (Err(ParseFault::UnexpectedEof(argument_expected())), c2),
        }
    }
}

/// Parse an `if` form from the keyword on: `IF_KW expression expression expression ')'`; the
/// form sits at `p`, where its `(` stood.
pub open spec fn parse_if(s: Seq<char>, c: Cursor, p: Position) -> (ParseStep, Cursor)
    decreases s.len() - c.index, 2int,
{
    let c1 = next_at(s, c).1;
    if !advanced(s, c, c1) {
        (ParseStep::End, c1)
    } else {
        let (e1, c2) = parse_expr(s, c1);
        if !(e1 is Done) || !within(s, c1, c2) {
            (slot_failure(e1, condition_expected()), c2)
        } else {
            let (e2, c3) = parse_expr(s, c2);
            if !(e2 is Done) || !within(s, c2, c3) {
                (slot_failure(e2, consequence_expected()), c3)
            } else {
                let (e3, c4) = parse_expr(s, c3);
                if !(e3 is Done) {
                    (slot_failure(e3, alternative_expected()), c4)
                } else {
                    close(
                        s,
                        c4,
                        Tree {
                            kind: TreeKind::If {
                                condition: Box::new(e1->Done_0),
                                consequence: Box::new(e2->Done_0),
                                alternative: Box::new(e3->Done_0),
                            },
                            position: p,
                        },
                    )
                }
            }
        }
    }
}

/// Parse a `define` form from the keyword on, the form sitting at `p`, where its `(` stood:
/// `DEFINE_KW (IDENTIFIER | '(' IDENTIFIER {IDENTIFIER} ')') expression ')'`.
pub open spec fn parse_define(s: Seq<char>, c: Cursor, p: Position) -> (ParseStep, Cursor)
    decreases s.len() - c.index, 2int,
{
    let c1 = next_at(s, c).1;
    if !advanced(s, c, c1) {
        (ParseStep::End, c1)
    } else {
        let (e1, c2) = parse_expr(s, c1);
        if !(e1 is Done) || !within(s, c1, c2) {
            (slot_failure(e1, define_head_expected()), c2)
        } else {
            let head = e1->Done_0;
            let named: Result<(Seq<char>, Option<Seq<Seq<char>>>), Tree> = match head.kind {
                TreeKind::FunctionCall { name, arguments } => match parameters_of(arguments) {
                    Ok(ps) => Ok((name, Some(ps))),
                    Err(bad) => Err(bad),
                },
                TreeKind::Identifier(name) => Ok((name, None)),
                _ => Err(head),
            };
            match named {
                Err(bad) => (ParseStep::Fault(ParseFault::UnexpectedExpression(bad)), c2),
                Ok((name, parameters)) => {
                    let (e2, c3) = parse_expr(s, c2);
                    if !(e2 is Done) {
                        (slot_failure(e2, define_value_expected()), c3)
                    } else {
                        close(
                            s,
                            c3,
                            Tree {
                                kind: TreeKind::Define {
                                    name,
                                    parameters,
                                    value: Box::new(e2->Done_0),
                                },
                                position: p,
                            },
                        )
                    }
                },
            }
        }
    }
}

/// The `Parser` turns a stream of `Token`s into `AST`s.
pub struct Parser {
    /// The `Lexer`, from which the `Token`s will be read.
    lexer: Lexer,
}

impl Parser {
    /// The characters being parsed.
    pub closed spec fn chars(&self) -> Seq<char> {
        self.lexer.chars()
    }

    /// Where reading stands.
    pub closed spec fn cursor(&self) -> Cursor {
        Cursor { index: self.lexer.index(), position: self.lexer.pos() }
    }

    /// The underlying `Lexer` is well formed.
    pub closed spec fn wf(&self) -> bool {
        self.lexer.wf()
    }

    /// Create a new `Parser` with a `Lexer` that supplies `Token`s.
    pub fn new(lexer: Lexer) -> (r: Parser)
        requires
            lexer.wf(),
        ensures
            r.wf(),
            r.chars() == lexer.chars(),
            r.cursor() == (Cursor { index: lexer.index(), position: lexer.pos() }),
    {
        Parser { lexer }
    }

    /// Parse the next expression.
    pub fn parse_expression(&mut self) -> (r: ParseResult<AST>)
        requires
            old(self).wf(),
        ensures
            final(self).wf(),
            final(self).chars() == old(self).chars(),
            (parse_view(r), final(self).cursor()) == parse_expr(old(self).chars(), old(self).cursor()),
            within(old(self).chars(), old(self).cursor(), final(self).cursor()),
            r is Item ==> advanced(old(self).chars(), old(self).cursor(), final(self).cursor()),
        decreases old(self).chars().len() - old(self).cursor().index, 0int,
    {
        let token = match self.next_token() {
            ParseResult::Item(t) => t,
            ParseResult::Error(e) => return ParseResult::Error(e),
            ParseResult::Eof => return ParseResult::Eof,
        };
        let position = token.position;
        let ast = match token.token {
            TokenType::Integer(v) => ASTType::Integer(v),
            TokenType::Identifier(ident) => ASTType::Identifier(ident),
            TokenType::LeftBracket => return self.parse_function(position),
            TokenType::RightBracket | TokenType::Define | TokenType::If => {
                return ParseResult::Error(ParseError::UnexpectedToken(token));
            },
        };
        ParseResult::Item(AST { ast, position })
    }

    /// Peek the `TokenType` of the next `Token`; `None` at the end of the input or before an
    /// error.
    fn peek_token_type(&mut self) -> (r: Option<TokenType>)
        requires
            old(self).wf(),
        ensures
            final(self).wf(),
            final(self).chars() == old(self).chars(),
            final(self).cursor() == old(self).cursor(),
            match next_at(old(self).chars(), old(self).cursor()).0 {
                LexStep::Token(k, _) => r is Some && r->Some_0@ == k,
                _ => r is None,
            },
    {
        match self.lexer.peek_token() {
            LexerResult::Item(t) => Some(t.token),
            _ => None,
        }
    }

    /// Get the next `Token` in the stream.
    fn next_token(&mut self) -> (r: ParseResult<Token>)
        requires
            old(self).wf(),
        ensures
            final(self).wf(),
            final(self).chars() == old(self).chars(),
            final(self).cursor() == next_at(old(self).chars(), old(self).cursor()).1,
            within(old(self).chars(), old(self).cursor(), final(self).cursor()),
            match next_at(old(self).chars(), old(self).cursor()).0 {
                LexStep::Token(k, q) => {
                    &&& r is Item
                    &&& r->Item_0.token@ == k
                    &&& r->Item_0.position == q
                    &&& advanced(old(self).chars(), old(self).cursor(), final(self).cursor())
                },
                LexStep::Error(f) => r is Error && r->Error_0@ == ParseFault::Lexer(f),
                LexStep::End => r is Eof,
            },
    {
        proof {
            self.lexer.lemma_index_in_input();
            lemma_lex_next_advances(self.lexer.chars(), self.lexer.index(), self.lexer.pos());
        }
        match self.lexer.next_token() {
            LexerResult::Item(t) => ParseResult::Item(t),
            LexerResult::Error(e) => ParseResult::Error(ParseError::LexerError(e)),
            LexerResult::Eof => ParseResult::Eof,
        }
    }

    /// Parse what follows `(`.
    fn parse_function(&mut self, position: Position) -> (r: ParseResult<AST>)
        requires
            old(self).wf(),
        ensures
            final(self).wf(),
            final(self).chars() == old(self).chars(),
            (parse_view(r), final(self).cursor()) == parse_form(
                old(self).chars(),
                old(self).cursor(),
                position,
            ),
            within(old(self).chars(), old(self).cursor(), final(self).cursor()),
        decreases old(self).chars().len() - old(self).cursor().index, 1int,
    {
        proof {
            self.lexer.lemma_index_in_input();
        }
        match self.peek_token_type() {
            Some(TokenType::Identifier(_)) => self.parse_function_call(position),
            Some(TokenType::If) => self.parse_if(position),
            Some(TokenType::Define) => self.parse_define(position),
            None => match self.next_token() {
                ParseResult::Error(e) => ParseResult::Error(e),
                _ => ParseResult::Error(
                    ParseError::UnexpectedEof {
                        expected: "`if`, `define`, a value, or an identifier",
                    },
                ),
            },
            _ => match self.next_token() {
                ParseResult::Item(t) => ParseResult::Error(ParseError::UnexpectedToken(t)),
                _ => unreached(),
            },
        }
    }

    /// Parse a function call expression.
    fn parse_function_call(&mut self, position: Position) -> (r: ParseResult<AST>)
        requires
            old(self).wf(),
            next_at(old(self).chars(), old(self).cursor()).0 matches LexStep::Token(
                TokenKind::Identifier(_),
                _,
            ),
        ensures
            final(self).wf(),
            final(self).chars() == old(self).chars(),
            (parse_view(r), final(self).cursor()) == parse_call(
                old(self).chars(),
                old(self).cursor(),
                position,
            ),
            within(old(self).chars(), old(self).cursor(), final(self).cursor()),
        decreases old(self).chars().len() - old(self).cursor().index, 0int,
    {
        let ghost s = self.chars();
        let ghost c0 = self.cursor();
        let (name, name_position) = match self.next_token() {
            ParseResult::Item(Token { token: TokenType::Identifier(n), position }) => (n, position),
            _ => unreached(),
        };
        let ghost c1 = self.cursor();
        let mut arguments: Vec<AST> = Vec::new();
        loop
            invariant
                self.wf(),
                self.chars() == s,
                s == old(self).chars(),
                c0 == old(self).cursor(),
                next_at(s, c0).0 == LexStep::Token(TokenKind::Identifier(name@), name_position),
                next_at(s, c0).1 == c1,
                advanced(s, c0, c1),
                within(s, c1, self.cursor()),
                parse_args(s, self.cursor(), trees_of(arguments@)) == parse_args(s, c1, Seq::empty()),
            ensures
                self.wf(),
                self.chars() == s,
                within(s, c1, self.cursor()),
                parse_args(s, self.cursor(), trees_of(arguments@)) == parse_args(s, c1, Seq::empty()),
                next_at(s, self.cursor()).0 matches LexStep::Token(TokenKind::RightBracket, _),
            decreases s.len() - self.cursor().index,
        {
            if let Some(TokenType::RightBracket) = self.peek_token_type() {
                break;
            }
            let ghost c = self.cursor();
            match self.parse_expression() {
                ParseResult::Item(p) => {
                    proof {
                        lemma_trees_of_push(arguments@, p);
                    }
                    arguments.push(p);
                },
                ParseResult::Error(e) => return ParseResult::Error(e),
                ParseResult::Eof => {
                    return ParseResult::Error(
                        ParseError::UnexpectedEof { expected: "function parameter or `)`" },
                    );
                },
            }
        }
        self.next_token();
        proof {
            assert(trees_of(Seq::<AST>::empty()) =~= Seq::<Tree>::empty());
        }
        ParseResult::Item(AST { ast: ASTType::FunctionCall { name, arguments }, position })
    }

    /// Parse an if expression.
    fn parse_if(&mut self, position: Position) -> (r: ParseResult<AST>)
        requires
            old(self).wf(),
            next_at(old(self).chars(), old(self).cursor()).0 matches LexStep::Token(TokenKind::If, _),
        ensures
            final(self).wf(),
            final(self).chars() == old(self).chars(),
            (parse_view(r), final(self).cursor()) == parse_if(
                old(self).chars(),
                old(self).cursor(),
                position,
            ),
            within(old(self).chars(), old(self).cursor(), final(self).cursor()),
        decreases old(self).chars().len() - old(self).cursor().index, 0int,
    {
        match self.next_token() {
            ParseResult::Item(_) => {},
            _ => unreached(),
        }
        let condition = match self.parse_expression() {
            ParseResult::Item(v) => Box::new(v),
            ParseResult::Error(e) => return ParseResult::Error(e),
            ParseResult::Eof => {
                return ParseResult::Error(
                    ParseError::UnexpectedEof { expected: "condition in if expression" },
                );
            },
        };
        let consequence = match self.parse_expression() {
            ParseResult::Item(v) => Box::new(v),
            ParseResult::Error(e) => return ParseResult::Error(e),
            ParseResult::Eof => {
                return ParseResult::Error(
                    ParseError::UnexpectedEof { expected: "consequence in if expression" },
                );
            },
        };
        let alternative = match self.parse_expression() {
            ParseResult::Item(v) => Box::new(v),
            ParseResult::Error(e) => return ParseResult::Error(e),
            ParseResult::Eof => {
                return ParseResult::Error(
                    ParseError::UnexpectedEof { expected: "alternative in if expression" },
                );
            },
        };
        let ast = ASTType::If { condition, consequence, alternative };
        self.expect_right_bracket(AST { ast, position })
    }

    /// Read the closing bracket of a form that makes `ast`, and return `ast`.
    fn expect_right_bracket(&mut self, ast: AST) -> (r: ParseResult<AST>)
        requires
            old(self).wf(),
        ensures
            final(self).wf(),
            final(self).chars() == old(self).chars(),
            (parse_view(r), final(self).cursor()) == close(
                old(self).chars(),
                old(self).cursor(),
                ast@,
            ),
            within(old(self).chars(), old(self).cursor(), final(self).cursor()),
    {
        let right_bracket = match self.next_token() {
            ParseResult::Item(t) => t,
            ParseResult::Error(e) => return ParseResult::Error(e),
            ParseResult::Eof => return ParseResult::Error(ParseError::UnexpectedEof { expected: "`)`" }),
        };
        match right_bracket.token {
            TokenType::RightBracket => ParseResult::Item(ast),
            _ => ParseResult::Error(ParseError::UnexpectedToken(right_bracket)),
        }
    }

    /// Parse a define expression.
    fn parse_define(&mut self, position: Position) -> (r: ParseResult<AST>)
        requires
            old(self).wf(),
            next_at(old(self).chars(), old(self).cursor()).0 matches LexStep::Token(
                TokenKind::Define,
                _,
            ),
        ensures
            final(self).wf(),
            final(self).chars() == old(self).chars(),
            (parse_view(r), final(self).cursor()) == parse_define(
                old(self).chars(),
                old(self).cursor(),
                position,
            ),
            within(old(self).chars(), old(self).cursor(), final(self).cursor()),
        decreases old(self).chars().len() - old(self).cursor().index, 0int,
    {
        match self.next_token() {
            ParseResult::Item(_) => {},
            _ => unreached(),
        }
        let head = match self.parse_expression() {
            ParseResult::Item(a) => a,
            ParseResult::Error(e) => return ParseResult::Error(e),
            ParseResult::Eof => {
                return ParseResult::Error(
                    ParseError::UnexpectedEof {
                        expected: "name or parameter list in define expression",
                    },
                );
            },
        };
        let head_position = head.position;
        let (name, arguments) = match head.ast {
            ASTType::FunctionCall { name, arguments } => match Parser::parameter_names(arguments) {
                Ok(names) => (name, Some(names)),
                Err(bad) => return ParseResult::Error(ParseError::UnexpectedExpression(bad)),
            },
            ASTType::Identifier(name) => (name, None),
            other => {
                return ParseResult::Error(
                    ParseError::UnexpectedExpression(AST { ast: other, position: head_position }),
                );
            },
        };
        let value = match self.parse_expression() {
            ParseResult::Item(v) => v,
            ParseResult::Error(e) => return ParseResult::Error(e),
            ParseResult::Eof => {
                return ParseResult::Error(
                    ParseError::UnexpectedEof { expected: "value in define expression" },
                );
            },
        };
        let ast = ASTType::Define { name, arguments, value: Box::new(value) };
        self.expect_right_bracket(AST { ast, position })
    }

    /// The names of the parameters in a function definition's head, or the first of them that is
    /// not an identifier.
    fn parameter_names(arguments: Vec<AST>) -> (r: Result<Vec<Identifier>, AST>)
        ensures
            match parameters_of(trees_of(arguments@)) {
                Ok(ps) => r is Ok && names_of(r->Ok_0@) == ps,
                Err(bad) => r is Err && r->Err_0@ == bad,
            },
    {
        let ghost trees = trees_of(arguments@);
        proof {
            lemma_trees_of(arguments@);
            assert(trees.subrange(0, 0) =~= Seq::<Tree>::empty());
        }
        let mut names: Vec<Identifier> = Vec::new();
        assert(names_of(names@) =~= Seq::<Seq<char>>::empty());
        let mut i: usize = 0;
        while i < arguments.len()
            invariant
                trees == trees_of(arguments@),
                trees.len() == arguments@.len(),
                forall|j: int| 0 <= j < arguments@.len() ==> #[trigger] trees[j] == tree_of(arguments@[j]),
                0 <= i <= arguments.len(),
                parameters_of(trees.subrange(0, i as int)) == Ok::<Seq<Seq<char>>, Tree>(names_of(names@)),
            decreases arguments.len() - i,
        {
            let ghost prefix = trees.subrange(0, i as int + 1);
            proof {
                assert(prefix.drop_last() =~= trees.subrange(0, i as int));
                assert(prefix.last() == tree_of(arguments@[i as int]));
            }
            match &arguments[i].ast {
                ASTType::Identifier(p) => {
                    let p = p.clone();
                    proof {
                        assert(names_of(names@.push(p)) =~= names_of(names@).push(p@));
                    }
                    names.push(p);
                },
                _ => {
                    proof {
                        lemma_parameters_of_error(trees, i as int);
                    }
                    let mut arguments = arguments;
                    let bad = arguments.remove(i);
                    return Err(bad);
                },
            }
            i = i + 1;
        }
        proof {
            assert(trees.subrange(0, i as int) =~= trees);
        }
        Ok(names)
    }
}

} // verus!
