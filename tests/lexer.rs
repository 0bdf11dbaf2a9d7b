use tini::lexer::{Lexer, LexerError, LexerResult};
use tini::token::{Token, TokenType};
use tini::Position;

fn kinds_until_end_or_error(input: &str) -> (Vec<TokenType>, LexerResult<Token>) {
    let mut lexer = Lexer::new(input);
    let mut tokens = Vec::new();
    loop {
        match lexer.next_token() {
            LexerResult::Item(t) => tokens.push(t.token),
            other => return (tokens, other),
        }
    }
}

fn ident(name: &str) -> TokenType {
    TokenType::Identifier(name.to_string())
}

fn same_kind(a: &TokenType, b: &TokenType) -> bool {
    match (a, b) {
        (TokenType::Identifier(x), TokenType::Identifier(y)) => x == y,
        (TokenType::Integer(x), TokenType::Integer(y)) => x == y,
        (TokenType::LeftBracket, TokenType::LeftBracket)
        | (TokenType::RightBracket, TokenType::RightBracket)
        | (TokenType::If, TokenType::If)
        | (TokenType::Define, TokenType::Define) => true,
        _ => false,
    }
}

fn assert_kinds(found: &[TokenType], expected: &[TokenType]) {
    assert_eq!(found.len(), expected.len(), "found {:?}", found);
    for (f, e) in found.iter().zip(expected) {
        assert!(same_kind(f, e), "found {:?}, expected {:?}", f, e);
    }
}

#[test]
fn lexer_test() {
    let input = r#"
    (if (= (+ 1 2 3 4 5) 15)
        (print "Yeah")
        (print "Nope"))
    "#;

    // The language has no string literals: the quote is an unexpected character, reported at
    // its position, and it is not consumed.
    let tokens = [
        TokenType::LeftBracket,
        TokenType::If,
        TokenType::LeftBracket,
        ident("="),
        TokenType::LeftBracket,
        ident("+"),
        TokenType::Integer(1),
        TokenType::Integer(2),
        TokenType::Integer(3),
        TokenType::Integer(4),
        TokenType::Integer(5),
        TokenType::RightBracket,
        TokenType::Integer(15),
        TokenType::RightBracket,
        TokenType::LeftBracket,
        ident("print"),
    ];

    let (found, end) = kinds_until_end_or_error(input);
    assert_kinds(&found, &tokens);
    match end {
        LexerResult::Error(LexerError::UnexpectedCharacter { ch, position }) => {
            assert_eq!(ch, '"');
            assert_eq!(position, Position::new(3, 16));
        }
        e => panic!("unexpected lexer result: {:?}", e),
    }
}

#[test]
fn tokenizes_nested_if_exactly() {
    let (found, end) = kinds_until_end_or_error("(if (= (+ 1 2) 3) (print 1) (print 0))");
    let expected = [
        TokenType::LeftBracket,
        TokenType::If,
        TokenType::LeftBracket,
        ident("="),
        TokenType::LeftBracket,
        ident("+"),
        TokenType::Integer(1),
        TokenType::Integer(2),
        TokenType::RightBracket,
        TokenType::Integer(3),
        TokenType::RightBracket,
        TokenType::LeftBracket,
        ident("print"),
        TokenType::Integer(1),
        TokenType::RightBracket,
        TokenType::LeftBracket,
        ident("print"),
        TokenType::Integer(0),
        TokenType::RightBracket,
        TokenType::RightBracket,
    ];
    assert_kinds(&found, &expected);
    assert!(end.is_eof());
}

#[test]
fn error_is_reported_again_when_asked_again() {
    let mut lexer = Lexer::new("  \"x");
    let first = lexer.next_token();
    let second = lexer.next_token();
    assert!(matches!(
        first,
        LexerResult::Error(LexerError::UnexpectedCharacter { ch: '"', position })
            if position == Position::new(1, 3)
    ));
    assert!(matches!(
        second,
        LexerResult::Error(LexerError::UnexpectedCharacter { ch: '"', .. })
    ));
}

#[test]
fn positions_follow_lines_and_columns() {
    let mut lexer = Lexer::new("a\n  (bc");
    let a = lexer.next_token().unwrap();
    let bracket = lexer.next_token().unwrap();
    let bc = lexer.next_token().unwrap();
    assert_eq!(a.position, Position::new(1, 1));
    assert_eq!(bracket.position, Position::new(2, 3));
    assert!(matches!(bc.token, TokenType::Identifier(ref n) if n == "bc"));
    assert_eq!(bc.position, Position::new(2, 4));
    assert_eq!(lexer.position(), Position::new(2, 6));
    assert!(lexer.next_token().is_eof());
}

#[test]
fn comments_are_skipped_to_the_end_of_the_line() {
    let mut lexer = Lexer::new("; a comment (if\n  42 ; another");
    let t = lexer.next_token().unwrap();
    assert!(matches!(t.token, TokenType::Integer(42)));
    assert_eq!(t.position, Position::new(2, 3));
    assert!(lexer.next_token().is_eof());
}

#[test]
fn keywords_only_on_exact_match() {
    let (found, end) = kinds_until_end_or_error("if define iff defined If");
    assert_kinds(
        &found,
        &[
            TokenType::If,
            TokenType::Define,
            ident("iff"),
            ident("defined"),
            ident("If"),
        ],
    );
    assert!(end.is_eof());
}

#[test]
fn identifiers_take_symbols_and_digits_but_not_at_start() {
    let (found, _) = kinds_until_end_or_error("a1 -5 x-y? 12ab ünï");
    assert_kinds(
        &found,
        &[
            ident("a1"),
            ident("-5"),
            ident("x-y?"),
            TokenType::Integer(12),
            ident("ab"),
            ident("ünï"),
        ],
    );
}

#[test]
fn largest_integer_is_read() {
    let mut lexer = Lexer::new("9223372036854775807");
    assert!(matches!(
        lexer.next_token().unwrap().token,
        TokenType::Integer(9223372036854775807)
    ));
}

#[test]
fn too_large_integer_is_an_error_and_consumed() {
    let mut lexer = Lexer::new("9223372036854775808 7");
    match lexer.next_token() {
        LexerResult::Error(LexerError::Other { error, position }) => {
            assert_eq!(error, "number too large to fit in target type");
            assert_eq!(position, Position::new(1, 1));
        }
        e => panic!("unexpected lexer result: {:?}", e),
    }
    assert!(matches!(lexer.next_token().unwrap().token, TokenType::Integer(7)));
}

#[test]
fn empty_and_blank_inputs_end_at_once() {
    assert!(Lexer::new("").next_token().is_eof());
    assert!(Lexer::new(" \t\n\r ; only a comment").next_token().is_eof());
}

#[test]
fn identifier_or_keyword_classifies_names() {
    assert!(matches!(TokenType::identifier_or_keyword("if".to_string()), TokenType::If));
    assert!(matches!(
        TokenType::identifier_or_keyword("define".to_string()),
        TokenType::Define
    ));
    assert!(matches!(
        TokenType::identifier_or_keyword("x".to_string()),
        TokenType::Identifier(ref n) if n == "x"
    ));
    let t = Token::new(TokenType::LeftBracket, 4, 2);
    assert_eq!(t.position, Position::new(4, 2));
}

#[test]
fn result_helpers() {
    let ok: LexerResult<i32> = LexerResult::Item(3);
    assert!(ok.is_ok() && !ok.is_err() && !ok.is_eof());
    assert!(matches!(ok.map(|x| x + 1), LexerResult::Item(4)));
    let eof: LexerResult<i32> = LexerResult::Eof;
    assert!(eof.is_eof());
    assert!(matches!(eof.map(|x| x + 1), LexerResult::Eof));
    let mut p = Position::new(1, 1);
    p.next_column();
    assert_eq!(p, Position::new(1, 2));
    p.next_line();
    assert_eq!(p, Position::new(2, 1));
}
