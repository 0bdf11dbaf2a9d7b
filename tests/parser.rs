use tini::ast::{ASTType, AST};
use tini::lexer::{Lexer, LexerError};
use tini::parser::{ParseError, ParseResult, Parser};
use tini::token::TokenType;
use tini::Position;

fn parse_one(input: &str) -> ParseResult<AST> {
    Parser::new(Lexer::new(input)).parse_expression()
}

#[test]
fn parser_if_expression() {
    let input = r#"
    (if true
        1
        0)
    "#;
    let lexer = Lexer::new(input);
    let mut parser = Parser::new(lexer);

    match parser.parse_expression() {
        ParseResult::Item(AST {
            ast:
                ASTType::If {
                    condition,
                    consequence,
                    alternative,
                },
            ..
        }) => {
            // `true` is no literal of the language: it is an identifier.
            assert!(matches!(condition.ast, ASTType::Identifier(ref n) if n == "true"));
            assert!(matches!(consequence.ast, ASTType::Integer(1)));
            assert!(matches!(alternative.ast, ASTType::Integer(0)));
        }
        e => panic!("unexpected parse result: {:?}", e),
    }

    assert!(parser.parse_expression().is_eof())
}

#[test]
fn parses_simple_if() {
    match parse_one("(if 1 2 0)") {
        ParseResult::Item(AST { ast: ASTType::If { condition, consequence, alternative }, position }) => {
            assert!(matches!(condition.ast, ASTType::Integer(1)));
            assert!(matches!(consequence.ast, ASTType::Integer(2)));
            assert!(matches!(alternative.ast, ASTType::Integer(0)));
            // A form sits at its opening bracket.
            assert_eq!(position, Position::new(1, 1));
            assert_eq!(condition.position, Position::new(1, 5));
        }
        e => panic!("unexpected parse result: {:?}", e),
    }
}

#[test]
fn dangling_define_reports_missing_bracket() {
    match parse_one("(define x 1") {
        ParseResult::Error(ParseError::UnexpectedEof { expected }) => assert_eq!(expected, "`)`"),
        e => panic!("unexpected parse result: {:?}", e),
    }
}

#[test]
fn parses_variable_and_function_definitions() {
    match parse_one("(define x 5)") {
        ParseResult::Item(AST { ast: ASTType::Define { name, arguments: None, value }, .. }) => {
            assert_eq!(name, "x");
            assert!(matches!(value.ast, ASTType::Integer(5)));
        }
        e => panic!("unexpected parse result: {:?}", e),
    }
    match parse_one("(define (inc x y) (+ x 1))") {
        ParseResult::Item(AST { ast: ASTType::Define { name, arguments: Some(ps), value }, .. }) => {
            assert_eq!(name, "inc");
            assert_eq!(ps, vec!["x".to_string(), "y".to_string()]);
            assert!(matches!(value.ast, ASTType::FunctionCall { ref name, ref arguments }
                if name == "+" && arguments.len() == 2));
        }
        e => panic!("unexpected parse result: {:?}", e),
    }
    match parse_one("(define (f) 1)") {
        ParseResult::Item(AST { ast: ASTType::Define { arguments: Some(ps), .. }, .. }) => {
            assert!(ps.is_empty())
        }
        e => panic!("unexpected parse result: {:?}", e),
    }
}

#[test]
fn parses_calls_and_atoms_in_sequence() {
    let mut parser = Parser::new(Lexer::new("(f 1 (g) x) 7 y"));
    match parser.parse_expression() {
        ParseResult::Item(AST { ast: ASTType::FunctionCall { name, arguments }, .. }) => {
            assert_eq!(name, "f");
            assert_eq!(arguments.len(), 3);
            assert!(matches!(arguments[1].ast, ASTType::FunctionCall { ref arguments, .. } if arguments.is_empty()));
            assert!(matches!(arguments[2].ast, ASTType::Identifier(ref n) if n == "x"));
        }
        e => panic!("unexpected parse result: {:?}", e),
    }
    assert!(matches!(parser.parse_expression(), ParseResult::Item(AST { ast: ASTType::Integer(7), .. })));
    assert!(matches!(parser.parse_expression(), ParseResult::Item(AST { ast: ASTType::Identifier(_), .. })));
    assert!(parser.parse_expression().is_eof());
}

#[test]
fn unexpected_tokens() {
    assert!(matches!(
        parse_one(")"),
        ParseResult::Error(ParseError::UnexpectedToken(ref t)) if matches!(t.token, TokenType::RightBracket)
    ));
    assert!(matches!(
        parse_one("(1 2)"),
        ParseResult::Error(ParseError::UnexpectedToken(ref t)) if matches!(t.token, TokenType::Integer(1))
    ));
    assert!(matches!(
        parse_one("(if 1 2 3 4)"),
        ParseResult::Error(ParseError::UnexpectedToken(ref t)) if matches!(t.token, TokenType::Integer(4))
    ));
    assert!(matches!(
        parse_one("define"),
        ParseResult::Error(ParseError::UnexpectedToken(ref t)) if matches!(t.token, TokenType::Define)
    ));
}

#[test]
fn unexpected_expressions_in_definitions() {
    match parse_one("(define (f x 1 y) 2)") {
        ParseResult::Error(ParseError::UnexpectedExpression(AST { ast: ASTType::Integer(1), position })) => {
            assert_eq!(position, Position::new(1, 14))
        }
        e => panic!("unexpected parse result: {:?}", e),
    }
    assert!(matches!(
        parse_one("(define 3 2)"),
        ParseResult::Error(ParseError::UnexpectedExpression(AST { ast: ASTType::Integer(3), .. }))
    ));
}

#[test]
fn unexpected_ends_name_what_was_expected() {
    let expect = |input: &str, what: &str| match parse_one(input) {
        ParseResult::Error(ParseError::UnexpectedEof { expected }) => assert_eq!(expected, what),
        e => panic!("unexpected parse result for {}: {:?}", input, e),
    };
    expect("(", "`if`, `define`, a value, or an identifier");
    expect("(f 1", "function parameter or `)`");
    expect("(if", "condition in if expression");
    expect("(if 1", "consequence in if expression");
    expect("(if 1 2", "alternative in if expression");
    expect("(if 1 2 3", "`)`");
    expect("(define", "name or parameter list in define expression");
    expect("(define x", "value in define expression");
    expect("(define (f x)", "value in define expression");
    assert!(parse_one("").is_eof());
    assert!(parse_one("  ; nothing but a comment").is_eof());
}

#[test]
fn lexer_errors_are_wrapped() {
    assert!(matches!(
        parse_one("(f \"a\")"),
        ParseResult::Error(ParseError::LexerError(LexerError::UnexpectedCharacter { ch: '"', .. }))
    ));
    match parse_one("([") {
        ParseResult::Error(ParseError::LexerError(LexerError::UnexpectedCharacter { ch, position })) => {
            assert_eq!(ch, '[');
            assert_eq!(position, Position::new(1, 2));
        }
        e => panic!("unexpected parse result: {:?}", e),
    }
    assert!(matches!(
        parse_one("\""),
        ParseResult::Error(ParseError::LexerError(LexerError::UnexpectedCharacter { .. }))
    ));
}

#[test]
fn displayed_integers_parse_back() {
    for v in [0i64, 7, 42, 1000, i64::MAX] {
        let text = tini::interpreter::Value::Integer(v).to_string();
        match parse_one(&text) {
            ParseResult::Item(AST { ast: ASTType::Integer(w), position }) => {
                assert_eq!(w, v);
                assert_eq!(position, Position::new(1, 1));
            }
            e => panic!("unexpected parse result: {:?}", e),
        }
    }
}

#[test]
fn parse_error_messages() {
    let message = |input: &str| match parse_one(input) {
        ParseResult::Error(e) => e.message(),
        r => panic!("unexpected parse result: {:?}", r),
    };
    assert_eq!(message("\n  )"), "unexpected token at 2:3: )");
    assert_eq!(message("(12 x)"), "unexpected token at 1:2: 12");
    assert_eq!(message("(define (f 1) 2)"), "unexpected expression at 1:12");
    assert_eq!(message("(f"), "found end of file, but expected function parameter or `)`");
    assert_eq!(message("(f \"x\")"), "unexpected character at 1:4: '\"' ");
    let mut lexer = Lexer::new("99999999999999999999");
    match lexer.next_token() {
        tini::lexer::LexerResult::Error(e) => {
            assert_eq!(e.message(), "error at 1:1: number too large to fit in target type")
        }
        r => panic!("unexpected lexer result: {:?}", r),
    }
}
