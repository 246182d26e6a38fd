use lambda_calculus::{
    ast::Expr,
    lexer::{Span, Token, TokenKind},
    parser::{ParseError, Parser},
};

#[test]
fn parser_test_test_one_name() {
    let tokens = vec![
        Token::new(TokenKind::Name(String::from("hello")), Span::new(1, 1)),
        Token::new(TokenKind::Eof, Span::new(1, 6)),
    ];

    let ast = Parser::parse(tokens).unwrap();
    let expected = Expr::Name(String::from("hello"));

    assert_eq!(ast, expected);
}

#[test]
fn test_one_function() {
    let tokens = vec![
        Token::new(TokenKind::Lambda, Span::new(1, 1)),
        Token::new(TokenKind::Name(String::from("x")), Span::new(1, 2)),
        Token::new(TokenKind::Dot, Span::new(1, 3)),
        Token::new(TokenKind::Name(String::from("x")), Span::new(1, 4)),
        Token::new(TokenKind::Eof, Span::new(1, 5)),
    ];

    let ast = Parser::parse(tokens).unwrap();
    let expected = Expr::Function(
        String::from("x"),
        Box::new(Expr::Name(String::from("x"))),
    );

    assert_eq!(ast, expected);
}

#[test]
fn test_nested_functions() {
    let tokens = vec![
        Token::new(TokenKind::Lambda, Span::new(1, 1)),
        Token::new(TokenKind::Name(String::from("x")), Span::new(1, 2)),
        Token::new(TokenKind::Dot, Span::new(1, 3)),
        Token::new(TokenKind::Lambda, Span::new(1, 4)),
        Token::new(TokenKind::Name(String::from("y")), Span::new(1, 5)),
        Token::new(TokenKind::Dot, Span::new(1, 6)),
        Token::new(TokenKind::Name(String::from("x")), Span::new(1, 7)),
        Token::new(TokenKind::Eof, Span::new(1, 8)),
    ];

    let ast = Parser::parse(tokens).unwrap();
    let expected = Expr::Function(
        String::from("x"),
        Box::new(Expr::Function(
            String::from("y"),
            Box::new(Expr::Name(String::from("x"))),
        )),
    );

    assert_eq!(ast, expected);
}

#[test]
fn parser_test_test_application() {
    let tokens = vec![
        Token::new(TokenKind::ParenLeft, Span::new(1, 1)),
        Token::new(TokenKind::Name(String::from("x")), Span::new(1, 2)),
        Token::new(TokenKind::Name(String::from("y")), Span::new(1, 4)),
        Token::new(TokenKind::ParenRight, Span::new(1, 5)),
        Token::new(TokenKind::Eof, Span::new(1, 6)),
    ];

    let ast = Parser::parse(tokens).unwrap();
    let expected = Expr::Application(
        Box::new(Expr::Name(String::from("x"))),
        Box::new(Expr::Name(String::from("y"))),
    );

    assert_eq!(ast, expected);
}

#[test]
fn parser_test_test_unfinished_application() {
    let tokens = vec![
        Token::new(TokenKind::ParenLeft, Span::new(1, 1)),
        Token::new(TokenKind::Name(String::from("x")), Span::new(1, 2)),
        Token::new(TokenKind::Name(String::from("y")), Span::new(1, 4)),
        Token::new(TokenKind::Eof, Span::new(1, 5)),
    ];

    let err = Parser::parse(tokens).unwrap_err();
    match err {
        ParseError::UnexpectedToken(t) => {
            assert_eq!(t.kind, TokenKind::Eof);
            assert_eq!(t.span, Span::new(1, 5));
        }
    }
}

#[test]
fn parser_empty_stream_rejected_at_eof() {
    let tokens = vec![Token::new(TokenKind::Eof, Span::new(1, 1))];
    let err = Parser::parse(tokens).unwrap_err();
    match err {
        ParseError::UnexpectedToken(t) => {
            assert_eq!(t.kind, TokenKind::Eof);
            assert_eq!(t.span, Span::new(1, 1));
        }
    }
}

#[test]
fn parser_missing_name_after_lambda() {
    let tokens = vec![
        Token::new(TokenKind::Lambda, Span::new(1, 1)),
        Token::new(TokenKind::Dot, Span::new(1, 2)),
        Token::new(TokenKind::Eof, Span::new(1, 3)),
    ];
    let err = Parser::parse(tokens).unwrap_err();
    match err {
        ParseError::UnexpectedToken(t) => {
            assert_eq!(t.kind, TokenKind::Dot);
            assert_eq!(t.span, Span::new(1, 2));
        }
    }
}

#[test]
fn parser_missing_dot_after_bound_name() {
    let tokens = vec![
        Token::new(TokenKind::Lambda, Span::new(1, 1)),
        Token::new(TokenKind::Name(String::from("x")), Span::new(1, 2)),
        Token::new(TokenKind::Name(String::from("x")), Span::new(1, 4)),
        Token::new(TokenKind::Eof, Span::new(1, 5)),
    ];
    let err = Parser::parse(tokens).unwrap_err();
    match err {
        ParseError::UnexpectedToken(t) => {
            assert_eq!(t.kind, TokenKind::Name(String::from("x")));
            assert_eq!(t.span, Span::new(1, 4));
        }
    }
}

#[test]
fn parser_trailing_tokens_rejected() {
    // A complete expression followed by anything but Eof fails on the first
    // leftover token.
    let tokens = vec![
        Token::new(TokenKind::Name(String::from("x")), Span::new(1, 1)),
        Token::new(TokenKind::Name(String::from("y")), Span::new(1, 3)),
        Token::new(TokenKind::Eof, Span::new(1, 4)),
    ];
    let err = Parser::parse(tokens).unwrap_err();
    match err {
        ParseError::UnexpectedToken(t) => {
            assert_eq!(t.kind, TokenKind::Name(String::from("y")));
            assert_eq!(t.span, Span::new(1, 3));
        }
    }
}

#[test]
fn parser_from_iterable_borrows_tokens() {
    let tokens = [
        Token::new(TokenKind::Name(String::from("hello")), Span::new(1, 1)),
        Token::new(TokenKind::Eof, Span::new(1, 6)),
    ];
    let mut parser = Parser::from_iterable(&tokens);
    let ast = parser.parse_expr().unwrap();
    assert_eq!(ast, Expr::Name(String::from("hello")));
}

#[test]
fn parser_error_message() {
    let tokens = vec![Token::new(TokenKind::Eof, Span::new(1, 1))];
    let err = Parser::parse(tokens).unwrap_err();
    assert_eq!(err.message(), "unexpected token EOF at 1:1");
}

#[test]
fn parser_error_message_multi_digit_position() {
    let err = ParseError::UnexpectedToken(Token::new(TokenKind::Dot, Span::new(12, 305)));
    assert_eq!(err.message(), "unexpected token DOT at 12:305");
}
