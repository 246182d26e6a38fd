//! End-to-end scenarios: source text through the lexer, the parser and the
//! evaluator, down to the displayed result.

use lambda_calculus::{
    ast::Expr,
    eval,
    lexer::{Lexer, Span, TokenKind},
    parser::{ParseError, Parser},
};

const FUEL: u64 = 64;

fn run(source: &str) -> Result<Expr, ParseError> {
    let tokens = Lexer::tokenize(source);
    let expr = Parser::parse(tokens)?;
    Ok(eval::eval(expr, FUEL).expect("enough fuel for this test"))
}

#[test]
fn scenario_single_name() {
    let tokens = Lexer::tokenize("x");
    assert_eq!(tokens.len(), 2);
    assert_eq!(tokens[0].kind, TokenKind::Name(String::from("x")));
    assert_eq!(tokens[0].span, Span::new(1, 1));
    assert_eq!(tokens[1].kind, TokenKind::Eof);
    assert_eq!(tokens[1].span, Span::new(1, 2));

    let ast = Parser::parse(tokens).unwrap();
    assert_eq!(ast, Expr::Name(String::from("x")));

    let result = run("x").unwrap();
    assert_eq!(result, Expr::Name(String::from("x")));
    assert_eq!(result.to_display_string(), "x");
}

#[test]
fn scenario_identity_function() {
    let ast = Parser::parse(Lexer::tokenize("\\x.x")).unwrap();
    let expected = Expr::Function(
        String::from("x"),
        Box::new(Expr::Name(String::from("x"))),
    );
    assert_eq!(ast, expected);

    let result = run("\\x.x").unwrap();
    assert_eq!(result, expected);
    assert_eq!(result.to_display_string(), "\\x.x");
}

#[test]
fn scenario_apply_identity() {
    let ast = Parser::parse(Lexer::tokenize("(\\x.x y)")).unwrap();
    let expected_ast = Expr::Application(
        Box::new(Expr::Function(
            String::from("x"),
            Box::new(Expr::Name(String::from("x"))),
        )),
        Box::new(Expr::Name(String::from("y"))),
    );
    assert_eq!(ast, expected_ast);

    let result = run("(\\x.x y)").unwrap();
    assert_eq!(result, Expr::Name(String::from("y")));
    assert_eq!(result.to_display_string(), "y");
}

#[test]
fn scenario_stuck_free_variables() {
    let result = run("(x y)").unwrap();
    let expected = Expr::Application(
        Box::new(Expr::Name(String::from("x"))),
        Box::new(Expr::Name(String::from("y"))),
    );
    assert_eq!(result, expected);
    assert_eq!(result.to_display_string(), "(x y)");
}

#[test]
fn scenario_missing_closing_paren() {
    let err = Parser::parse(Lexer::tokenize("(x y")).unwrap_err();
    match err {
        ParseError::UnexpectedToken(t) => {
            assert_eq!(t.kind, TokenKind::Eof);
            assert_eq!(t.span, Span::new(1, 5));
        }
    }
}

#[test]
fn scenario_divergent_self_application() {
    // (\x.(x x) \x.(x x)) has no normal form: evaluation reports that its
    // step bound was hit, however large the bound.
    let ast = Parser::parse(Lexer::tokenize("(\\x.(x x) \\x.(x x))")).unwrap();
    for fuel in [0u64, 1, 7, 100] {
        assert_eq!(eval::eval(ast.clone(), fuel), None);
    }
}

#[test]
fn scenario_left_nested_application() {
    let result = run("((x y) z)").unwrap();
    assert_eq!(result.to_display_string(), "((x y) z)");
}

#[test]
fn display_nested_function_body_unparenthesized() {
    let ast = Parser::parse(Lexer::tokenize("\\x.\\y.(x y)")).unwrap();
    assert_eq!(ast.to_display_string(), "\\x.\\y.(x y)");
}

#[test]
fn debug_lines_depth_first_dump() {
    let ast = Parser::parse(Lexer::tokenize("(\\x.x y)")).unwrap();
    let lines = ast.debug_lines();
    let expected = vec![
        String::from("Application"),
        String::from("Function"),
        String::from("x"),
        String::from("Name"),
        String::from("x"),
        String::from("Name"),
        String::from("y"),
    ];
    assert_eq!(lines, expected);
}
