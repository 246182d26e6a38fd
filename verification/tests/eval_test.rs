use lambda_calculus::{ast::Expr, eval, evaluator::Evaluator};

const FUEL: u64 = 64;

#[test]
fn eval_test_test_one_name() {
    let expr = Expr::Name(String::from("x"));
    let result = eval::eval(expr, FUEL).unwrap();
    let expected = Expr::Name(String::from("x"));

    assert_eq!(result, expected);
}

#[test]
fn test_nested_application() {
    let expr = Expr::Application(
        Box::new(Expr::Application(
            Box::new(Expr::Function(
                String::from("x"),
                Box::new(Expr::Function(
                    String::from("y"),
                    Box::new(Expr::Name(String::from("x"))),
                )),
            )),
            Box::new(Expr::Name(String::from("one"))),
        )),
        Box::new(Expr::Name(String::from("two"))),
    );

    let result = eval::eval(expr, FUEL).unwrap();
    let expected = Expr::Name(String::from("one"));

    assert_eq!(result, expected);
}

#[test]
fn eval_function_normalizes_under_binder() {
    // \y.((\x.x) z) reduces under the binder to \y.z
    let expr = Expr::Function(
        String::from("y"),
        Box::new(Expr::Application(
            Box::new(Expr::Function(
                String::from("x"),
                Box::new(Expr::Name(String::from("x"))),
            )),
            Box::new(Expr::Name(String::from("z"))),
        )),
    );
    let result = eval::eval(expr, FUEL).unwrap();
    let expected = Expr::Function(String::from("y"), Box::new(Expr::Name(String::from("z"))));
    assert_eq!(result, expected);
}

#[test]
fn eval_stuck_application_normalizes_argument() {
    // (x ((\y.y) z)) is stuck at its head; the argument still normalizes.
    let expr = Expr::Application(
        Box::new(Expr::Name(String::from("x"))),
        Box::new(Expr::Application(
            Box::new(Expr::Function(
                String::from("y"),
                Box::new(Expr::Name(String::from("y"))),
            )),
            Box::new(Expr::Name(String::from("z"))),
        )),
    );
    let result = eval::eval(expr, FUEL).unwrap();
    let expected = Expr::Application(
        Box::new(Expr::Name(String::from("x"))),
        Box::new(Expr::Name(String::from("z"))),
    );
    assert_eq!(result, expected);
}

#[test]
fn eval_is_idempotent_on_normal_forms() {
    let expr = Expr::Application(
        Box::new(Expr::Application(
            Box::new(Expr::Function(
                String::from("x"),
                Box::new(Expr::Function(
                    String::from("y"),
                    Box::new(Expr::Name(String::from("x"))),
                )),
            )),
            Box::new(Expr::Name(String::from("one"))),
        )),
        Box::new(Expr::Name(String::from("two"))),
    );

    let once = eval::eval(expr, FUEL).unwrap();
    let twice = eval::eval(once.clone(), 0).unwrap();
    assert_eq!(twice, once);
}

#[test]
fn eval_substitution_is_textual() {
    // ((\x.\x.x) y): the inner binder reusing the name is rewritten too,
    // because substitution is textual and not capture-avoiding.
    let expr = Expr::Application(
        Box::new(Expr::Function(
            String::from("x"),
            Box::new(Expr::Function(
                String::from("x"),
                Box::new(Expr::Name(String::from("x"))),
            )),
        )),
        Box::new(Expr::Name(String::from("y"))),
    );
    let result = eval::eval(expr, FUEL).unwrap();
    let expected = Expr::Function(String::from("x"), Box::new(Expr::Name(String::from("y"))));
    assert_eq!(result, expected);
}

#[test]
fn eval_divergent_term_exhausts_fuel() {
    // (\x.(x x) \x.(x x)) reduces to itself forever: every fuel bound is hit.
    let self_app = || {
        Expr::Function(
            String::from("x"),
            Box::new(Expr::Application(
                Box::new(Expr::Name(String::from("x"))),
                Box::new(Expr::Name(String::from("x"))),
            )),
        )
    };
    for fuel in [0u64, 1, 2, 10, 50] {
        let omega = Expr::Application(Box::new(self_app()), Box::new(self_app()));
        assert_eq!(eval::eval(omega, fuel), None);
    }
}

#[test]
fn evaluator_type_matches_free_function() {
    let expr = Expr::Application(
        Box::new(Expr::Function(
            String::from("x"),
            Box::new(Expr::Name(String::from("x"))),
        )),
        Box::new(Expr::Name(String::from("y"))),
    );
    let result = Evaluator::eval(expr, FUEL).unwrap();
    assert_eq!(result, Expr::Name(String::from("y")));
}
