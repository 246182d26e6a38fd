//! Normal-order beta-reduction.
//!
//! The ghost function [`eval_rec`] is the semantics: it normalizes an
//! expression under a fuel bound on the nesting depth of beta-reduction
//! steps, returning `None` when the bound is hit.  The executable evaluator
//! returns exactly what `eval_rec` returns.  Substitution is textual and not
//! capture-avoiding, which reproduces the specified behaviour faithfully.

use crate::ast::{Expr, ExprView};
use vstd::prelude::*;

verus! {

/// Number of nodes in an expression; the structural part of the evaluator's
/// termination measure.
pub open spec fn node_count(e: ExprView) -> nat
    decreases e,
{
    match e {
        ExprView::Name(_) => 1,
        ExprView::Function(_, b) => 1 + node_count(*b),
        ExprView::Application(f, a) => 1 + node_count(*f) + node_count(*a),
    }
}

/// Ghost substitution: replace every `Name` node equal to `from` by `to`,
/// descending into every binder.  Binders that reuse `from` are not skipped
/// and free names of `to` are not renamed, so substitution can capture.
pub open spec fn subst(e: ExprView, from: Seq<char>, to: ExprView) -> ExprView
    decreases e,
{
    match e {
        ExprView::Name(n) => if n == from {
            to
        } else {
            ExprView::Name(n)
        },
        ExprView::Function(n, b) => ExprView::Function(n, Box::new(subst(*b, from, to))),
        ExprView::Application(f, a) => ExprView::Application(
            Box::new(subst(*f, from, to)),
            Box::new(subst(*a, from, to)),
        ),
    }
}

/// The semantics of evaluation: leftmost-outermost reduction to full normal
/// form, with `fuel` bounding the nesting depth of beta-reduction steps.
///
/// A name is already normal.  A function normalizes its body under the
/// binder.  An application first brings its head to normal form (when the
/// head is itself an application), then either beta-reduces — spending one
/// unit of fuel — or, with the head stuck, normalizes the argument in place.
pub open spec fn eval_rec(e: ExprView, fuel: nat) -> Option<ExprView>
    decreases fuel, e,
{
    match e {
        ExprView::Name(n) => Some(ExprView::Name(n)),
        ExprView::Function(n, b) => match eval_rec(*b, fuel) {
            Some(b2) => Some(ExprView::Function(n, Box::new(b2))),
            None => None,
        },
        ExprView::Application(f, a) => match *f {
            ExprView::Name(n) => match eval_rec(*a, fuel) {
                Some(a2) => Some(
                    ExprView::Application(Box::new(ExprView::Name(n)), Box::new(a2)),
                ),
                None => None,
            },
            ExprView::Function(n, b) => if fuel == 0 {
                None
            } else {
                eval_rec(subst(*b, n, *a), (fuel - 1) as nat)
            },
            ExprView::Application(f2, a2) => match eval_rec(
                ExprView::Application(f2, a2),
                fuel,
            ) {
                Some(ExprView::Function(n2, b2)) => if fuel == 0 {
                    None
                } else {
                    eval_rec(subst(*b2, n2, *a), (fuel - 1) as nat)
                },
                Some(g) => match eval_rec(*a, fuel) {
                    Some(a2) => Some(ExprView::Application(Box::new(g), Box::new(a2))),
                    None => None,
                },
                None => None,
            },
        },
    }
}

/// The view of an optional expression.
pub open spec fn opt_view(r: Option<Expr>) -> Option<ExprView> {
    match r {
        Some(e) => Some(e@),
        None => None,
    }
}

/// Replace all occurrences of the name `from` in `expr` with `to`.
///
/// Note that this function does not perform any evaluation.  It simply makes
/// the substitutions.
fn beta_reduce(expr: Expr, from: &String, to: Expr) -> (r: Expr)
    ensures
        r@ == subst(expr@, from@, to@),
    decreases expr,
{
    match expr {
        Expr::Application(func_expr, arg_expr) => {
            let func_reduced = beta_reduce(*func_expr, from, to.clone());
            let arg_reduced = beta_reduce(*arg_expr, from, to);
            Expr::Application(Box::new(func_reduced), Box::new(arg_reduced))
        }
        Expr::Function(name, body) => {
            let body_reduced = beta_reduce(*body, from, to);
            Expr::Function(name, Box::new(body_reduced))
        }
        Expr::Name(name) => {
            if name == *from {
                to
            } else {
                Expr::Name(name)
            }
        }
    }
}

/// Normalize `expr`, allowing beta-reduction steps nested at most `fuel`
/// deep; `None` means the bound was hit before a normal form was reached.
/// The result is exactly what the semantics [`eval_rec`] prescribes, and any
/// returned expression is in beta-normal form.
pub fn eval(expr: Expr, fuel: u64) -> (r: Option<Expr>)
    ensures
        opt_view(r) == eval_rec(expr@, fuel as nat),
        r matches Some(v) ==> is_normal_form(v@),
    decreases fuel, node_count(expr@), 1int,
{
    let ghost e0 = expr@;
    let r = match expr {
        Expr::Application(func_expr, arg_expr) => eval_application(*func_expr, *arg_expr, fuel),
        Expr::Function(name, body) => eval_function(name, *body, fuel),
        Expr::Name(name) => Some(eval_name(name)),
    };
    proof {
        if eval_rec(e0, fuel as nat) is Some {
            lemma_eval_normal_form(e0, fuel as nat);
        }
    }
    r
}

fn eval_application(func_expr: Expr, arg_expr: Expr, fuel: u64) -> (r: Option<Expr>)
    ensures
        opt_view(r) == eval_rec(
            ExprView::Application(Box::new(func_expr@), Box::new(arg_expr@)),
            fuel as nat,
        ),
    decreases fuel, node_count(func_expr@) + node_count(arg_expr@), 2int,
{
    match func_expr {
        Expr::Application(f, a) => {
            match eval_application(*f, *a, fuel) {
                None => None,
                Some(g) => match g {
                    Expr::Function(name, body) => {
                        if fuel == 0 {
                            None
                        } else {
                            eval(beta_reduce(*body, &name, arg_expr), fuel - 1)
                        }
                    }
                    stuck_head => {
                        match eval(arg_expr, fuel) {
                            None => None,
                            Some(a2) => Some(
                                Expr::Application(Box::new(stuck_head), Box::new(a2)),
                            ),
                        }
                    }
                },
            }
        }
        Expr::Function(name, body) => {
            if fuel == 0 {
                None
            } else {
                eval(beta_reduce(*body, &name, arg_expr), fuel - 1)
            }
        }
        Expr::Name(name) => {
            match eval(arg_expr, fuel) {
                None => None,
                Some(a2) => Some(Expr::Application(Box::new(Expr::Name(name)), Box::new(a2))),
            }
        }
    }
}

fn eval_function(name: String, body: Expr, fuel: u64) -> (r: Option<Expr>)
    ensures
        opt_view(r) == eval_rec(ExprView::Function(name@, Box::new(body@)), fuel as nat),
    decreases fuel, node_count(body@), 2int,
{
    match eval(body, fuel) {
        None => None,
        Some(b2) => Some(Expr::Function(name, Box::new(b2))),
    }
}

fn eval_name(name: String) -> (r: Expr)
    ensures
        r@ == ExprView::Name(name@),
{
    Expr::Name(name)
}

/// An expression is in beta-normal form when no application anywhere in it
/// has a function (lambda abstraction) in head position.
pub open spec fn is_normal_form(e: ExprView) -> bool
    decreases e,
{
    match e {
        ExprView::Name(_) => true,
        ExprView::Function(_, b) => is_normal_form(*b),
        ExprView::Application(f, a) => !((*f) is Function) && is_normal_form(*f)
            && is_normal_form(*a),
    }
}

/// Whenever evaluation returns, it returns a beta-normal form.
pub proof fn lemma_eval_normal_form(e: ExprView, fuel: nat)
    requires
        eval_rec(e, fuel) is Some,
    ensures
        is_normal_form(eval_rec(e, fuel)->Some_0),
    decreases fuel, e,
{
    match e {
        ExprView::Name(_) => {}
        ExprView::Function(n, b) => {
            lemma_eval_normal_form(*b, fuel);
        }
        ExprView::Application(f, a) => {
            match *f {
                ExprView::Name(n0) => {
                    lemma_eval_normal_form(*a, fuel);
                    assert(is_normal_form(ExprView::Name(n0)));
                }
                ExprView::Function(n, b) => {
                    lemma_eval_normal_form(subst(*b, n, *a), (fuel - 1) as nat);
                }
                ExprView::Application(f2, a2) => {
                    lemma_eval_normal_form(*f, fuel);
                    match eval_rec(*f, fuel) {
                        Some(ExprView::Function(n2, b2)) => {
                            lemma_eval_normal_form(subst(*b2, n2, *a), (fuel - 1) as nat);
                        }
                        Some(g) => {
                            lemma_eval_normal_form(*a, fuel);
                        }
                        None => {}
                    }
                }
            }
        }
    }
}

/// A beta-normal form is a fixed point of evaluation, whatever the fuel:
/// evaluating it succeeds without spending any fuel and returns it unchanged.
pub proof fn lemma_eval_fixed_point(e: ExprView, fuel: nat)
    requires
        is_normal_form(e),
    ensures
        eval_rec(e, fuel) == Some(e),
    decreases e,
{
    match e {
        ExprView::Name(_) => {}
        ExprView::Function(n, b) => {
            lemma_eval_fixed_point(*b, fuel);
        }
        ExprView::Application(f, a) => {
            match *f {
                ExprView::Name(_) => {
                    lemma_eval_fixed_point(*a, fuel);
                }
                ExprView::Function(n, b) => {}
                ExprView::Application(f2, a2) => {
                    lemma_eval_fixed_point(*f, fuel);
                    lemma_eval_fixed_point(*a, fuel);
                }
            }
        }
    }
}

/// Idempotence of evaluation: whenever `eval` terminates, evaluating its
/// result again — with any fuel at all — gives the same normal form back.
pub proof fn lemma_eval_idempotent(e: ExprView, fuel: nat, fuel2: nat)
    requires
        eval_rec(e, fuel) is Some,
    ensures
        eval_rec(eval_rec(e, fuel)->Some_0, fuel2) == eval_rec(e, fuel),
{
    lemma_eval_normal_form(e, fuel);
    lemma_eval_fixed_point(eval_rec(e, fuel)->Some_0, fuel2);
}

} // verus!
