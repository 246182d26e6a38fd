//! The evaluator packaged as a type.
//!
//! `Evaluator` offers the same normalization as [`crate::eval`] through an
//! associated function, for callers that prefer a named entry point over a
//! free function.

use crate::ast::Expr;
use crate::eval::{eval_rec, is_normal_form, opt_view};
use vstd::prelude::*;

verus! {

/// Namespace type for the evaluator's entry point.
pub struct Evaluator;

impl Evaluator {
    /// Normalize `expr`, allowing beta-reduction steps nested at most `fuel`
    /// deep; `None` means the bound was hit first.  Returns exactly what the
    /// semantics [`eval_rec`] prescribes, and any returned expression is in
    /// beta-normal form.
    pub fn eval(expr: Expr, fuel: u64) -> (r: Option<Expr>)
        ensures
            opt_view(r) == eval_rec(expr@, fuel as nat),
            r matches Some(v) ==> is_normal_form(v@),
    {
        crate::eval::eval(expr, fuel)
    }
}

} // verus!
