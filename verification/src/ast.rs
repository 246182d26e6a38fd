//! The expression tree produced by the parser and rewritten by the evaluator,
//! together with its ghost model.

use vstd::prelude::*;
use vstd::string::StringExecFns;

verus! {

/// Ghost model of an expression: the same tree shape with every name taken as
/// its character sequence.  All contracts in this crate speak about values of
/// this type.
pub enum ExprView {
    Name(Seq<char>),
    Function(Seq<char>, Box<ExprView>),
    Application(Box<ExprView>, Box<ExprView>),
}

/// A lambda-calculus expression.
///
/// `Name` is a variable reference, `Function` a lambda abstraction binding
/// its first field in its body, and `Application` applies its first
/// sub-expression to its second.  Children are uniquely owned, so the tree is
/// finite and acyclic by construction.
#[derive(Debug, PartialEq)]
pub enum Expr {
    Name(String),
    Function(String, Box<Expr>),
    Application(Box<Expr>, Box<Expr>),
}

/// The ghost model of an expression tree, name by name.
pub open spec fn expr_view(e: &Expr) -> ExprView
    decreases e,
{
    match e {
        Expr::Name(n) => ExprView::Name(n@),
        Expr::Function(n, body) => ExprView::Function(n@, Box::new(expr_view(body))),
        Expr::Application(f, a) => ExprView::Application(
            Box::new(expr_view(f)),
            Box::new(expr_view(a)),
        ),
    }
}

impl View for Expr {
    type V = ExprView;

    open spec fn view(&self) -> ExprView {
        expr_view(self)
    }
}

impl Clone for Expr {
    /// A clone has the same view; the evaluator relies on this to duplicate
    /// the substituted argument once per occurrence.
    fn clone(&self) -> (res: Self)
        ensures
            res@ == self@,
        decreases self,
    {
        match self {
            Expr::Name(n) => Expr::Name(n.clone()),
            Expr::Function(n, body) => Expr::Function(n.clone(), Box::new((**body).clone())),
            Expr::Application(f, a) => Expr::Application(
                Box::new((**f).clone()),
                Box::new((**a).clone()),
            ),
        }
    }
}

/// The display text of an expression: a name shows as its text, a function
/// as `\\name.body` with no parentheses around the body, an application as
/// `(f a)`, always parenthesized.
pub open spec fn display_view(e: ExprView) -> Seq<char>
    decreases e,
{
    match e {
        ExprView::Name(n) => n,
        ExprView::Function(n, b) => seq!['\\'] + n + seq!['.'] + display_view(*b),
        ExprView::Application(f, a) => seq!['('] + display_view(*f) + seq![' '] + display_view(*a)
            + seq![')'],
    }
}

/// The lines of the debugging dump of an expression: each node contributes
/// its constructor's name, a name node or a binder also the name itself, in
/// depth-first order.
pub open spec fn debug_view(e: ExprView) -> Seq<Seq<char>>
    decreases e,
{
    match e {
        ExprView::Name(n) => seq!["Name"@, n],
        ExprView::Function(n, b) => seq!["Function"@, n] + debug_view(*b),
        ExprView::Application(f, a) => seq!["Application"@] + debug_view(*f) + debug_view(*a),
    }
}

/// The views of a sequence of strings.
pub open spec fn string_views(v: Seq<String>) -> Seq<Seq<char>> {
    v.map_values(|s: String| s@)
}

impl Expr {
    /// Render this expression in the display format of [`display_view`].
    pub fn to_display_string(&self) -> (r: String)
        ensures
            r@ == display_view(self@),
        decreases self,
    {
        match self {
            Expr::Name(n) => n.clone(),
            Expr::Function(n, body) => {
                let mut s = String::new();
                s.append("\\");
                s.append(n.as_str());
                s.append(".");
                let b = body.to_display_string();
                s.append(b.as_str());
                proof {
                    reveal_strlit("\\");
                    reveal_strlit(".");
                    assert(s@ =~= display_view(self@));
                }
                s
            }
            Expr::Application(f, a) => {
                let mut s = String::new();
                s.append("(");
                let fs = f.to_display_string();
                s.append(fs.as_str());
                s.append(" ");
                let args = a.to_display_string();
                s.append(args.as_str());
                s.append(")");
                proof {
                    reveal_strlit("(");
                    reveal_strlit(" ");
                    reveal_strlit(")");
                    assert(s@ =~= display_view(self@));
                }
                s
            }
        }
    }

    /// The lines of the debugging dump of this expression, exactly as
    /// [`debug_view`] lists them.
    pub fn debug_lines(&self) -> (r: Vec<String>)
        ensures
            string_views(r@) == debug_view(self@),
    {
        let mut out: Vec<String> = Vec::new();
        push_debug_lines(self, &mut out);
        proof {
            assert(string_views(Seq::<String>::empty()) + debug_view(self@) =~= debug_view(
                self@,
            ));
        }
        out
    }
}

fn push_debug_lines(e: &Expr, out: &mut Vec<String>)
    ensures
        string_views(final(out)@) == string_views(old(out)@) + debug_view(e@),
    decreases e,
{
    match e {
        Expr::Name(n) => {
            let ghost v0 = out@;
            out.push(String::from_str("Name"));
            out.push(n.clone());
            proof {
                assert(string_views(out@) =~= string_views(v0) + debug_view(e@));
            }
        }
        Expr::Function(n, body) => {
            let ghost v0 = out@;
            out.push(String::from_str("Function"));
            out.push(n.clone());
            let ghost v1 = out@;
            proof {
                assert(string_views(v1) =~= string_views(v0) + seq!["Function"@, n@]);
            }
            push_debug_lines(body, out);
            proof {
                assert(string_views(out@) =~= string_views(v0) + debug_view(e@));
            }
        }
        Expr::Application(f, a) => {
            let ghost v0 = out@;
            out.push(String::from_str("Application"));
            let ghost v1 = out@;
            proof {
                assert(string_views(v1) =~= string_views(v0) + seq!["Application"@]);
            }
            push_debug_lines(f, out);
            push_debug_lines(a, out);
            proof {
                assert(string_views(out@) =~= string_views(v0) + debug_view(e@));
            }
        }
    }
}

} // verus!
