//! The lambda-calculus parser.
//!
//! Recursive descent over the token sequence, one token of lookahead, no
//! backtracking.  The grammar is
//!
//! ```text
//! expr := NAME
//!       | LAMBDA NAME DOT expr
//!       | PAREN_LEFT expr expr PAREN_RIGHT
//! ```
//!
//! and a whole parse must consume one `expr` and then observe exactly `Eof`.
//! The ghost functions [`parse_at`], [`parse_function_at`] and
//! [`parse_application_at`] specify the parse from any position: they return
//! the parsed expression together with the position one past it, or the
//! position of the offending token.  The fuel argument only bounds the
//! recursion; the executable parser is proved to return exactly the outcome
//! of the specification at a fuel that is always sufficient.

use crate::ast::{Expr, ExprView};
use crate::lexer::{kind_display, token_views, Token, TokenKind, TokenKindView, TokenView};
use vstd::prelude::*;
use vstd::string::StringExecFns;

verus! {

/// The reason a parse failed: the offending token did not fit any
/// alternative of the grammar production under way.
#[derive(Debug, PartialEq)]
pub enum ParseError {
    UnexpectedToken(Token),
}

/// The outcome of a parse from one position: `None` only when the fuel ran
/// out, otherwise the expression and the position one past it, or the
/// position of the offending token.
pub open spec fn parse_at(s: Seq<TokenView>, i: int, fuel: nat) -> Option<
    Result<(ExprView, int), int>,
>
    decreases fuel,
{
    if fuel == 0 {
        None
    } else if !(0 <= i < s.len()) {
        None
    } else {
        match s[i].kind {
            TokenKindView::Name(n) => Some(Ok((ExprView::Name(n), i + 1))),
            TokenKindView::Lambda => parse_function_at(s, i + 1, (fuel - 1) as nat),
            TokenKindView::ParenLeft => parse_application_at(s, i + 1, (fuel - 1) as nat),
            _ => Some(Err(i)),
        }
    }
}

/// The rest of a `LAMBDA NAME DOT expr` production, entered one past the
/// `LAMBDA` token.
pub open spec fn parse_function_at(s: Seq<TokenView>, i: int, fuel: nat) -> Option<
    Result<(ExprView, int), int>,
>
    decreases fuel,
{
    if fuel == 0 {
        None
    } else if !(0 <= i < s.len()) {
        None
    } else {
        match s[i].kind {
            TokenKindView::Name(n) => if !(i + 1 < s.len()) {
                None
            } else if !(s[i + 1].kind is Dot) {
                Some(Err(i + 1))
            } else {
                match parse_at(s, i + 2, (fuel - 1) as nat) {
                    Some(Ok((body, j))) => Some(
                        Ok((ExprView::Function(n, Box::new(body)), j)),
                    ),
                    other => other,
                }
            },
            _ => Some(Err(i)),
        }
    }
}

/// The rest of a `PAREN_LEFT expr expr PAREN_RIGHT` production, entered one
/// past the `PAREN_LEFT` token.
pub open spec fn parse_application_at(s: Seq<TokenView>, i: int, fuel: nat) -> Option<
    Result<(ExprView, int), int>,
>
    decreases fuel,
{
    if fuel == 0 {
        None
    } else {
        match parse_at(s, i, (fuel - 1) as nat) {
            Some(Ok((f, j))) => match parse_at(s, j, (fuel - 1) as nat) {
                Some(Ok((a, k))) => if !(0 <= k < s.len()) {
                    None
                } else if s[k].kind is ParenRight {
                    Some(Ok((ExprView::Application(Box::new(f), Box::new(a)), k + 1)))
                } else {
                    Some(Err(k))
                },
                other => other,
            },
            other => other,
        }
    }
}

/// Fuel that always suffices for an `expr` starting at `i`.
pub open spec fn expr_fuel(s: Seq<TokenView>, i: int) -> nat {
    (2 * (s.len() - i) + 2) as nat
}

/// Fuel that always suffices for the rest of a production entered at `i`.
pub open spec fn inner_fuel(s: Seq<TokenView>, i: int) -> nat {
    (2 * (s.len() - i) + 3) as nat
}

/// The outcome of parsing one `expr` at position `i`.
pub open spec fn spec_parse_expr(s: Seq<TokenView>, i: int) -> Option<
    Result<(ExprView, int), int>,
> {
    parse_at(s, i, expr_fuel(s, i))
}

/// The outcome of parsing the rest of a function production at position `i`.
pub open spec fn spec_parse_function(s: Seq<TokenView>, i: int) -> Option<
    Result<(ExprView, int), int>,
> {
    parse_function_at(s, i, inner_fuel(s, i))
}

/// The outcome of parsing the rest of an application production at `i`.
pub open spec fn spec_parse_application(s: Seq<TokenView>, i: int) -> Option<
    Result<(ExprView, int), int>,
> {
    parse_application_at(s, i, inner_fuel(s, i))
}

/// Once the fuel suffices, more fuel changes nothing.
pub proof fn lemma_parse_at_mono(s: Seq<TokenView>, i: int, f1: nat, f2: nat)
    requires
        parse_at(s, i, f1) is Some,
        f1 <= f2,
    ensures
        parse_at(s, i, f2) == parse_at(s, i, f1),
    decreases f1,
{
    if 0 <= i < s.len() {
        match s[i].kind {
            TokenKindView::Lambda => {
                lemma_parse_function_mono(s, i + 1, (f1 - 1) as nat, (f2 - 1) as nat);
            }
            TokenKindView::ParenLeft => {
                lemma_parse_application_mono(s, i + 1, (f1 - 1) as nat, (f2 - 1) as nat);
            }
            _ => {}
        }
    }
}

proof fn lemma_parse_function_mono(s: Seq<TokenView>, i: int, f1: nat, f2: nat)
    requires
        parse_function_at(s, i, f1) is Some,
        f1 <= f2,
    ensures
        parse_function_at(s, i, f2) == parse_function_at(s, i, f1),
    decreases f1,
{
    if 0 <= i < s.len() {
        match s[i].kind {
            TokenKindView::Name(n) => {
                if i + 1 < s.len() && s[i + 1].kind is Dot {
                    lemma_parse_at_mono(s, i + 2, (f1 - 1) as nat, (f2 - 1) as nat);
                }
            }
            _ => {}
        }
    }
}

proof fn lemma_parse_application_mono(s: Seq<TokenView>, i: int, f1: nat, f2: nat)
    requires
        parse_application_at(s, i, f1) is Some,
        f1 <= f2,
    ensures
        parse_application_at(s, i, f2) == parse_application_at(s, i, f1),
    decreases f1,
{
    lemma_parse_at_mono(s, i, (f1 - 1) as nat, (f2 - 1) as nat);
    match parse_at(s, i, (f1 - 1) as nat) {
        Some(Ok((f, j))) => {
            lemma_parse_at_mono(s, j, (f1 - 1) as nat, (f2 - 1) as nat);
        }
        _ => {}
    }
}

/// There is an `Eof` token at or after position `i`.
pub open spec fn has_eof_from(s: Seq<TokenView>, i: int) -> bool {
    exists|k: int| i <= k < s.len() && (#[trigger] s[k]).kind is Eof
}

/// The Lambda Calculus parser.
///
/// This type wraps a vector of tokens in an interface for extracting valid
/// syntactic expressions; `index` is the position of the next unconsumed
/// token.
pub struct Parser {
    pub tokens: Vec<Token>,
    pub index: usize,
}

impl Parser {
    /// The views of the tokens this parser was given.
    pub open spec fn toks(&self) -> Seq<TokenView> {
        token_views(self.tokens@)
    }

    /// Create a new parser.
    pub fn new(tokens: Vec<Token>) -> (r: Self)
        ensures
            r.tokens == tokens,
            r.index == 0,
    {
        Self { tokens, index: 0 }
    }

    /// Create a new parser from a borrowed slice of tokens.
    pub fn from_iterable(tokens: &[Token]) -> (r: Self)
        ensures
            r.toks() == token_views(tokens@),
            r.index == 0,
    {
        let mut owned: Vec<Token> = Vec::new();
        let mut i: usize = 0;
        while i < tokens.len()
            invariant
                i <= tokens@.len(),
                owned@.len() == i as int,
                forall|k: int| 0 <= k < i ==> (#[trigger] owned@[k])@ == tokens@[k]@,
            decreases tokens@.len() - i,
        {
            owned.push(tokens[i].clone());
            i = i + 1;
        }
        proof {
            assert(token_views(owned@) =~= token_views(tokens@));
        }
        Self { tokens: owned, index: 0 }
    }

    /// Pop a token from the input and return it.
    ///
    /// The caller must know that a token is left; the whole-parse entry
    /// points guarantee this by never consuming past the `Eof` token they
    /// require.
    fn pop_token(&mut self) -> (r: Token)
        requires
            old(self).index < old(self).tokens@.len(),
        ensures
            final(self).tokens == old(self).tokens,
            final(self).index == old(self).index + 1,
            r@ == old(self).toks()[old(self).index as int],
    {
        let t = self.tokens[self.index].clone();
        proof {
            vstd::std_specs::vec::axiom_spec_len(&self.tokens);
        }
        self.index = self.index + 1;
        t
    }

    /// Parse a complete expression followed by `Eof`.
    ///
    /// Succeeds exactly when one `expr` production parses from the start of
    /// the tokens and the next token after it is `Eof`; everything consumed
    /// before that `Eof` is a non-`Eof` token.  On failure the error carries
    /// exactly the offending token.
    pub fn parse(tokens: Vec<Token>) -> (r: Result<Expr, ParseError>)
        requires
            has_eof_from(token_views(tokens@), 0),
        ensures
            ({
                let s = token_views(tokens@);
                match r {
                    Ok(expr) => spec_parse_expr(s, 0) matches Some(Ok(p)) && expr@ == p.0 && 0
                        <= p.1 < s.len() && s[p.1].kind is Eof && (forall|k: int|
                        0 <= k < p.1 ==> !((#[trigger] s[k]).kind is Eof)),
                    Err(e) => e matches ParseError::UnexpectedToken(t) && match spec_parse_expr(
                        s,
                        0,
                    ) {
                        Some(Ok(p)) => !(s[p.1].kind is Eof) && t@ == s[p.1],
                        Some(Err(k)) => t@ == s[k],
                        None => false,
                    },
                }
            }),
    {
        let ghost s = token_views(tokens@);
        let mut parser = Self::new(tokens);
        let expr = match parser.parse_expr() {
            Ok(expr) => expr,
            Err(e) => {
                return Err(e);
            }
        };
        proof {
            let k = choose|k: int| 0 <= k < s.len() && (#[trigger] s[k]).kind is Eof;
            assert(parser.index <= k < s.len());
        }
        let token = parser.pop_token();
        match token.kind {
            TokenKind::Eof => Ok(expr),
            kind => Err(ParseError::UnexpectedToken(Token { kind, span: token.span })),
        }
    }

    /// Parse and return the next expression in the stream.
    ///
    /// Returns exactly the outcome of [`spec_parse_expr`] at the current
    /// position: the parsed expression with the index placed one past it, or
    /// the error carrying the offending token, with the index placed one
    /// past that token.
    pub fn parse_expr(&mut self) -> (r: Result<Expr, ParseError>)
        requires
            old(self).index <= old(self).toks().len(),
            has_eof_from(old(self).toks(), old(self).index as int),
        ensures
            final(self).tokens == old(self).tokens,
            old(self).index < final(self).index <= old(self).toks().len(),
            match r {
                Ok(expr) => spec_parse_expr(old(self).toks(), old(self).index as int) == Some(
                    Result::<(ExprView, int), int>::Ok((expr@, final(self).index as int)),
                ) && (forall|k: int|
                    old(self).index <= k < final(self).index ==> !((#[trigger] old(
                        self,
                    ).toks()[k]).kind is Eof)),
                Err(e) => e matches ParseError::UnexpectedToken(t) && spec_parse_expr(
                    old(self).toks(),
                    old(self).index as int,
                ) == Some(Result::<(ExprView, int), int>::Err(final(self).index - 1)) && t@ == old(
                    self,
                ).toks()[final(self).index - 1],
            },
        decreases old(self).toks().len() - old(self).index, 0int,
    {
        let ghost s = self.toks();
        let ghost i0 = self.index as int;
        proof {
            let k = choose|k: int| i0 <= k < s.len() && (#[trigger] s[k]).kind is Eof;
            assert(i0 < s.len());
        }
        let token = self.pop_token();
        match token.kind {
            TokenKind::Lambda => {
                proof {
                    let k = choose|k: int| i0 <= k < s.len() && (#[trigger] s[k]).kind is Eof;
                    assert(i0 + 1 <= k < s.len());
                }
                self.parse_expr_function()
            }
            TokenKind::Name(n) => Ok(Expr::Name(n)),
            TokenKind::ParenLeft => {
                proof {
                    let k = choose|k: int| i0 <= k < s.len() && (#[trigger] s[k]).kind is Eof;
                    assert(i0 + 1 <= k < s.len());
                }
                self.parse_expr_application()
            }
            kind => Err(ParseError::UnexpectedToken(Token { kind, span: token.span })),
        }
    }

    /// Parse the rest of a function production: a bound name, a dot, and the
    /// body expression.
    fn parse_expr_function(&mut self) -> (r: Result<Expr, ParseError>)
        requires
            old(self).index <= old(self).toks().len(),
            has_eof_from(old(self).toks(), old(self).index as int),
        ensures
            final(self).tokens == old(self).tokens,
            old(self).index < final(self).index <= old(self).toks().len(),
            match r {
                Ok(expr) => spec_parse_function(old(self).toks(), old(self).index as int) == Some(
                    Result::<(ExprView, int), int>::Ok((expr@, final(self).index as int)),
                ) && (forall|k: int|
                    old(self).index <= k < final(self).index ==> !((#[trigger] old(
                        self,
                    ).toks()[k]).kind is Eof)),
                Err(e) => e matches ParseError::UnexpectedToken(t) && spec_parse_function(
                    old(self).toks(),
                    old(self).index as int,
                ) == Some(Result::<(ExprView, int), int>::Err(final(self).index - 1)) && t@ == old(
                    self,
                ).toks()[final(self).index - 1],
            },
        decreases old(self).toks().len() - old(self).index, 1int,
    {
        let ghost s = self.toks();
        let ghost i0 = self.index as int;
        proof {
            let k = choose|k: int| i0 <= k < s.len() && (#[trigger] s[k]).kind is Eof;
            assert(i0 < s.len());
        }
        let token = self.pop_token();
        let name = match token.kind {
            TokenKind::Name(n) => n,
            kind => {
                return Err(ParseError::UnexpectedToken(Token { kind, span: token.span }));
            }
        };
        proof {
            let k = choose|k: int| i0 <= k < s.len() && (#[trigger] s[k]).kind is Eof;
            assert(i0 + 1 <= k < s.len());
        }
        let token = self.pop_token();
        match token.kind {
            TokenKind::Dot => {}
            kind => {
                return Err(ParseError::UnexpectedToken(Token { kind, span: token.span }));
            }
        }
        proof {
            let k = choose|k: int| i0 <= k < s.len() && (#[trigger] s[k]).kind is Eof;
            assert(i0 + 2 <= k < s.len());
        }
        let body = match self.parse_expr() {
            Ok(body) => body,
            Err(e) => {
                proof {
                    lemma_parse_at_mono(
                        s,
                        i0 + 2,
                        expr_fuel(s, i0 + 2),
                        (inner_fuel(s, i0) - 1) as nat,
                    );
                }
                return Err(e);
            }
        };
        proof {
            lemma_parse_at_mono(s, i0 + 2, expr_fuel(s, i0 + 2), (inner_fuel(s, i0) - 1) as nat);
        }
        Ok(Expr::Function(name, Box::new(body)))
    }

    /// Parse the rest of an application production: two expressions and the
    /// closing parenthesis.
    fn parse_expr_application(&mut self) -> (r: Result<Expr, ParseError>)
        requires
            old(self).index <= old(self).toks().len(),
            has_eof_from(old(self).toks(), old(self).index as int),
        ensures
            final(self).tokens == old(self).tokens,
            old(self).index < final(self).index <= old(self).toks().len(),
            match r {
                Ok(expr) => spec_parse_application(old(self).toks(), old(self).index as int)
                    == Some(
                    Result::<(ExprView, int), int>::Ok((expr@, final(self).index as int)),
                ) && (forall|k: int|
                    old(self).index <= k < final(self).index ==> !((#[trigger] old(
                        self,
                    ).toks()[k]).kind is Eof)),
                Err(e) => e matches ParseError::UnexpectedToken(t) && spec_parse_application(
                    old(self).toks(),
                    old(self).index as int,
                ) == Some(Result::<(ExprView, int), int>::Err(final(self).index - 1)) && t@ == old(
                    self,
                ).toks()[final(self).index - 1],
            },
        decreases old(self).toks().len() - old(self).index, 1int,
    {
        let ghost s = self.toks();
        let ghost i0 = self.index as int;
        let func_expr = match self.parse_expr() {
            Ok(expr) => expr,
            Err(e) => {
                proof {
                    lemma_parse_at_mono(s, i0, expr_fuel(s, i0), (inner_fuel(s, i0) - 1) as nat);
                }
                return Err(e);
            }
        };
        proof {
            lemma_parse_at_mono(s, i0, expr_fuel(s, i0), (inner_fuel(s, i0) - 1) as nat);
        }
        let ghost j = self.index as int;
        let arg_expr = match self.parse_expr() {
            Ok(expr) => expr,
            Err(e) => {
                proof {
                    lemma_parse_at_mono(s, j, expr_fuel(s, j), (inner_fuel(s, i0) - 1) as nat);
                }
                return Err(e);
            }
        };
        proof {
            lemma_parse_at_mono(s, j, expr_fuel(s, j), (inner_fuel(s, i0) - 1) as nat);
        }
        proof {
            let k = choose|k: int| j <= k < s.len() && (#[trigger] s[k]).kind is Eof;
            assert(self.index as int <= k < s.len());
        }
        let token = self.pop_token();
        match token.kind {
            TokenKind::ParenRight => Ok(
                Expr::Application(Box::new(func_expr), Box::new(arg_expr)),
            ),
            kind => Err(ParseError::UnexpectedToken(Token { kind, span: token.span })),
        }
    }
}

/// The decimal digit `d` as a character.
pub open spec fn digit_char(d: nat) -> char {
    if d == 0 {
        '0'
    } else if d == 1 {
        '1'
    } else if d == 2 {
        '2'
    } else if d == 3 {
        '3'
    } else if d == 4 {
        '4'
    } else if d == 5 {
        '5'
    } else if d == 6 {
        '6'
    } else if d == 7 {
        '7'
    } else if d == 8 {
        '8'
    } else {
        '9'
    }
}

/// The decimal rendering of `n`, most significant digit first.
pub open spec fn decimal(n: nat) -> Seq<char>
    decreases n,
{
    if n < 10 {
        seq![digit_char(n)]
    } else {
        decimal(n / 10) + seq![digit_char(n % 10)]
    }
}

fn push_digit(s: &mut String, d: usize)
    requires
        d < 10,
    ensures
        final(s)@ == old(s)@ + seq![digit_char(d as nat)],
{
    if d == 0 {
        s.append("0");
        proof {
            reveal_strlit("0");
            assert(final(s)@ =~= old(s)@ + seq![digit_char(d as nat)]);
        }
    } else if d == 1 {
        s.append("1");
        proof {
            reveal_strlit("1");
            assert(final(s)@ =~= old(s)@ + seq![digit_char(d as nat)]);
        }
    } else if d == 2 {
        s.append("2");
        proof {
            reveal_strlit("2");
            assert(final(s)@ =~= old(s)@ + seq![digit_char(d as nat)]);
        }
    } else if d == 3 {
        s.append("3");
        proof {
            reveal_strlit("3");
            assert(final(s)@ =~= old(s)@ + seq![digit_char(d as nat)]);
        }
    } else if d == 4 {
        s.append("4");
        proof {
            reveal_strlit("4");
            assert(final(s)@ =~= old(s)@ + seq![digit_char(d as nat)]);
        }
    } else if d == 5 {
        s.append("5");
        proof {
            reveal_strlit("5");
            assert(final(s)@ =~= old(s)@ + seq![digit_char(d as nat)]);
        }
    } else if d == 6 {
        s.append("6");
        proof {
            reveal_strlit("6");
            assert(final(s)@ =~= old(s)@ + seq![digit_char(d as nat)]);
        }
    } else if d == 7 {
        s.append("7");
        proof {
            reveal_strlit("7");
            assert(final(s)@ =~= old(s)@ + seq![digit_char(d as nat)]);
        }
    } else if d == 8 {
        s.append("8");
        proof {
            reveal_strlit("8");
            assert(final(s)@ =~= old(s)@ + seq![digit_char(d as nat)]);
        }
    } else {
        s.append("9");
        proof {
            reveal_strlit("9");
            assert(final(s)@ =~= old(s)@ + seq![digit_char(d as nat)]);
        }
    }
}

fn decimal_string(n: usize) -> (r: String)
    ensures
        r@ == decimal(n as nat),
    decreases n,
{
    if n < 10 {
        let mut s = String::new();
        push_digit(&mut s, n);
        proof {
            assert(s@ =~= decimal(n as nat));
        }
        s
    } else {
        let mut s = decimal_string(n / 10);
        push_digit(&mut s, n % 10);
        s
    }
}

impl ParseError {
    /// Render this error's display text: the offending token's kind and the
    /// line and column of its first character.
    pub fn message(&self) -> (r: String)
        ensures
            self matches ParseError::UnexpectedToken(t) ==> r@ == "unexpected token "@
                + kind_display(t@.kind) + " at "@ + decimal(t@.line) + ":"@ + decimal(t@.column),
    {
        let t = match self {
            ParseError::UnexpectedToken(t) => t,
        };
        let mut s = String::from_str("unexpected token ");
        let kind_name = t.kind.display_string();
        s.append(kind_name.as_str());
        s.append(" at ");
        let line = decimal_string(t.span.line);
        s.append(line.as_str());
        s.append(":");
        let column = decimal_string(t.span.column);
        s.append(column.as_str());
        proof {
            assert(s@ =~= "unexpected token "@ + kind_display(t@.kind) + " at "@ + decimal(
                t@.line,
            ) + ":"@ + decimal(t@.column));
        }
        s
    }
}

} // verus!
