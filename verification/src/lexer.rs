//! The lambda-calculus lexer.
//!
//! A source string is scanned left to right, character by character.  Runs of
//! whitespace are skipped; each of the four reserved characters is a one-token
//! punctuation mark; any other character starts a name, which extends over the
//! maximal run of non-reserved, non-whitespace characters.  One `Eof` token is
//! emitted after the last character.  Every token carries the 1-based line and
//! column of its first character, counted over the character sequence.
//!
//! The ghost function [`spec_lex`] is the full specification of this scan;
//! [`Lexer::tokenize`] returns exactly the token sequence it describes.

use vstd::prelude::*;
use vstd::string::{StrSliceExecFns, StringExecFns};

verus! {

/// The kind of a token: one of the four punctuation marks, a name holding its
/// text, or the end-of-input sentinel.
#[derive(Debug, PartialEq)]
pub enum TokenKind {
    Dot,
    Eof,
    Lambda,
    Name(String),
    ParenLeft,
    ParenRight,
}

/// Ghost model of a token kind, with name text as a character sequence.
pub enum TokenKindView {
    Dot,
    Eof,
    Lambda,
    Name(Seq<char>),
    ParenLeft,
    ParenRight,
}

impl View for TokenKind {
    type V = TokenKindView;

    open spec fn view(&self) -> TokenKindView {
        match self {
            TokenKind::Dot => TokenKindView::Dot,
            TokenKind::Eof => TokenKindView::Eof,
            TokenKind::Lambda => TokenKindView::Lambda,
            TokenKind::Name(n) => TokenKindView::Name(n@),
            TokenKind::ParenLeft => TokenKindView::ParenLeft,
            TokenKind::ParenRight => TokenKindView::ParenRight,
        }
    }
}

impl Clone for TokenKind {
    /// A clone has the same view.
    fn clone(&self) -> (res: Self)
        ensures
            res@ == self@,
    {
        match self {
            TokenKind::Dot => TokenKind::Dot,
            TokenKind::Eof => TokenKind::Eof,
            TokenKind::Lambda => TokenKind::Lambda,
            TokenKind::Name(n) => TokenKind::Name(n.clone()),
            TokenKind::ParenLeft => TokenKind::ParenLeft,
            TokenKind::ParenRight => TokenKind::ParenRight,
        }
    }
}

/// The 1-based line and column of a token's first character, measured in
/// characters of the source (not bytes).
#[derive(Debug, PartialEq, Eq, Structural, Clone, Copy)]
pub struct Span {
    pub line: usize,
    pub column: usize,
}

impl Span {
    /// Create a new span from line and column numbers.
    pub fn new(line: usize, column: usize) -> (r: Self)
        ensures
            r.line == line,
            r.column == column,
    {
        Self { line, column }
    }
}

/// A token: its kind together with the position of its first character.
#[derive(Debug, PartialEq)]
pub struct Token {
    pub kind: TokenKind,
    pub span: Span,
}

/// Ghost model of a token; positions are unbounded naturals.
pub struct TokenView {
    pub kind: TokenKindView,
    pub line: nat,
    pub column: nat,
}

impl View for Token {
    type V = TokenView;

    open spec fn view(&self) -> TokenView {
        TokenView { kind: self.kind@, line: self.span.line as nat, column: self.span.column as nat }
    }
}

impl Token {
    /// Create a new token from kind and location information.
    pub fn new(kind: TokenKind, span: Span) -> (r: Self)
        ensures
            r.kind == kind,
            r.span == span,
    {
        Self { kind, span }
    }
}

impl Clone for Token {
    /// A clone has the same view.
    fn clone(&self) -> (res: Self)
        ensures
            res@ == self@,
    {
        Token { kind: self.kind.clone(), span: self.span }
    }
}

/// The four reserved punctuation characters.
pub open spec fn is_reserved_char(c: char) -> bool {
    c == '\\' || c == '.' || c == '(' || c == ')'
}

/// The whitespace characters: exactly the characters with the Unicode
/// `White_Space` property, the set that `char::is_whitespace` accepts.
pub open spec fn spec_is_whitespace(c: char) -> bool {
    c == '\u{0009}' || c == '\u{000A}' || c == '\u{000B}' || c == '\u{000C}' || c == '\u{000D}'
        || c == '\u{0020}' || c == '\u{0085}' || c == '\u{00A0}' || c == '\u{1680}'
        || c == '\u{2000}' || c == '\u{2001}' || c == '\u{2002}' || c == '\u{2003}'
        || c == '\u{2004}' || c == '\u{2005}' || c == '\u{2006}' || c == '\u{2007}'
        || c == '\u{2008}' || c == '\u{2009}' || c == '\u{200A}' || c == '\u{2028}'
        || c == '\u{2029}' || c == '\u{202F}' || c == '\u{205F}' || c == '\u{3000}'
}

/// A character that can appear in a name: anything that is neither reserved
/// punctuation nor whitespace.
pub open spec fn is_name_char(c: char) -> bool {
    !is_reserved_char(c) && !spec_is_whitespace(c)
}

/// Returns `true` if `c` is a character which can appear in a name, and
/// `false` otherwise.
pub fn is_name_character(c: char) -> (r: bool)
    ensures
        r == is_name_char(c),
{
    c != '\\' && c != '.' && c != '(' && c != ')' && !is_whitespace_char(c)
}

/// Whitespace test over the explicit `White_Space` set.
pub fn is_whitespace_char(c: char) -> (r: bool)
    ensures
        r == spec_is_whitespace(c),
{
    c == '\u{0009}' || c == '\u{000A}' || c == '\u{000B}' || c == '\u{000C}' || c == '\u{000D}'
        || c == '\u{0020}' || c == '\u{0085}' || c == '\u{00A0}' || c == '\u{1680}'
        || c == '\u{2000}' || c == '\u{2001}' || c == '\u{2002}' || c == '\u{2003}'
        || c == '\u{2004}' || c == '\u{2005}' || c == '\u{2006}' || c == '\u{2007}'
        || c == '\u{2008}' || c == '\u{2009}' || c == '\u{200A}' || c == '\u{2028}'
        || c == '\u{2029}' || c == '\u{202F}' || c == '\u{205F}' || c == '\u{3000}'
}

/// Length of the maximal run of name characters starting at `i`.
pub open spec fn name_run_len(s: Seq<char>, i: int) -> nat
    decreases s.len() - i when 0 <= i <= s.len()
{
    if i < s.len() && is_name_char(s[i]) {
        1 + name_run_len(s, i + 1)
    } else {
        0
    }
}

/// The name run starting at `i` stays inside the source, consists of name
/// characters only, and is maximal.
pub proof fn lemma_name_run(s: Seq<char>, i: int)
    requires
        0 <= i <= s.len(),
    ensures
        i + name_run_len(s, i) <= s.len(),
        forall|k: int| i <= k < i + name_run_len(s, i) ==> is_name_char(#[trigger] s[k]),
        i + name_run_len(s, i) == s.len() || !is_name_char(s[i + name_run_len(s, i)]),
    decreases s.len() - i,
{
    if i < s.len() && is_name_char(s[i]) {
        lemma_name_run(s, i + 1);
    }
}

/// Ghost token construction.
pub open spec fn tokv(kind: TokenKindView, line: nat, column: nat) -> TokenView {
    TokenView { kind, line, column }
}

/// The specification of the scan: the tokens produced from position `i` of
/// the source, with the next character sitting at the given line and column.
/// The sequence always ends in exactly one `Eof` token placed immediately
/// past the last consumed character.
pub open spec fn spec_lex(s: Seq<char>, i: int, line: nat, col: nat) -> Seq<TokenView>
    decreases s.len() - i when 0 <= i <= s.len()
{
    if i >= s.len() {
        seq![tokv(TokenKindView::Eof, line, col)]
    } else {
        let c = s[i];
        if spec_is_whitespace(c) {
            if c == '\n' {
                spec_lex(s, i + 1, line + 1, 1)
            } else {
                spec_lex(s, i + 1, line, col + 1)
            }
        } else if c == '\\' {
            seq![tokv(TokenKindView::Lambda, line, col)] + spec_lex(s, i + 1, line, col + 1)
        } else if c == '(' {
            seq![tokv(TokenKindView::ParenLeft, line, col)] + spec_lex(s, i + 1, line, col + 1)
        } else if c == ')' {
            seq![tokv(TokenKindView::ParenRight, line, col)] + spec_lex(s, i + 1, line, col + 1)
        } else if c == '.' {
            seq![tokv(TokenKindView::Dot, line, col)] + spec_lex(s, i + 1, line, col + 1)
        } else {
            proof {
                lemma_name_run(s, i);
            }
            let run = name_run_len(s, i);
            seq![tokv(TokenKindView::Name(s.subrange(i, i + run)), line, col)] + spec_lex(
                s,
                i + run,
                line,
                col + run,
            )
        }
    }
}

/// The name run is exactly `j - i` when the characters in `[i, j)` are name
/// characters and `j` sits at the end of the source or at a non-name
/// character.
pub proof fn lemma_name_run_extent(s: Seq<char>, i: int, j: int)
    requires
        0 <= i <= j <= s.len(),
        forall|k: int| i <= k < j ==> is_name_char(#[trigger] s[k]),
        j == s.len() || !is_name_char(s[j]),
    ensures
        name_run_len(s, i) == j - i,
    decreases j - i,
{
    if i < j {
        lemma_name_run_extent(s, i + 1, j);
    }
}

/// The views of a sequence of tokens.
pub open spec fn token_views(ts: Seq<Token>) -> Seq<TokenView> {
    ts.map_values(|t: Token| t@)
}

/// The lambda calculus lexer.
///
/// This type combs through the source's characters and generates a vector of
/// tokens to be consumed by the parser.  `pos` counts consumed characters;
/// `line` and `column` locate the next unconsumed one.
pub struct Lexer {
    pub source: String,
    pub pos: usize,
    pub line: usize,
    pub column: usize,
    pub dispensed_eof: bool,
}

impl Lexer {
    /// The lexer's invariant: the position is inside the source, positions
    /// are 1-based, the remaining input cannot overflow the position
    /// counters, and once `Eof` has been handed out the input is exhausted.
    pub open spec fn wf(&self) -> bool {
        &&& self.pos <= self.source@.len()
        &&& 1 <= self.line
        &&& 1 <= self.column
        &&& self.line + (self.source@.len() - self.pos) <= usize::MAX
        &&& self.column + (self.source@.len() - self.pos) <= usize::MAX
        &&& self.dispensed_eof ==> self.pos == self.source@.len()
    }

    /// The tokens this lexer has still to produce.
    pub open spec fn remaining(&self) -> Seq<TokenView> {
        if self.dispensed_eof {
            Seq::empty()
        } else {
            spec_lex(self.source@, self.pos as int, self.line as nat, self.column as nat)
        }
    }

    /// Termination measure for driving the lexer to exhaustion.
    pub open spec fn step_measure(&self) -> int {
        2 * (self.source@.len() - self.pos) + if self.dispensed_eof {
            0int
        } else {
            1int
        }
    }

    pub fn new(source: &str) -> (r: Self)
        requires
            source@.len() < usize::MAX,
        ensures
            r.wf(),
            r.source@ == source@,
            r.pos == 0,
            r.line == 1,
            r.column == 1,
            !r.dispensed_eof,
    {
        Self {
            source: source.to_owned(),
            pos: 0,
            line: 1,
            column: 1,
            dispensed_eof: false,
        }
    }

    /// Consume one character, keeping the line and column information up to
    /// date.
    fn next_char(&mut self) -> (r: Option<char>)
        requires
            old(self).wf(),
        ensures
            final(self).wf(),
            final(self).source == old(self).source,
            final(self).dispensed_eof == old(self).dispensed_eof,
            if old(self).pos < old(self).source@.len() {
                &&& r == Some(old(self).source@[old(self).pos as int])
                &&& final(self).pos == old(self).pos + 1
                &&& if old(self).source@[old(self).pos as int] == '\n' {
                    final(self).line == old(self).line + 1 && final(self).column == 1
                } else {
                    final(self).line == old(self).line && final(self).column == old(self).column
                        + 1
                }
            } else {
                r is None && *final(self) == *old(self)
            },
    {
        if self.pos < self.source.as_str().unicode_len() {
            let c = self.source.as_str().get_char(self.pos);
            self.pos = self.pos + 1;
            if c == '\n' {
                self.line = self.line + 1;
                self.column = 1;
            } else {
                self.column = self.column + 1;
            }
            Some(c)
        } else {
            None
        }
    }

    /// Skip past all leading whitespace.
    ///
    /// This function sets the state of the lexer to point to the first
    /// non-whitespace character in the stream.  It ensures that the line and
    /// column information are updated appropriately, and skipping never
    /// changes the tokens still to come.
    fn skip_whitespace(&mut self)
        requires
            old(self).wf(),
        ensures
            final(self).wf(),
            final(self).source == old(self).source,
            final(self).dispensed_eof == old(self).dispensed_eof,
            old(self).pos <= final(self).pos,
            old(self).pos == old(self).source@.len() ==> *final(self) == *old(self),
            final(self).pos == final(self).source@.len() || !spec_is_whitespace(
                final(self).source@[final(self).pos as int],
            ),
            spec_lex(
                final(self).source@,
                final(self).pos as int,
                final(self).line as nat,
                final(self).column as nat,
            ) == spec_lex(
                old(self).source@,
                old(self).pos as int,
                old(self).line as nat,
                old(self).column as nat,
            ),
    {
        loop
            invariant
                self.wf(),
                self.source == old(self).source,
                self.dispensed_eof == old(self).dispensed_eof,
                old(self).pos <= self.pos,
                old(self).pos == old(self).source@.len() ==> *self == *old(self),
                spec_lex(
                    self.source@,
                    self.pos as int,
                    self.line as nat,
                    self.column as nat,
                ) == spec_lex(
                    old(self).source@,
                    old(self).pos as int,
                    old(self).line as nat,
                    old(self).column as nat,
                ),
            ensures
                self.pos == self.source@.len() || !spec_is_whitespace(
                    self.source@[self.pos as int],
                ),
            decreases self.source@.len() - self.pos,
        {
            if self.pos >= self.source.as_str().unicode_len() {
                break;
            }
            let c = self.source.as_str().get_char(self.pos);
            if !is_whitespace_char(c) {
                break;
            }
            let _ = self.next_char();
        }
    }

    /// Produce the next token, or `None` once `Eof` has been handed out.
    pub fn next(&mut self) -> (r: Option<Token>)
        requires
            old(self).wf(),
        ensures
            final(self).wf(),
            final(self).source == old(self).source,
            match r {
                Some(t) => !old(self).dispensed_eof && old(self).remaining() == seq![t@]
                    + final(self).remaining() && final(self).step_measure() < old(
                    self,
                ).step_measure(),
                None => old(self).dispensed_eof && *final(self) == *old(self),
            },
    {
        self.skip_whitespace();

        let span = Span::new(self.line, self.column);
        let ghost s = self.source@;
        let ghost pos1 = self.pos as int;
        let ghost line1 = self.line as nat;
        let ghost col1 = self.column as nat;

        let c_opt = self.next_char();
        let c = match c_opt {
            None => {
                if self.dispensed_eof {
                    return None;
                }
                self.dispensed_eof = true;
                return Some(Token::new(TokenKind::Eof, span));
            }
            Some(c) => c,
        };

        let kind = if c == '\\' {
            TokenKind::Lambda
        } else if c == '(' {
            TokenKind::ParenLeft
        } else if c == ')' {
            TokenKind::ParenRight
        } else if c == '.' {
            TokenKind::Dot
        } else {
            // A name: greedily consume the maximal run of name characters.
            let start = self.pos - 1;
            loop
                invariant
                    self.wf(),
                    self.source == old(self).source,
                    self.source@ == s,
                    self.dispensed_eof == old(self).dispensed_eof,
                    pos1 == start,
                    0 <= start < self.pos <= s.len(),
                    forall|k: int| start <= k < self.pos ==> is_name_char(#[trigger] s[k]),
                    self.line as nat == line1,
                    self.column as nat == col1 + (self.pos - start),
                ensures
                    self.pos == s.len() || !is_name_char(s[self.pos as int]),
                decreases s.len() - self.pos,
            {
                if self.pos >= self.source.as_str().unicode_len() {
                    break;
                }
                let c2 = self.source.as_str().get_char(self.pos);
                if !is_name_character(c2) {
                    break;
                }
                let _ = self.next_char();
            }
            proof {
                lemma_name_run_extent(s, start as int, self.pos as int);
            }
            let text = self.source.as_str().substring_char(start, self.pos).to_owned();
            TokenKind::Name(text)
        };

        Some(Token::new(kind, span))
    }

    /// Tokenize a whole source string: exactly the token sequence that
    /// [`spec_lex`] prescribes from the start of the source.
    pub fn tokenize(source: &str) -> (r: Vec<Token>)
        requires
            source@.len() < usize::MAX,
        ensures
            token_views(r@) == spec_lex(source@, 0, 1, 1),
    {
        let mut lexer = Lexer::new(source);
        let mut tokens: Vec<Token> = Vec::new();
        loop
            invariant
                lexer.wf(),
                lexer.source@ == source@,
                token_views(tokens@) + lexer.remaining() == spec_lex(source@, 0, 1, 1),
            ensures
                token_views(tokens@) == spec_lex(source@, 0, 1, 1),
            decreases lexer.step_measure(),
        {
            match lexer.next() {
                Some(t) => {
                    proof {
                        assert(token_views(tokens@.push(t)) =~= token_views(tokens@).push(t@));
                        assert(token_views(tokens@).push(t@) + lexer.remaining() =~= token_views(
                            tokens@,
                        ) + (seq![t@] + lexer.remaining()));
                    }
                    tokens.push(t);
                }
                None => {
                    proof {
                        assert(token_views(tokens@) + lexer.remaining() =~= token_views(tokens@));
                    }
                    break;
                }
            }
        }
        tokens
    }
}

/// `a` stands at or before `b` in reading order.
pub open spec fn pos_le(a: TokenView, b: TokenView) -> bool {
    a.line < b.line || (a.line == b.line && a.column <= b.column)
}

/// The token `t` stands at or after the position `(line, col)`.
pub open spec fn at_or_after(t: TokenView, line: nat, col: nat) -> bool {
    line < t.line || (line == t.line && col <= t.column)
}

/// Tokenization always terminates in exactly one `Eof` token: the scan from
/// any in-range state produces a non-empty sequence whose last token — and no
/// other — is `Eof`, standing at or after every other token's position.
pub proof fn lemma_lex_terminal_eof(s: Seq<char>, i: int, line: nat, col: nat)
    requires
        0 <= i <= s.len(),
    ensures
        spec_lex(s, i, line, col).len() >= 1,
        spec_lex(s, i, line, col).last().kind is Eof,
        forall|k: int|
            0 <= k < spec_lex(s, i, line, col).len() - 1 ==> !(#[trigger] spec_lex(
                s,
                i,
                line,
                col,
            )[k].kind is Eof),
        forall|k: int|
            0 <= k < spec_lex(s, i, line, col).len() ==> pos_le(
                #[trigger] spec_lex(s, i, line, col)[k],
                spec_lex(s, i, line, col).last(),
            ),
        forall|k: int|
            0 <= k < spec_lex(s, i, line, col).len() ==> at_or_after(
                #[trigger] spec_lex(s, i, line, col)[k],
                line,
                col,
            ),
    decreases s.len() - i,
{
    let toks = spec_lex(s, i, line, col);
    if i >= s.len() {
    } else {
        let c = s[i];
        if spec_is_whitespace(c) {
            if c == '\n' {
                lemma_lex_terminal_eof(s, i + 1, line + 1, 1);
            } else {
                lemma_lex_terminal_eof(s, i + 1, line, col + 1);
            }
        } else if is_reserved_char(c) {
            let rest = spec_lex(s, i + 1, line, (col + 1) as nat);
            lemma_lex_terminal_eof(s, i + 1, line, col + 1);
            assert(toks.last() == rest.last());
            assert(forall|k: int| 0 <= k < rest.len() ==> toks[k + 1] == #[trigger] rest[k]);
        } else {
            lemma_name_run(s, i);
            let run = name_run_len(s, i);
            let rest = spec_lex(s, i + run, line, (col + run) as nat);
            lemma_lex_terminal_eof(s, i + run, line, col + run);
            assert(toks.last() == rest.last());
            assert(forall|k: int| 0 <= k < rest.len() ==> toks[k + 1] == #[trigger] rest[k]);
        }
    }
}

/// For every source string, tokenization terminates in a sequence ending in
/// exactly one `Eof` token, placed at or after every other token's position.
pub proof fn lemma_tokenize_terminal_eof(s: Seq<char>)
    ensures
        spec_lex(s, 0, 1, 1).len() >= 1,
        spec_lex(s, 0, 1, 1).last().kind is Eof,
        forall|k: int|
            0 <= k < spec_lex(s, 0, 1, 1).len() - 1 ==> !(#[trigger] spec_lex(
                s,
                0,
                1,
                1,
            )[k].kind is Eof),
        forall|k: int|
            0 <= k < spec_lex(s, 0, 1, 1).len() ==> pos_le(
                #[trigger] spec_lex(s, 0, 1, 1)[k],
                spec_lex(s, 0, 1, 1).last(),
            ),
{
    lemma_lex_terminal_eof(s, 0, 1, 1);
}

/// The text a token contributes to the source: a name's own text, the single
/// reserved character of a punctuation mark, nothing for `Eof`.
pub open spec fn token_text(t: TokenView) -> Seq<char> {
    match t.kind {
        TokenKindView::Name(n) => n,
        TokenKindView::Lambda => seq!['\\'],
        TokenKindView::Dot => seq!['.'],
        TokenKindView::ParenLeft => seq!['('],
        TokenKindView::ParenRight => seq![')'],
        TokenKindView::Eof => Seq::empty(),
    }
}

/// The concatenation of the texts of a token sequence.
pub open spec fn texts_concat(ts: Seq<TokenView>) -> Seq<char>
    decreases ts.len(),
{
    if ts.len() == 0 {
        Seq::empty()
    } else {
        token_text(ts[0]) + texts_concat(ts.drop_first())
    }
}

/// The source with every whitespace character removed.
pub open spec fn strip_whitespace(s: Seq<char>) -> Seq<char>
    decreases s.len(),
{
    if s.len() == 0 {
        Seq::empty()
    } else if spec_is_whitespace(s[0]) {
        strip_whitespace(s.drop_first())
    } else {
        seq![s[0]] + strip_whitespace(s.drop_first())
    }
}

proof fn lemma_texts_concat_cons(t: TokenView, rest: Seq<TokenView>)
    ensures
        texts_concat(seq![t] + rest) == token_text(t) + texts_concat(rest),
{
    assert((seq![t] + rest).drop_first() =~= rest);
    assert((seq![t] + rest)[0] == t);
}

proof fn lemma_strip_step(s: Seq<char>, i: int)
    requires
        0 <= i < s.len(),
    ensures
        spec_is_whitespace(s[i]) ==> strip_whitespace(s.subrange(i, s.len() as int))
            == strip_whitespace(s.subrange(i + 1, s.len() as int)),
        !spec_is_whitespace(s[i]) ==> strip_whitespace(s.subrange(i, s.len() as int)) == seq![s[i]]
            + strip_whitespace(s.subrange(i + 1, s.len() as int)),
{
    assert(s.subrange(i, s.len() as int).drop_first() =~= s.subrange(i + 1, s.len() as int));
    assert(s.subrange(i, s.len() as int)[0] == s[i]);
}

proof fn lemma_strip_prefix(s: Seq<char>, i: int, j: int)
    requires
        0 <= i <= j <= s.len(),
        forall|k: int| i <= k < j ==> !spec_is_whitespace(#[trigger] s[k]),
    ensures
        strip_whitespace(s.subrange(i, s.len() as int)) == s.subrange(i, j) + strip_whitespace(
            s.subrange(j, s.len() as int),
        ),
    decreases j - i,
{
    if i == j {
        assert(s.subrange(i, j) =~= Seq::empty());
        assert(s.subrange(i, j) + strip_whitespace(s.subrange(j, s.len() as int))
            =~= strip_whitespace(s.subrange(j, s.len() as int)));
    } else {
        lemma_strip_step(s, i);
        lemma_strip_prefix(s, i + 1, j);
        assert(s.subrange(i, j) =~= seq![s[i]] + s.subrange(i + 1, j));
        assert(seq![s[i]] + (s.subrange(i + 1, j) + strip_whitespace(
            s.subrange(j, s.len() as int),
        )) =~= (seq![s[i]] + s.subrange(i + 1, j)) + strip_whitespace(
            s.subrange(j, s.len() as int),
        ));
    }
}

/// Round-trip: concatenating the texts of the tokens scanned from position
/// `i` reconstructs the rest of the source, minus the skipped whitespace.
pub proof fn lemma_lex_round_trip_from(s: Seq<char>, i: int, line: nat, col: nat)
    requires
        0 <= i <= s.len(),
    ensures
        texts_concat(spec_lex(s, i, line, col)) == strip_whitespace(
            s.subrange(i, s.len() as int),
        ),
    decreases s.len() - i,
{
    if i >= s.len() {
        assert(s.subrange(i, s.len() as int) =~= Seq::empty());
        assert(spec_lex(s, i, line, col).drop_first() =~= Seq::<TokenView>::empty());
        assert(texts_concat(Seq::<TokenView>::empty()) == Seq::<char>::empty());
        assert(texts_concat(spec_lex(s, i, line, col)) =~= Seq::<char>::empty());
    } else {
        let c = s[i];
        lemma_strip_step(s, i);
        if spec_is_whitespace(c) {
            if c == '\n' {
                lemma_lex_round_trip_from(s, i + 1, line + 1, 1);
            } else {
                lemma_lex_round_trip_from(s, i + 1, line, col + 1);
            }
        } else if is_reserved_char(c) {
            let t = if c == '\\' {
                tokv(TokenKindView::Lambda, line, col)
            } else if c == '(' {
                tokv(TokenKindView::ParenLeft, line, col)
            } else if c == ')' {
                tokv(TokenKindView::ParenRight, line, col)
            } else {
                tokv(TokenKindView::Dot, line, col)
            };
            let rest = spec_lex(s, i + 1, line, (col + 1) as nat);
            lemma_texts_concat_cons(t, rest);
            lemma_lex_round_trip_from(s, i + 1, line, col + 1);
            assert(token_text(t) =~= seq![c]);
        } else {
            lemma_name_run(s, i);
            let run = name_run_len(s, i);
            let t = tokv(TokenKindView::Name(s.subrange(i, i + run)), line, col);
            let rest = spec_lex(s, i + run, line, (col + run) as nat);
            lemma_texts_concat_cons(t, rest);
            lemma_lex_round_trip_from(s, i + run, line, col + run);
            assert forall|k: int| i <= k < i + run implies !spec_is_whitespace(
                #[trigger] s[k],
            ) by {
                assert(is_name_char(s[k]));
            }
            lemma_strip_prefix(s, i, i + run);
        }
    }
}

/// Round-trip over a whole source string: the texts of `tokenize`'s tokens,
/// concatenated in order, are the source minus its whitespace.
pub proof fn lemma_tokenize_round_trip(s: Seq<char>)
    ensures
        texts_concat(spec_lex(s, 0, 1, 1)) == strip_whitespace(s),
{
    lemma_lex_round_trip_from(s, 0, 1, 1);
    assert(s.subrange(0, s.len() as int) =~= s);
}

/// The display name of a kind of token.
pub open spec fn kind_display(k: TokenKindView) -> Seq<char> {
    match k {
        TokenKindView::Dot => "DOT"@,
        TokenKindView::Eof => "EOF"@,
        TokenKindView::Lambda => "LAMBDA"@,
        TokenKindView::Name(_) => "NAME"@,
        TokenKindView::ParenLeft => "PAREN_LEFT"@,
        TokenKindView::ParenRight => "PAREN_RIGHT"@,
    }
}

impl TokenKind {
    /// Render this kind's display name.
    pub fn display_string(&self) -> (r: String)
        ensures
            r@ == kind_display(self@),
    {
        match self {
            TokenKind::Dot => String::from_str("DOT"),
            TokenKind::Eof => String::from_str("EOF"),
            TokenKind::Lambda => String::from_str("LAMBDA"),
            TokenKind::Name(_) => String::from_str("NAME"),
            TokenKind::ParenLeft => String::from_str("PAREN_LEFT"),
            TokenKind::ParenRight => String::from_str("PAREN_RIGHT"),
        }
    }
}

} // verus!
