//! Recursive-descent parser from tokens to a syntax tree.
pub mod ast;
pub mod err;
pub mod mods;
pub mod syntax;
pub mod grammar;
pub mod dup;
pub mod expr;
pub mod types;
pub mod stmt;
pub mod report;

use vstd::prelude::*;
use crate::text::{lit_chars, chars_eq, string_from_chars, string_chars};
use crate::token::{Literal, Token, TokCtx, TokenType, TokenKind};
use crate::token::lexicon::{TokenErr, LexItem};
use crate::token::tokenizer::Tokenizer;
use crate::token::stream::{TState, st_measure, st_next, st_peek, st_tail};
use crate::parser::ast::{Ident, Stmt};
use crate::parser::err::{ParseErr, ParseErrType, TokenExpectation, ExpV, ErrV, exps_view};
use crate::parser::grammar::{p_next, p_peek, p_peek_opt, p_expect, p_check, p_ident, p_ident_exact, p_nonneg, any_match, exp_matches, is_literal};

verus! {

/// Reading the stream never makes what is left grow; reading a token makes
/// it shrink.
pub proof fn lemma_stream_steps(src: Seq<char>, st: TState)
    requires
        0 <= st.idx <= src.len(),
    ensures
        0 <= st_next(src, st).1.idx <= src.len(),
        st_measure(src, st_next(src, st).1) <= st_measure(src, st),
        st_next(src, st).0 is Some ==> st_measure(src, st_next(src, st).1) < st_measure(src, st),
        0 <= st_peek(src, st).1.idx <= src.len(),
        st_measure(src, st_peek(src, st).1) <= st_measure(src, st),
        0 <= st_tail(src, st).idx <= src.len(),
        st_measure(src, st_tail(src, st)) <= st_measure(src, st),
        st_tail(src, st).buf == st.buf,
{
    crate::token::lexicon::lemma_skip_trivia(src, st.idx);
    let s = crate::token::lexicon::skip_trivia(src, st.idx);
    if s < src.len() {
        crate::token::lexicon::lemma_lex_at_progress(src, s);
    }
}

/// The parser: reads tokens and builds statements.
pub struct Parser {
    pub tokens: Tokenizer,
    pub defs: Vec<Stmt>,
}

impl Parser {
    pub closed spec fn wf(&self) -> bool {
        self.tokens.wf()
    }

    /// The source text being parsed.
    pub closed spec fn src(&self) -> Seq<char> {
        self.tokens.source()
    }

    /// The state of the token stream.
    pub closed spec fn st(&self) -> TState {
        self.tokens.tstate()
    }

    /// What is left to read.
    pub open spec fn measure(&self) -> nat {
        st_measure(self.src(), self.st())
    }

    pub proof fn lemma_wf(&self)
        requires
            self.wf(),
        ensures
            0 <= self.st().idx <= self.src().len(),
    {
        self.tokens.lemma_measure();
    }

    /// A parser reading from `tokens`.
    pub fn new(tokens: Tokenizer) -> (r: Self)
        requires
            tokens.wf(),
        ensures
            r.wf(),
            r.src() == tokens.source(),
            r.st() == tokens.tstate(),
            r.defs@.len() == 0,
    {
        Parser { tokens, defs: Vec::new() }
    }

    /// An error at the position of the last token read.
    pub fn tokenizer_err(&mut self, inner: ParseErrType) -> (r: ParseErr)
        requires
            old(self).wf(),
        ensures
            final(self).wf(),
            final(self).src() == old(self).src(),
            final(self).st() == st_tail(old(self).src(), old(self).st()),
            r.ty == inner,
            r.hint is None,
            r.tail@ == crate::token::tokenizer::before_newline(
                old(self).src().subrange(old(self).tokens.index(), final(self).tokens.index()),
            ),
            r.ctx.line == old(self).tokens.line,
            r.ctx.start_pos == old(self).tokens.start_pos,
            r.ctx.end_pos == old(self).tokens.pos,
            r.ctx.file == old(self).tokens.file,
            r.ctx.history.window() == old(self).tokens.history.window(),
            final(self).measure() <= old(self).measure(),
    {
        proof {
            self.lemma_wf();
            lemma_stream_steps(self.src(), self.st());
        }
        let tail = self.tokens.tail_default();
        ParseErr { ty: inner, ctx: self.tokens.create_context(), tail, hint: None }
    }

    /// An error at token `tok`.
    pub fn token_err(&mut self, inner: ParseErrType, tok: Token) -> (r: ParseErr)
        requires
            old(self).wf(),
        ensures
            final(self).wf(),
            final(self).src() == old(self).src(),
            final(self).st() == st_tail(old(self).src(), old(self).st()),
            r.ty == inner,
            r.hint is None,
            r.ctx == tok.ctx,
            r.tail@ == crate::token::tokenizer::before_newline(
                old(self).src().subrange(old(self).tokens.index(), final(self).tokens.index()),
            ),
            final(self).measure() <= old(self).measure(),
    {
        proof {
            self.lemma_wf();
            lemma_stream_steps(self.src(), self.st());
        }
        let tail = self.tokens.tail_default();
        ParseErr { ty: inner, ctx: tok.ctx, tail, hint: None }
    }

    /// An error at position `tok`, with a hint.
    pub fn token_err_with_hint(&mut self, inner: ParseErrType, tok: TokCtx, hint: String) -> (r: ParseErr)
        requires
            old(self).wf(),
        ensures
            final(self).wf(),
            final(self).src() == old(self).src(),
            final(self).st() == st_tail(old(self).src(), old(self).st()),
            r.ty == inner,
            r.hint == Some(hint),
            r.ctx == tok,
            r.tail@ == crate::token::tokenizer::before_newline(
                old(self).src().subrange(old(self).tokens.index(), final(self).tokens.index()),
            ),
            final(self).measure() <= old(self).measure(),
    {
        proof {
            self.lemma_wf();
            lemma_stream_steps(self.src(), self.st());
        }
        let tail = self.tokens.tail_default();
        ParseErr { ty: inner, ctx: tok, tail, hint: Some(hint) }
    }

    /// Takes the next token; a lexing error or the end of the source is an error.
    fn unwrap_next(&mut self) -> (r: Result<Token, ParseErr>)
        requires
            old(self).wf(),
        ensures
            final(self).wf(),
            final(self).src() == old(self).src(),
            final(self).st() == p_next(old(self).src(), old(self).st()).1,
            match r {
                Ok(t) => p_next(old(self).src(), old(self).st()).0 == Ok::<TokenKind, ErrV>(t.ty@),
                Err(e) => p_next(old(self).src(), old(self).st()).0 == Err::<TokenKind, ErrV>(e.ty@),
            },
            final(self).measure() <= old(self).measure(),
            r is Ok ==> final(self).measure() < old(self).measure(),
    {
        proof {
            self.lemma_wf();
            lemma_stream_steps(self.src(), self.st());
            lemma_stream_steps(self.src(), st_next(self.src(), self.st()).1);
        }
        match self.tokens.expect_any() {
            Ok(t) => Ok(t),
            Err(e) => Err(self.tokenizer_err(ParseErrType::TokenizerErr(e))),
        }
    }

    /// Looks at the next token; a lexing error or the end of the source is an error.
    fn unwrap_peek(&mut self) -> (r: Result<Token, ParseErr>)
        requires
            old(self).wf(),
        ensures
            final(self).wf(),
            final(self).src() == old(self).src(),
            final(self).st() == p_peek(old(self).src(), old(self).st()).1,
            match r {
                Ok(t) => p_peek(old(self).src(), old(self).st()).0 == Ok::<TokenKind, ErrV>(t.ty@),
                Err(e) => p_peek(old(self).src(), old(self).st()).0 == Err::<TokenKind, ErrV>(e.ty@),
            },
            final(self).measure() <= old(self).measure(),
    {
        proof {
            self.lemma_wf();
            lemma_stream_steps(self.src(), self.st());
            lemma_stream_steps(self.src(), st_peek(self.src(), self.st()).1);
        }
        match self.tokens.expect_any_peeked() {
            Ok(t) => Ok(t),
            Err(e) => Err(self.tokenizer_err(ParseErrType::TokenizerErr(e))),
        }
    }

    /// Looks at the next token, if any; a lexing error is an error.
    pub fn peek_token(&mut self) -> (r: Result<Option<Token>, ParseErr>)
        requires
            old(self).wf(),
        ensures
            final(self).wf(),
            final(self).src() == old(self).src(),
            final(self).st() == p_peek_opt(old(self).src(), old(self).st()).1,
            match r {
                Ok(Some(t)) => p_peek_opt(old(self).src(), old(self).st()).0 == Ok::<Option<TokenKind>, ErrV>(
                    Some(t.ty@),
                ),
                Ok(None) => p_peek_opt(old(self).src(), old(self).st()).0 == Ok::<Option<TokenKind>, ErrV>(None),
                Err(e) => p_peek_opt(old(self).src(), old(self).st()).0 == Err::<Option<TokenKind>, ErrV>(e.ty@),
            },
            final(self).measure() <= old(self).measure(),
    {
        proof {
            self.lemma_wf();
            lemma_stream_steps(self.src(), self.st());
            lemma_stream_steps(self.src(), st_peek(self.src(), self.st()).1);
        }
        match self.tokens.peek_token() {
            None => Ok(None),
            Some(Ok(t)) => Ok(Some(t)),
            Some(Err(e)) => Err(self.tokenizer_err(ParseErrType::TokenizerErr(e))),
        }
    }

    /// Takes the next token, ignoring what it is.
    fn skip(&mut self)
        requires
            old(self).wf(),
        ensures
            final(self).wf(),
            final(self).src() == old(self).src(),
            final(self).st() == st_next(old(self).src(), old(self).st()).1,
            final(self).measure() <= old(self).measure(),
    {
        proof {
            self.lemma_wf();
            lemma_stream_steps(self.src(), self.st());
            lemma_stream_steps(self.src(), st_next(self.src(), self.st()).1);
        }
        self.tokens.next_token();
    }
}

/// Whether token kind `k` is one that expectation `x` accepts.
fn exp_match(k: &TokenType, x: &TokenExpectation) -> (r: bool)
    ensures
        r == exp_matches(k@, x@),
{
    match x {
        TokenExpectation::Exact(t) => t.same_as(k),
        TokenExpectation::Ident => match k {
            TokenType::Ident(_) => true,
            _ => false,
        },
        TokenExpectation::Lit => match k {
            TokenType::Literal(_) => true,
            _ => false,
        },
    }
}

/// Whether token kind `k` is one of `xs`.
fn exp_any(k: &TokenType, xs: &Vec<TokenExpectation>) -> (r: bool)
    ensures
        r == any_match(k@, exps_view(xs@)),
{
    let mut i: usize = 0;
    while i < xs.len()
        invariant
            i <= xs@.len(),
            forall|j: int| 0 <= j < i ==> !exp_matches(k@, #[trigger] exps_view(xs@)[j]),
        decreases xs@.len() - i,
    {
        if exp_match(k, &xs[i]) {
            assert(exp_matches(k@, exps_view(xs@)[i as int]));
            return true;
        }
        i += 1;
    }
    false
}

impl Parser {
    /// Takes the next token, which must be one of `expected`.
    fn expect_next(&mut self, expected: Vec<TokenExpectation>) -> (r: Result<Token, ParseErr>)
        requires
            old(self).wf(),
        ensures
            final(self).wf(),
            final(self).src() == old(self).src(),
            final(self).st() == p_expect(old(self).src(), old(self).st(), exps_view(expected@)).1,
            match r {
                Ok(t) => p_expect(old(self).src(), old(self).st(), exps_view(expected@)).0 == Ok::<TokenKind, ErrV>(t.ty@),
                Err(e) => p_expect(old(self).src(), old(self).st(), exps_view(expected@)).0 == Err::<TokenKind, ErrV>(e.ty@),
            },
            final(self).measure() <= old(self).measure(),
            r is Ok ==> final(self).measure() < old(self).measure(),
    {
        let next = self.unwrap_next()?;
        if !exp_any(&next.ty, &expected) {
            let ctx = next.ctx.dup();
            proof {
                self.lemma_wf();
                lemma_stream_steps(self.src(), self.st());
            }
            let tail = self.tokens.tail_default();
            let hint = string_from_chars(&lit_chars("Consider using one of the listed tokens instead."));
            return Err(ParseErr { ty: ParseErrType::UnexpectedToken(next, expected), ctx, tail, hint: Some(hint) });
        }
        Ok(next)
    }

    /// Takes the token of kind `k`.
    fn expect_exact(&mut self, k: TokenType) -> (r: Result<Token, ParseErr>)
        requires
            old(self).wf(),
        ensures
            final(self).wf(),
            final(self).src() == old(self).src(),
            final(self).st() == p_expect(old(self).src(), old(self).st(), seq![ExpV::Exact(k@)]).1,
            match r {
                Ok(t) => p_expect(old(self).src(), old(self).st(), seq![ExpV::Exact(k@)]).0 == Ok::<TokenKind, ErrV>(t.ty@),
                Err(e) => p_expect(old(self).src(), old(self).st(), seq![ExpV::Exact(k@)]).0 == Err::<TokenKind, ErrV>(e.ty@),
            },
            final(self).measure() <= old(self).measure(),
            r is Ok ==> final(self).measure() < old(self).measure(),
    {
        let v = vec![TokenExpectation::Exact(k)];
        assert(exps_view(v@) =~= seq![ExpV::Exact(k@)]);
        self.expect_next(v)
    }

    /// Whether the next token, if any, is of kind `k`, without taking it.
    fn check_exact(&mut self, k: TokenType) -> (r: Result<bool, ParseErr>)
        requires
            old(self).wf(),
        ensures
            final(self).wf(),
            final(self).src() == old(self).src(),
            final(self).st() == p_check(old(self).src(), old(self).st(), seq![ExpV::Exact(k@)]).1,
            match r {
                Ok(b) => p_check(old(self).src(), old(self).st(), seq![ExpV::Exact(k@)]).0 == Ok::<bool, ErrV>(b),
                Err(e) => p_check(old(self).src(), old(self).st(), seq![ExpV::Exact(k@)]).0 == Err::<bool, ErrV>(e.ty@),
            },
            final(self).measure() <= old(self).measure(),
    {
        let v = vec![TokenExpectation::Exact(k)];
        assert(exps_view(v@) =~= seq![ExpV::Exact(k@)]);
        self.check_next(v)
    }

    /// Whether the next token, if any, is one of `looking_for`, without taking it.
    fn check_next(&mut self, looking_for: Vec<TokenExpectation>) -> (r: Result<bool, ParseErr>)
        requires
            old(self).wf(),
        ensures
            final(self).wf(),
            final(self).src() == old(self).src(),
            final(self).st() == p_check(old(self).src(), old(self).st(), exps_view(looking_for@)).1,
            match r {
                Ok(b) => p_check(old(self).src(), old(self).st(), exps_view(looking_for@)).0 == Ok::<bool, ErrV>(b),
                Err(e) => p_check(old(self).src(), old(self).st(), exps_view(looking_for@)).0 == Err::<bool, ErrV>(e.ty@),
            },
            final(self).measure() <= old(self).measure(),
    {
        if let Some(tt) = self.peek_token()? {
            return Ok(exp_any(&tt.ty, &looking_for));
        }
        Ok(false)
    }

    /// Takes a name.
    fn expect_ident(&mut self) -> (r: Result<Ident, ParseErr>)
        requires
            old(self).wf(),
        ensures
            final(self).wf(),
            final(self).src() == old(self).src(),
            final(self).st() == p_ident(old(self).src(), old(self).st()).1,
            match r {
                Ok(i) => p_ident(old(self).src(), old(self).st()).0 == Ok::<Seq<char>, ErrV>(i.val@),
                Err(e) => p_ident(old(self).src(), old(self).st()).0 == Err::<Seq<char>, ErrV>(e.ty@),
            },
            final(self).measure() <= old(self).measure(),
            r is Ok ==> final(self).measure() < old(self).measure(),
    {
        let v = vec![TokenExpectation::Ident];
        assert(exps_view(v@) =~= seq![ExpV::Ident]);
        let token = self.expect_next(v)?;
        match token.ty {
            TokenType::Ident(name) => Ok(Ident { val: name, tkn: token.ctx }),
            _ => Err(ParseErr {
                ty: ParseErrType::InternalErr,
                ctx: token.ctx,
                tail: String::new(),
                hint: None,
            }),
        }
    }

    /// Takes the name `expected`.
    fn expect_ident_exact(&mut self, expected: &str) -> (r: Result<Ident, ParseErr>)
        requires
            old(self).wf(),
        ensures
            final(self).wf(),
            final(self).src() == old(self).src(),
            final(self).st() == p_ident_exact(old(self).src(), old(self).st(), expected@).1,
            match r {
                Ok(i) => p_ident_exact(old(self).src(), old(self).st(), expected@).0 == Ok::<Seq<char>, ErrV>(i.val@),
                Err(e) => p_ident_exact(old(self).src(), old(self).st(), expected@).0 == Err::<Seq<char>, ErrV>(e.ty@),
            },
            final(self).measure() <= old(self).measure(),
            r is Ok ==> final(self).measure() < old(self).measure(),
    {
        let ident = self.expect_ident()?;
        let want = lit_chars(expected);
        let have = string_chars(&ident.val);
        if chars_eq(&have, &want) {
            return Ok(ident);
        }
        let mut hint: Vec<char> = Vec::new();
        crate::text::push_lit(&mut hint, "Consider replacing ");
        crate::text::extend_chars(&mut hint, &have);
        crate::text::push_lit(&mut hint, " with ");
        crate::text::extend_chars(&mut hint, &want);
        let ty = ParseErrType::MismatchedLiteral(string_from_chars(&want), ident.val);
        Err(self.token_err_with_hint(ty, ident.tkn, string_from_chars(&hint)))
    }

    /// Takes `;`.
    fn expect_semi(&mut self) -> (r: Result<Token, ParseErr>)
        requires
            old(self).wf(),
        ensures
            final(self).wf(),
            final(self).src() == old(self).src(),
            final(self).st() == p_expect(old(self).src(), old(self).st(), seq![ExpV::Exact(TokenKind::Semi)]).1,
            match r {
                Ok(t) => p_expect(old(self).src(), old(self).st(), seq![ExpV::Exact(TokenKind::Semi)]).0 == Ok::<TokenKind, ErrV>(t.ty@),
                Err(e) => p_expect(old(self).src(), old(self).st(), seq![ExpV::Exact(TokenKind::Semi)]).0 == Err::<TokenKind, ErrV>(e.ty@),
            },
            final(self).measure() <= old(self).measure(),
            r is Ok ==> final(self).measure() < old(self).measure(),
    {
        self.expect_exact(TokenType::Semi)
    }

    /// Takes a literal that is a non-negative integer.
    fn expect_non_negative_int(&mut self) -> (r: Result<(u32, TokCtx), ParseErr>)
        requires
            old(self).wf(),
        ensures
            final(self).wf(),
            final(self).src() == old(self).src(),
            final(self).st() == p_nonneg(old(self).src(), old(self).st()).1,
            match r {
                Ok(v) => p_nonneg(old(self).src(), old(self).st()).0 == Ok::<u32, ErrV>(v.0),
                Err(e) => p_nonneg(old(self).src(), old(self).st()).0 == Err::<u32, ErrV>(e.ty@),
            },
            final(self).measure() <= old(self).measure(),
            r is Ok ==> final(self).measure() < old(self).measure(),
    {
        let v = vec![TokenExpectation::Lit];
        assert(exps_view(v@) =~= seq![ExpV::Lit]);
        let tok = self.expect_next(v)?;
        if let TokenType::Literal(lit) = &tok.ty {
            match lit {
                Literal::IntLit(a) => {
                    if *a >= 0 {
                        return Ok((*a as u32, tok.ctx));
                    }
                },
                Literal::UIntLit(a) => {
                    return Ok((*a, tok.ctx));
                },
                _ => {},
            }
        }
        Err(self.token_err(ParseErrType::NonPositiveNumber, tok))
    }
}

} // verus!
