//! Expressions: operands, what may follow them, and binary operators by
//! precedence climbing.
use vstd::prelude::*;
use crate::text::{push_lit, extend_chars, string_from_chars, string_chars, i64_text, u64_digits};
use crate::token::{Keyword, Literal, Operator, Token, TokCtx, TokenType, TokenKind};
use crate::token::stream::{st_next, st_peek, st_tail};
use crate::parser::{Parser, lemma_stream_steps};
use crate::parser::ast::{
    Expr, Ident, LitExpr, UnaryExpr, PreFixExpr, NonuniformExpr, ThisExpr, FnCallExpr, ConstructExpr,
    FieldInit, VarExpr, TupleExpr, ArrayExpr, BlockExpr, BinExpr, TernaryExpr, TupleAccessExpr,
    AccessFnCallExpr, AccessExpr, PostFixExpr, AssignExpr, AsExpr, IndexExpr, PrimitiveType, Stmt,
};
use crate::parser::err::{ParseErr, ParseErrType, ErrV};
use crate::parser::syntax::{ExprV, expr_v, expr_list_v, field_list_v, stmts_v};
use crate::parser::grammar::{
    lemma_unfold_expr, lemma_unfold_expr_prec, lemma_unfold_climb, lemma_unfold_inner, lemma_unfold_expr_list, lemma_unfold_field_init, lemma_unfold_field_list, lemma_unfold_expr_block, lemma_unfold_primary, lemma_unfold_prefixed, lemma_unfold_nonuniform, lemma_unfold_group, lemma_unfold_block_expr, lemma_unfold_primary_ident, lemma_unfold_call_rest, lemma_unfold_construct_rest, lemma_unfold_secondary, lemma_unfold_secondary_dot,
    p_expr, p_expr_prec, p_climb, p_inner, p_primary, p_secondary, p_expr_list, p_sep, p_field_init,
    p_field_list, p_expr_block, p_primary_ident, p_secondary_dot, p_prefixed, p_nonuniform, p_group,
    p_block_expr, p_call_rest, p_construct_rest, failed_primary, tuple_component, expr_res, expr_list_res, field_list_res,
    stmts_res, paren_expr, is_literal,
};

verus! {

/// The error for a token that cannot start an expression, with a hint.
fn deduce_failed_primary_expression_parse_error(tok: TokenType) -> (r: (ParseErrType, String))
    ensures
        r.0@ == failed_primary(tok@),
{
    let mut hint: Vec<char> = Vec::new();
    let ty = match tok {
        TokenType::RParen => {
            push_lit(&mut hint, "consider trying to remove the erroneous `)`");
            ParseErrType::UnconstrainedUnexpectedToken(TokenType::RParen)
        },
        TokenType::RBrace => {
            push_lit(&mut hint, "consider trying to remove the erroneous `}`");
            ParseErrType::UnconstrainedUnexpectedToken(TokenType::RBrace)
        },
        TokenType::RBracket => {
            push_lit(&mut hint, "consider trying to remove the erroneous `]`");
            ParseErrType::UnconstrainedUnexpectedToken(TokenType::RBracket)
        },
        TokenType::Comma => {
            push_lit(&mut hint, "`,` is used to separate expressions, and thus requires and preceding valid expression\nconsider trying to remove the erroneous `,` or adding a valid expression before the `,`");
            ParseErrType::UnconstrainedUnexpectedToken(TokenType::Comma)
        },
        TokenType::Semi => {
            push_lit(&mut hint, "consider adding a valid expression before the `;`");
            ParseErrType::UnconstrainedUnexpectedToken(TokenType::Semi)
        },
        TokenType::Colon => {
            push_lit(&mut hint, "`:` cannot be used outside of tetrahedron operators, consider removing the `:` or wrapping in a tetrahedron operator\nif you already are inside a tetrahedron operator, consider adding a valid expression before the `:`");
            ParseErrType::UnconstrainedUnexpectedToken(TokenType::Colon)
        },
        TokenType::Question => {
            push_lit(&mut hint, "`?` requires a preceding expression, consider adding a valid expression before the `?`");
            ParseErrType::UnconstrainedUnexpectedToken(TokenType::Question)
        },
        TokenType::Operator(op) => {
            push_lit(&mut hint, "consider removing `");
            let t = op.text_chars();
            extend_chars(&mut hint, &t);
            push_lit(&mut hint, "` or adding an expression before it to transform into a binary expression");
            ParseErrType::NonUnaryCompatibleOperator(op)
        },
        TokenType::OperatorAssign(op) => {
            let t = op.text_chars();
            push_lit(&mut hint, "consider transforming into a non assignment expression: `");
            extend_chars(&mut hint, &t);
            push_lit(&mut hint, "`, or removing the erroneous `");
            extend_chars(&mut hint, &t);
            push_lit(&mut hint, "=`");
            ParseErrType::AssignOpNotAllowedAtExpressionHead
        },
        TokenType::Keyword(_) => {
            push_lit(&mut hint, "consider using different tokens to create a valid expression! Read the documentation for details. Maybe try using a variable name?");
            ParseErrType::InvalidExpression
        },
        other => {
            push_lit(&mut hint, "consider using different tokens to create a valid expression!");
            ParseErrType::UnconstrainedUnexpectedToken(other)
        },
    };
    (ty, string_from_chars(&hint))
}

/// The hint for a literal that cannot select a tuple component.
fn tuple_access_hint(lit: &Literal) -> (r: String) {
    let mut hint: Vec<char> = Vec::new();
    match lit {
        Literal::IntLit(i) => {
            push_lit(&mut hint, "negative numbers cannot be used for tuple access, consider replacing with a positive number: `.");
            let t = i64_text(-(*i as i64));
            extend_chars(&mut hint, &t);
            push_lit(&mut hint, "`");
        },
        Literal::BoolLit(b) => {
            push_lit(&mut hint, "booleans cannot be used to access tuple elements, consider replacing `.");
            if *b {
                push_lit(&mut hint, "true");
            } else {
                push_lit(&mut hint, "false");
            }
            push_lit(&mut hint, "` with a positive number like `.0`");
        },
        Literal::FloatLit(f) | Literal::DoubleLit(f) => {
            push_lit(&mut hint, "accessing tuple elements with fractional types is illegal, consider rounding your number: `.");
            let t = string_chars(f);
            extend_chars(&mut hint, &t);
            push_lit(&mut hint, "`");
        },
        Literal::UIntLit(u) => {
            let t = u64_digits(*u as u64);
            extend_chars(&mut hint, &t);
        },
    }
    string_from_chars(&hint)
}

impl Parser {
    /// An expression.
    #[verifier::spinoff_prover]
    #[verifier::rlimit(40)]
    pub fn parse_expr(&mut self) -> (r: Result<Expr, ParseErr>)
        requires
            old(self).wf(),
        ensures
            final(self).wf(),
            final(self).src() == old(self).src(),
            expr_res(r, p_expr(old(self).src(), old(self).st()).0),
            r is Ok ==> final(self).st() == p_expr(old(self).src(), old(self).st()).1 && final(self).measure()
                < old(self).measure(),
        decreases old(self).measure(), 6int,
    {
        proof {
            lemma_unfold_expr(self.src(), self.st());
        }
        self.parse_expr_with_precedence(0)
    }

    /// An expression whose binary operators bind at least as strongly as `min_precedence`.
    #[verifier::spinoff_prover]
    #[verifier::rlimit(40)]
    fn parse_expr_with_precedence(&mut self, min_precedence: u8) -> (r: Result<Expr, ParseErr>)
        requires
            old(self).wf(),
        ensures
            final(self).wf(),
            final(self).src() == old(self).src(),
            expr_res(r, p_expr_prec(old(self).src(), old(self).st(), min_precedence).0),
            r is Ok ==> final(self).st() == p_expr_prec(old(self).src(), old(self).st(), min_precedence).1
                && final(self).measure() < old(self).measure(),
        decreases old(self).measure(), 5int,
    {
        proof {
            lemma_unfold_expr_prec(self.src(), self.st(), min_precedence);
        }
        let lhs = self.parse_primary_expression()?;
        self.parse_climb(min_precedence, lhs)
    }

    /// Folds binary operators of precedence at least `min` onto `lhs`.
    #[verifier::spinoff_prover]
    #[verifier::rlimit(40)]
    fn parse_climb(&mut self, min: u8, lhs: Expr) -> (r: Result<Expr, ParseErr>)
        requires
            old(self).wf(),
        ensures
            final(self).wf(),
            final(self).src() == old(self).src(),
            expr_res(r, p_climb(old(self).src(), old(self).st(), min, expr_v(lhs)).0),
            r is Ok ==> final(self).st() == p_climb(old(self).src(), old(self).st(), min, expr_v(lhs)).1
                && final(self).measure() <= old(self).measure(),
        decreases old(self).measure(), 2int,
    {
        proof {
            lemma_unfold_climb(self.src(), self.st(), min, expr_v(lhs));
        }
        let peeked = self.peek_token()?;
        if let Some(tok) = peeked {
            if let TokenType::Operator(op) = tok.ty {
                match op.binary_precedence() {
                    None => {
                        return Err(self.binary_err(op, tok.ctx));
                    },
                    Some(p) => {
                        if p < min {
                            return Ok(lhs);
                        }
                        proof {
                            self.lemma_wf();
                            lemma_stream_steps(self.src(), self.st());
                        }
                        self.skip();
                        let rhs = self.parse_primary_expression()?;
                        let rhs2 = self.parse_inner(p, rhs)?;
                        let e = Expr::Binary(BinExpr { lhs: Box::new(lhs), op, op_tkn: tok.ctx, rhs: Box::new(rhs2) });
                        return self.parse_climb(min, e);
                    },
                }
            }
        }
        Ok(lhs)
    }

    /// Folds operators binding more strongly than `prec` onto the right operand `rhs`.
    #[verifier::spinoff_prover]
    #[verifier::rlimit(40)]
    fn parse_inner(&mut self, prec: u8, rhs: Expr) -> (r: Result<Expr, ParseErr>)
        requires
            old(self).wf(),
        ensures
            final(self).wf(),
            final(self).src() == old(self).src(),
            expr_res(r, p_inner(old(self).src(), old(self).st(), prec, expr_v(rhs)).0),
            r is Ok ==> final(self).st() == p_inner(old(self).src(), old(self).st(), prec, expr_v(rhs)).1
                && final(self).measure() <= old(self).measure(),
        decreases old(self).measure(), 3int,
    {
        proof {
            lemma_unfold_inner(self.src(), self.st(), prec, expr_v(rhs));
        }
        let peeked = self.peek_token()?;
        if let Some(tok) = peeked {
            if let TokenType::Operator(op) = tok.ty {
                match op.binary_precedence() {
                    None => {
                        return Err(self.binary_err(op, tok.ctx));
                    },
                    Some(ip) => {
                        if ip <= prec {
                            return Ok(rhs);
                        }
                        proof {
                            self.lemma_wf();
                            lemma_stream_steps(self.src(), self.st());
                        }
                        self.skip();
                        let extra = self.parse_expr_with_precedence(ip)?;
                        let e = Expr::Binary(BinExpr { lhs: Box::new(rhs), op, op_tkn: tok.ctx, rhs: Box::new(extra) });
                        return self.parse_inner(prec, e);
                    },
                }
            }
        }
        Ok(rhs)
    }

    /// The error for an operator that cannot join two operands.
    fn binary_err(&mut self, op: Operator, ctx: TokCtx) -> (r: ParseErr)
        requires
            old(self).wf(),
        ensures
            final(self).wf(),
            final(self).src() == old(self).src(),
            final(self).st() == st_tail(old(self).src(), old(self).st()),
            r.ty == ParseErrType::NonBinaryCompatibleOperator(op),
    {
        proof {
            self.lemma_wf();
            lemma_stream_steps(self.src(), self.st());
        }
        let tail = self.tokens.tail_default();
        let hint = if op == Operator::Assign {
            Some(string_from_chars(&crate::text::lit_chars("Consider moving variable assignment to it's own statement")))
        } else {
            None
        };
        ParseErr { ty: ParseErrType::NonBinaryCompatibleOperator(op), ctx, tail, hint }
    }

    /// After a list element: takes a comma if one follows, and refuses it
    /// before `stop` unless trailing commas are allowed.
    #[verifier::spinoff_prover]
    #[verifier::rlimit(40)]
    pub(crate) fn parse_sep(&mut self, stop: &TokenType, allow_trailing: bool) -> (r: Result<Option<TokCtx>, ParseErr>)
        requires
            old(self).wf(),
        ensures
            final(self).wf(),
            final(self).src() == old(self).src(),
            final(self).measure() <= old(self).measure(),
            match r {
                Ok(o) => p_sep(old(self).src(), old(self).st(), stop@, allow_trailing).0 == Ok::<bool, ErrV>(o is Some)
                    && final(self).st() == p_sep(old(self).src(), old(self).st(), stop@, allow_trailing).1,
                Err(e) => p_sep(old(self).src(), old(self).st(), stop@, allow_trailing).0 == Err::<bool, ErrV>(e.ty@),
            },
    {
        let mut next_sep: Option<TokCtx> = None;
        if let Some(t) = self.peek_token()? {
            if t.ty.same_as(&TokenType::Comma) {
                self.unwrap_next()?;
                next_sep = Some(t.ctx);
            }
        }
        if let Some(t) = self.peek_token()? {
            if t.ty.same_as(stop) && !allow_trailing && next_sep.is_some() {
                let mut hint: Vec<char> = Vec::new();
                push_lit(&mut hint, "trailing `Comma` found, but this is actually illegal in this context, consider removing the `Comma`");
                return Err(self.token_err_with_hint(ParseErrType::IllegalTrailingSeparator, t.ctx, string_from_chars(&hint)));
            }
        }
        Ok(next_sep)
    }

    /// Expressions separated by commas up to `stop`, which is left in place.
    #[verifier::spinoff_prover]
    #[verifier::rlimit(40)]
    fn parse_expr_list(&mut self, stop: &TokenType) -> (r: Result<Vec<(Expr, Option<TokCtx>)>, ParseErr>)
        requires
            old(self).wf(),
        ensures
            final(self).wf(),
            final(self).src() == old(self).src(),
            expr_list_res(r, p_expr_list(old(self).src(), old(self).st(), stop@).0),
            r is Ok ==> final(self).st() == p_expr_list(old(self).src(), old(self).st(), stop@).1
                && final(self).measure() <= old(self).measure(),
        decreases old(self).measure(), 7int,
    {
        proof {
            lemma_unfold_expr_list(self.src(), self.st(), stop@);
        }
        if let Some(t) = self.peek_token()? {
            if t.ty.same_as(stop) {
                return Ok(Vec::new());
            }
        }
        let x = self.parse_expr()?;
        let sep = self.parse_sep(stop, true)?;
        let mut rest = self.parse_expr_list(stop)?;
        let ghost rv = rest@;
        rest.insert(0, (x, sep));
        proof {
            assert(rest@.drop_first() =~= rv);
        }
        Ok(rest)
    }

    /// `name: expr` inside a structure construction.
    #[verifier::spinoff_prover]
    #[verifier::rlimit(40)]
    fn parse_field_init(&mut self) -> (r: Result<FieldInit, ParseErr>)
        requires
            old(self).wf(),
        ensures
            final(self).wf(),
            final(self).src() == old(self).src(),
            match r {
                Ok(f) => p_field_init(old(self).src(), old(self).st()).0 == Ok::<(Seq<char>, ExprV), ErrV>(
                    (f.name.val@, expr_v(*f.expr)),
                ) && final(self).st() == p_field_init(old(self).src(), old(self).st()).1 && final(self).measure()
                    < old(self).measure(),
                Err(e) => p_field_init(old(self).src(), old(self).st()).0 == Err::<(Seq<char>, ExprV), ErrV>(e.ty@),
            },
        decreases old(self).measure(), 1int,
    {
        proof {
            lemma_unfold_field_init(self.src(), self.st());
        }
        let name = self.expect_ident()?;
        let colon_tkn = self.expect_exact(TokenType::Colon)?.ctx;
        let expr = self.parse_expr()?;
        Ok(FieldInit { name, colon_tkn, expr: Box::new(expr) })
    }

    /// Field initialisers separated by commas up to `}`, which is left in place.
    #[verifier::spinoff_prover]
    #[verifier::rlimit(40)]
    fn parse_field_list(&mut self) -> (r: Result<Vec<(FieldInit, Option<TokCtx>)>, ParseErr>)
        requires
            old(self).wf(),
        ensures
            final(self).wf(),
            final(self).src() == old(self).src(),
            field_list_res(r, p_field_list(old(self).src(), old(self).st()).0),
            r is Ok ==> final(self).st() == p_field_list(old(self).src(), old(self).st()).1
                && final(self).measure() <= old(self).measure(),
        decreases old(self).measure(), 7int,
    {
        proof {
            lemma_unfold_field_list(self.src(), self.st());
        }
        if let Some(t) = self.peek_token()? {
            if t.ty.same_as(&TokenType::RBrace) {
                return Ok(Vec::new());
            }
        }
        let f = self.parse_field_init()?;
        let sep = self.parse_sep(&TokenType::RBrace, true)?;
        let mut rest = self.parse_field_list()?;
        let ghost rv = rest@;
        rest.insert(0, (f, sep));
        proof {
            assert(rest@.drop_first() =~= rv);
        }
        Ok(rest)
    }

    /// Statements of a block expression up to `}`, which is left in place.
    #[verifier::spinoff_prover]
    #[verifier::rlimit(40)]
    fn parse_expr_block(&mut self) -> (r: Result<Vec<Stmt>, ParseErr>)
        requires
            old(self).wf(),
        ensures
            final(self).wf(),
            final(self).src() == old(self).src(),
            stmts_res(r, p_expr_block(old(self).src(), old(self).st()).0),
            r is Ok ==> final(self).st() == p_expr_block(old(self).src(), old(self).st()).1
                && final(self).measure() <= old(self).measure(),
        decreases old(self).measure(), 11int,
    {
        proof {
            lemma_unfold_expr_block(self.src(), self.st());
        }
        let p = self.unwrap_peek();
        let is_close = match &p {
            Ok(t) => t.ty.same_as(&TokenType::RBrace),
            Err(_) => false,
        };
        if is_close {
            return Ok(Vec::new());
        }
        let x = self.parse_stmt()?;
        let mut rest = self.parse_expr_block()?;
        let ghost rv = rest@;
        rest.insert(0, x);
        proof {
            assert(rest@.drop_first() =~= rv);
        }
        Ok(rest)
    }
}

impl Parser {
    /// An operand, then what follows it.
    #[verifier::spinoff_prover]
    #[verifier::rlimit(40)]
    fn parse_primary_expression(&mut self) -> (r: Result<Expr, ParseErr>)
        requires
            old(self).wf(),
        ensures
            final(self).wf(),
            final(self).src() == old(self).src(),
            expr_res(r, p_primary(old(self).src(), old(self).st()).0),
            r is Ok ==> final(self).st() == p_primary(old(self).src(), old(self).st()).1 && final(self).measure()
                < old(self).measure(),
        decreases old(self).measure(), 4int,
    {
        proof {
            lemma_unfold_primary(self.src(), self.st());
        }
        let next = self.unwrap_next()?;
        match next.ty {
            TokenType::Literal(lit) => self.parse_secondary_expression(Expr::Literal(LitExpr { lit, lit_tkn: next.ctx })),
            TokenType::Operator(op) => {
                if op == Operator::Minus || op == Operator::Not || op == Operator::MinusMinus || op == Operator::PlusPlus {
                    self.parse_prefixed(op, next.ctx)
                } else {
                    let (err, hint) = deduce_failed_primary_expression_parse_error(TokenType::Operator(op));
                    Err(self.token_err_with_hint(err, next.ctx, hint))
                }
            },
            TokenType::Keyword(Keyword::Nonuniform) => self.parse_nonuniform(next.ctx),
            TokenType::Keyword(Keyword::This) => self.parse_secondary_expression(Expr::This(ThisExpr { this_tkn: next.ctx })),
            TokenType::Ident(name) => self.parse_primary_ident(Ident { val: name, tkn: next.ctx }),
            TokenType::LParen => self.parse_group(next.ctx, TokenType::RParen),
            TokenType::LBracket => self.parse_group(next.ctx, TokenType::RBracket),
            TokenType::LBrace => self.parse_block_expr(next.ctx),
            c => {
                let (err, hint) = deduce_failed_primary_expression_parse_error(c);
                Err(self.token_err_with_hint(err, next.ctx, hint))
            },
        }
    }

    /// After prefix operator `op`: its operand, then what follows.
    #[verifier::spinoff_prover]
    #[verifier::rlimit(40)]
    fn parse_prefixed(&mut self, op: Operator, op_tkn: TokCtx) -> (r: Result<Expr, ParseErr>)
        requires
            old(self).wf(),
        ensures
            final(self).wf(),
            final(self).src() == old(self).src(),
            expr_res(r, p_prefixed(old(self).src(), old(self).st(), op).0),
            r is Ok ==> final(self).st() == p_prefixed(old(self).src(), old(self).st(), op).1
                && final(self).measure() <= old(self).measure(),
        decreases old(self).measure(), 5int,
    {
        proof {
            lemma_unfold_prefixed(self.src(), self.st(), op);
        }
        let expr = self.parse_primary_expression()?;
        let e = if op == Operator::Minus || op == Operator::Not {
            Expr::Unary(UnaryExpr { op, op_tkn, expr: Box::new(expr) })
        } else {
            Expr::PreFix(PreFixExpr { op, op_tkn, expr: Box::new(expr) })
        };
        self.parse_secondary_expression(e)
    }

    /// After `nonuniform`: an expression, then what follows.
    #[verifier::spinoff_prover]
    #[verifier::rlimit(40)]
    fn parse_nonuniform(&mut self, nonuniform_tkn: TokCtx) -> (r: Result<Expr, ParseErr>)
        requires
            old(self).wf(),
        ensures
            final(self).wf(),
            final(self).src() == old(self).src(),
            expr_res(r, p_nonuniform(old(self).src(), old(self).st()).0),
            r is Ok ==> final(self).st() == p_nonuniform(old(self).src(), old(self).st()).1
                && final(self).measure() <= old(self).measure(),
        decreases old(self).measure(), 7int,
    {
        proof {
            lemma_unfold_nonuniform(self.src(), self.st());
        }
        let expr = self.parse_expr()?;
        self.parse_secondary_expression(Expr::Nonuniform(NonuniformExpr { nonuniform_tkn, expr: Box::new(expr) }))
    }

    /// After `(` or `[`: a list up to `close`, then what follows.
    #[verifier::spinoff_prover]
    #[verifier::rlimit(40)]
    fn parse_group(&mut self, open_tkn: TokCtx, close: TokenType) -> (r: Result<Expr, ParseErr>)
        requires
            old(self).wf(),
        ensures
            final(self).wf(),
            final(self).src() == old(self).src(),
            expr_res(r, p_group(old(self).src(), old(self).st(), close@).0),
            r is Ok ==> final(self).st() == p_group(old(self).src(), old(self).st(), close@).1
                && final(self).measure() <= old(self).measure(),
        decreases old(self).measure(), 8int,
    {
        proof {
            lemma_unfold_group(self.src(), self.st(), close@);
        }
        let args = self.parse_expr_list(&close)?;
        let is_paren = close.same_as(&TokenType::RParen);
        let close_tkn = self.expect_exact(close)?.ctx;
        let e = if is_paren {
            paren_or_tuple(open_tkn, args, close_tkn)
        } else {
            Expr::Array(ArrayExpr { open_tkn, args, close_tkn })
        };
        self.parse_secondary_expression(e)
    }

    /// After `{`: statements up to `}`, then what follows.
    #[verifier::spinoff_prover]
    #[verifier::rlimit(40)]
    fn parse_block_expr(&mut self, open_tkn: TokCtx) -> (r: Result<Expr, ParseErr>)
        requires
            old(self).wf(),
        ensures
            final(self).wf(),
            final(self).src() == old(self).src(),
            expr_res(r, p_block_expr(old(self).src(), old(self).st()).0),
            r is Ok ==> final(self).st() == p_block_expr(old(self).src(), old(self).st()).1
                && final(self).measure() <= old(self).measure(),
        decreases old(self).measure(), 12int,
    {
        proof {
            lemma_unfold_block_expr(self.src(), self.st());
        }
        let block = self.parse_expr_block()?;
        let close_tkn = self.expect_exact(TokenType::RBrace)?.ctx;
        self.parse_secondary_expression(Expr::Block(BlockExpr { open_tkn, block, close_tkn, fut_scope: None }))
    }

    /// After a name: a call, a construction, or the name itself; then what follows.
    #[verifier::spinoff_prover]
    #[verifier::rlimit(40)]
    fn parse_primary_ident(&mut self, ident: Ident) -> (r: Result<Expr, ParseErr>)
        requires
            old(self).wf(),
        ensures
            final(self).wf(),
            final(self).src() == old(self).src(),
            expr_res(r, p_primary_ident(old(self).src(), old(self).st(), ident.val@).0),
            r is Ok ==> final(self).st() == p_primary_ident(old(self).src(), old(self).st(), ident.val@).1
                && final(self).measure() <= old(self).measure(),
        decreases old(self).measure(), 3int,
    {
        proof {
            lemma_unfold_primary_ident(self.src(), self.st(), ident.val@);
        }
        let p1 = self.unwrap_peek();
        let is_paren = match &p1 {
            Ok(t) => t.ty.same_as(&TokenType::LParen),
            Err(_) => false,
        };
        if is_paren {
            return self.parse_call_rest(ident);
        }
        let p2 = self.unwrap_peek();
        let is_brace = match &p2 {
            Ok(t) => t.ty.same_as(&TokenType::LBrace),
            Err(_) => false,
        };
        if is_brace {
            return self.parse_construct_rest(ident);
        }
        self.parse_secondary_expression(Expr::Variable(VarExpr { ident }))
    }

    /// A call of `ident`: `(`, arguments, `)`, then what follows.
    #[verifier::spinoff_prover]
    #[verifier::rlimit(40)]
    fn parse_call_rest(&mut self, ident: Ident) -> (r: Result<Expr, ParseErr>)
        requires
            old(self).wf(),
        ensures
            final(self).wf(),
            final(self).src() == old(self).src(),
            expr_res(r, p_call_rest(old(self).src(), old(self).st(), ident.val@).0),
            r is Ok ==> final(self).st() == p_call_rest(old(self).src(), old(self).st(), ident.val@).1
                && final(self).measure() <= old(self).measure(),
        decreases old(self).measure(), 2int,
    {
        proof {
            lemma_unfold_call_rest(self.src(), self.st(), ident.val@);
        }
        let open_tkn = self.unwrap_next()?.ctx;
        let args = self.parse_expr_list(&TokenType::RParen)?;
        let close_tkn = self.expect_exact(TokenType::RParen)?.ctx;
        self.parse_secondary_expression(Expr::FnCall(FnCallExpr { ident, open_tkn, args, close_tkn }))
    }

    /// A construction of structure `name`: `{`, field values, `}`, then what follows.
    #[verifier::spinoff_prover]
    #[verifier::rlimit(40)]
    fn parse_construct_rest(&mut self, name: Ident) -> (r: Result<Expr, ParseErr>)
        requires
            old(self).wf(),
        ensures
            final(self).wf(),
            final(self).src() == old(self).src(),
            expr_res(r, p_construct_rest(old(self).src(), old(self).st(), name.val@).0),
            r is Ok ==> final(self).st() == p_construct_rest(old(self).src(), old(self).st(), name.val@).1
                && final(self).measure() <= old(self).measure(),
        decreases old(self).measure(), 2int,
    {
        proof {
            lemma_unfold_construct_rest(self.src(), self.st(), name.val@);
        }
        let brace1_tkn = self.unwrap_next()?.ctx;
        let fields = self.parse_field_list()?;
        let brace2_tkn = self.expect_exact(TokenType::RBrace)?.ctx;
        self.parse_secondary_expression(Expr::Construct(ConstructExpr { name, brace1_tkn, fields, brace2_tkn }))
    }

    /// After `.`: a literal component, a method call, or a member; then what follows.
    #[verifier::spinoff_prover]
    #[verifier::rlimit(40)]
    fn parse_secondary_dot(&mut self, primary: Expr, dot_ctx: TokCtx) -> (r: Result<Expr, ParseErr>)
        requires
            old(self).wf(),
        ensures
            final(self).wf(),
            final(self).src() == old(self).src(),
            expr_res(r, p_secondary_dot(old(self).src(), old(self).st(), expr_v(primary)).0),
            r is Ok ==> final(self).st() == p_secondary_dot(old(self).src(), old(self).st(), expr_v(primary)).1
                && final(self).measure() <= old(self).measure(),
        decreases old(self).measure(), 2int,
    {
        proof {
            lemma_unfold_secondary_dot(self.src(), self.st(), expr_v(primary));
        }
        let p = self.unwrap_peek();
                match p {
                    Ok(Token { ty: TokenType::Literal(lit), ctx }) => {
                        let component = match &lit {
                            Literal::UIntLit(v) => *v,
                            Literal::IntLit(i) => {
                                if *i >= 0 {
                                    *i as u32
                                } else {
                                    let hint = tuple_access_hint(&lit);
                                    return Err(self.token_err_with_hint(
                                        ParseErrType::IllegalTupleAccessLiteral(PrimitiveType::Int),
                                        ctx,
                                        hint,
                                    ));
                                }
                            },
                            Literal::BoolLit(_) => {
                                let hint = tuple_access_hint(&lit);
                                return Err(self.token_err_with_hint(
                                    ParseErrType::IllegalTupleAccessLiteral(PrimitiveType::Bool),
                                    ctx,
                                    hint,
                                ));
                            },
                            Literal::FloatLit(_) => {
                                let hint = tuple_access_hint(&lit);
                                return Err(self.token_err_with_hint(
                                    ParseErrType::IllegalTupleAccessLiteral(PrimitiveType::F32),
                                    ctx,
                                    hint,
                                ));
                            },
                            Literal::DoubleLit(_) => {
                                let hint = tuple_access_hint(&lit);
                                return Err(self.token_err_with_hint(
                                    ParseErrType::IllegalTupleAccessLiteral(PrimitiveType::F64),
                                    ctx,
                                    hint,
                                ));
                            },
                        };
                        self.parse_secondary_expression(Expr::TupleAccess(TupleAccessExpr { tuple: Box::new(primary), component }))
                    },
                    _ => {
                        let ident = self.expect_ident()?;
                        let q = self.unwrap_peek();
                        let is_paren = match &q {
                            Ok(t) => t.ty.same_as(&TokenType::LParen),
                            Err(_) => false,
                        };
                        if is_paren {
                            let open_tkn = self.unwrap_next()?.ctx;
                            let args = self.parse_expr_list(&TokenType::RParen)?;
                            let close_tkn = self.expect_exact(TokenType::RParen)?.ctx;
                            self.parse_secondary_expression(Expr::AccessFnCall(AccessFnCallExpr {
                                parent: Box::new(primary),
                                ident,
                                open_tkn,
                                args,
                                close_tkn,
                            }))
                        } else {
                            self.parse_secondary_expression(Expr::Access(AccessExpr {
                                parent: Box::new(primary),
                                dot_tkn: dot_ctx,
                                child: ident,
                            }))
                        }
                    },
                }
    }

    /// What may follow an operand `primary`.
    #[verifier::spinoff_prover]
    #[verifier::rlimit(40)]
    fn parse_secondary_expression(&mut self, primary: Expr) -> (r: Result<Expr, ParseErr>)
        requires
            old(self).wf(),
        ensures
            final(self).wf(),
            final(self).src() == old(self).src(),
            expr_res(r, p_secondary(old(self).src(), old(self).st(), expr_v(primary)).0),
            r is Ok ==> final(self).st() == p_secondary(old(self).src(), old(self).st(), expr_v(primary)).1
                && final(self).measure() <= old(self).measure(),
        decreases old(self).measure(), 1int,
    {
        proof {
            lemma_unfold_secondary(self.src(), self.st(), expr_v(primary));
        }
        proof {
            self.lemma_wf();
            lemma_stream_steps(self.src(), self.st());
            lemma_stream_steps(self.src(), st_peek(self.src(), self.st()).1);
        }
        let peeked = self.unwrap_peek();
        let tok = match peeked {
            Ok(t) => t,
            Err(_) => {
                return Ok(primary);
            },
        };
        match tok.ty {
            TokenType::Question => {
                self.skip();
                let yes = self.parse_expr()?;
                let colon_tkn = self.expect_exact(TokenType::Colon)?.ctx;
                let no = self.parse_expr()?;
                Ok(Expr::Ternary(TernaryExpr {
                    cond: Box::new(primary),
                    question_tkn: tok.ctx,
                    yes: Box::new(yes),
                    colon_tkn,
                    no: Box::new(no),
                }))
            },
            TokenType::Operator(Operator::Dot) => {
                self.skip();
                self.parse_secondary_dot(primary, tok.ctx)
            },
            TokenType::Operator(op) => {
                if op == Operator::MinusMinus || op == Operator::PlusPlus {
                    self.skip();
                    Ok(Expr::PostFix(PostFixExpr { op, op_tkn: tok.ctx, expr: Box::new(primary) }))
                } else if op == Operator::Assign {
                    self.skip();
                    let value = self.parse_expr()?;
                    Ok(Expr::Assign(AssignExpr { lhs: Box::new(primary), eq_tkn: tok.ctx, rhs: Box::new(value) }))
                } else {
                    Ok(primary)
                }
            },
            TokenType::Keyword(Keyword::As) => {
                self.skip();
                let ty = self.parse_type()?;
                Ok(Expr::As(AsExpr { expr: Box::new(primary), as_tkn: tok.ctx, ty }))
            },
            TokenType::LBracket => {
                self.skip();
                let expr = self.parse_expr()?;
                let close_tkn = self.expect_exact(TokenType::RBracket)?.ctx;
                self.parse_secondary_expression(Expr::Index(IndexExpr {
                    array: Box::new(primary),
                    open_tkn: tok.ctx,
                    index: Box::new(expr),
                    close_tkn,
                }))
            },
            _ => Ok(primary),
        }
    }
}

/// A parenthesised list: one expression with no comma after it is that
/// expression, anything else a tuple.
fn paren_or_tuple(open_tkn: TokCtx, args: Vec<(Expr, Option<TokCtx>)>, close_tkn: TokCtx) -> (r: Expr)
    ensures
        expr_v(r) == paren_expr(expr_list_v(args@)),
{
    let mut args = args;
    if args.len() == 1 && args[0].1.is_none() {
        let ghost av = args@;
        proof {
            lemma_expr_list_len(av);
        }
        let only = args.remove(0);
        proof {
            assert(expr_list_v(av)[0] == (expr_v(only.0), false));
        }
        only.0
    } else {
        proof {
            lemma_expr_list_len(args@);
            if args@.len() == 1 {
                assert(expr_list_v(args@)[0].1 == (args@[0].1 is Some));
            }
        }
        Expr::Tuple(TupleExpr { open_tkn, args, close_tkn })
    }
}

/// Viewing a list keeps its length.
pub proof fn lemma_expr_list_len(s: Seq<(Expr, Option<TokCtx>)>)
    ensures
        expr_list_v(s).len() == s.len(),
        forall|i: int| 0 <= i < s.len() ==> #[trigger] expr_list_v(s)[i] == (expr_v(s[i].0), s[i].1 is Some),
    decreases s.len(),
{
    if s.len() > 0 {
        lemma_expr_list_len(s.drop_first());
        assert forall|i: int| 0 <= i < s.len() implies #[trigger] expr_list_v(s)[i] == (expr_v(s[i].0), s[i].1 is Some) by {
            if i > 0 {
                assert(s.drop_first()[i - 1] == s[i]);
            }
        }
    }
}

} // verus!
