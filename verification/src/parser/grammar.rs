//! The grammar of the language, as spec functions from the state of the
//! token stream to a syntax value and the state after it.
//!
//! The state is the list of tokens read ahead and the index of the next
//! unread source character; reading goes by the lexical grammar. Each
//! function mirrors one step of the parser: what it looks at, what it
//! consumes, and what it builds. A result is paired with the state it leaves.
//! Where a step reports an error, the raw characters after the error are
//! read for the message, which moves the index: a caller that goes on after
//! such an error sees that.
use vstd::prelude::*;
use crate::token::{Keyword, Operator, TokenKind, binary_precedence};
use crate::token::lexicon::{TokenErr, LexItem};
use crate::token::stream::{TState, st_measure, lt, le, st_next, st_peek, st_tail};
use crate::parser::err::{ErrV, ExpV, ParseErr};
use crate::parser::ast::{Expr, Type, Stmt, FieldInit};
use crate::token::TokCtx;
use crate::parser::syntax::{expr_v, type_v, stmt_v, stmts_v, expr_list_v, field_list_v, type_list_v};
use crate::parser::ast::{PrimitiveType, UniformType, primitive_of};
use crate::parser::mods::{Modifier, RuleV, modifier_of_keyword, validate_spec, fault_kind};
use crate::parser::syntax::{TypeV, ExprV, StmtV};

verus! {

/// Takes the next token; a lexing error or the end of the source is an error.
pub open spec fn p_next(src: Seq<char>, st: TState) -> (Result<TokenKind, ErrV>, TState) {
    let (r, s1) = st_next(src, st);
    match r {
        Some(LexItem::Tok(k)) => (Ok(k), s1),
        Some(LexItem::Fail(e)) => (Err(ErrV::TokenizerErr(e)), st_tail(src, s1)),
        None => (Err(ErrV::TokenizerErr(TokenErr::EOF)), st_tail(src, s1)),
    }
}

/// Looks at the next token; a lexing error or the end of the source is an error.
pub open spec fn p_peek(src: Seq<char>, st: TState) -> (Result<TokenKind, ErrV>, TState) {
    let (r, s1) = st_peek(src, st);
    match r {
        Some(LexItem::Tok(k)) => (Ok(k), s1),
        Some(LexItem::Fail(e)) => (Err(ErrV::TokenizerErr(e)), st_tail(src, s1)),
        None => (Err(ErrV::TokenizerErr(TokenErr::EOF)), st_tail(src, s1)),
    }
}

/// Looks at the next token, if any; a lexing error is an error.
pub open spec fn p_peek_opt(src: Seq<char>, st: TState) -> (Result<Option<TokenKind>, ErrV>, TState) {
    let (r, s1) = st_peek(src, st);
    match r {
        Some(LexItem::Tok(k)) => (Ok(Some(k)), s1),
        Some(LexItem::Fail(e)) => (Err(ErrV::TokenizerErr(e)), st_tail(src, s1)),
        None => (Ok(None), s1),
    }
}

/// Whether a literal token kind.
pub open spec fn is_literal(k: TokenKind) -> bool {
    k is Bool || k is Int || k is UInt || k is Float || k is Double
}

/// Whether token kind `k` is one that `x` accepts.
pub open spec fn exp_matches(k: TokenKind, x: ExpV) -> bool {
    match x {
        ExpV::Exact(t) => t == k,
        ExpV::Ident => k is Ident,
        ExpV::Lit => is_literal(k),
    }
}

pub open spec fn any_match(k: TokenKind, xs: Seq<ExpV>) -> bool {
    exists|i: int| 0 <= i < xs.len() && exp_matches(k, #[trigger] xs[i])
}

/// Takes the next token, which must be one of `xs`.
pub open spec fn p_expect(src: Seq<char>, st: TState, xs: Seq<ExpV>) -> (Result<TokenKind, ErrV>, TState) {
    let (r, s1) = p_next(src, st);
    match r {
        Err(e) => (Err(e), s1),
        Ok(k) => if any_match(k, xs) {
            (Ok(k), s1)
        } else {
            (Err(ErrV::UnexpectedToken(k, xs)), st_tail(src, s1))
        },
    }
}

/// One exact token kind.
pub open spec fn ex(k: TokenKind) -> Seq<ExpV> {
    seq![ExpV::Exact(k)]
}

pub open spec fn kw(k: Keyword) -> Seq<ExpV> {
    seq![ExpV::Exact(TokenKind::Keyword(k))]
}

/// Whether the next token, if any, is one of `xs`, without taking it.
pub open spec fn p_check(src: Seq<char>, st: TState, xs: Seq<ExpV>) -> (Result<bool, ErrV>, TState) {
    let (r, s1) = p_peek_opt(src, st);
    match r {
        Err(e) => (Err(e), s1),
        Ok(None) => (Ok(false), s1),
        Ok(Some(k)) => (Ok(any_match(k, xs)), s1),
    }
}

/// Takes a name.
pub open spec fn p_ident(src: Seq<char>, st: TState) -> (Result<Seq<char>, ErrV>, TState) {
    let (r, s1) = p_expect(src, st, seq![ExpV::Ident]);
    match r {
        Ok(TokenKind::Ident(n)) => (Ok(n), s1),
        Ok(_) => (Err(ErrV::InternalErr), s1),
        Err(e) => (Err(e), s1),
    }
}

/// Takes the name `expected`.
pub open spec fn p_ident_exact(src: Seq<char>, st: TState, expected: Seq<char>) -> (Result<Seq<char>, ErrV>, TState) {
    let (r, s1) = p_ident(src, st);
    match r {
        Err(e) => (Err(e), s1),
        Ok(n) => if n == expected {
            (Ok(n), s1)
        } else {
            (Err(ErrV::MismatchedLiteral(expected, n)), st_tail(src, s1))
        },
    }
}

/// Takes a literal that is a non-negative integer.
pub open spec fn p_nonneg(src: Seq<char>, st: TState) -> (Result<u32, ErrV>, TState) {
    let (r, s1) = p_expect(src, st, seq![ExpV::Lit]);
    match r {
        Err(e) => (Err(e), s1),
        Ok(TokenKind::Int(a)) => if a >= 0 {
            (Ok(a as u32), s1)
        } else {
            (Err(ErrV::NonPositiveNumber), st_tail(src, s1))
        },
        Ok(TokenKind::UInt(a)) => (Ok(a), s1),
        Ok(_) => (Err(ErrV::NonPositiveNumber), st_tail(src, s1)),
    }
}

/// Takes the modifier keywords that follow, recording each once in order of
/// first appearance.
pub closed spec fn p_mods(src: Seq<char>, st: TState, present: Seq<Modifier>) -> (Result<Seq<Modifier>, ErrV>, TState)
    decreases st_measure(src, st),
{
    let (r, s1) = p_peek_opt(src, st);
    match r {
        Err(e) => (Err(e), s1),
        Ok(Some(TokenKind::Keyword(k))) => match modifier_of_keyword(k) {
            Some(m) => {
                let (r2, s2) = p_next(src, s1);
                match r2 {
                    Err(e) => (Err(e), s2),
                    Ok(_) => if lt(src, s2, st) {
                        p_mods(src, s2, if present.contains(m) { present } else { present.push(m) })
                    } else {
                        (Err(ErrV::InternalErr), s2)
                    },
                }
            },
            None => (Ok(present), s1),
        },
        Ok(_) => (Ok(present), s1),
    }
}

/// One step of `p_mods`.
pub proof fn lemma_unfold_mods(src: Seq<char>, st: TState, present: Seq<Modifier>)
    ensures
        p_mods(src, st, present) == {
    let (r, s1) = p_peek_opt(src, st);
    match r {
        Err(e) => (Err(e), s1),
        Ok(Some(TokenKind::Keyword(k))) => match modifier_of_keyword(k) {
            Some(m) => {
                let (r2, s2) = p_next(src, s1);
                match r2 {
                    Err(e) => (Err(e), s2),
                    Ok(_) => if lt(src, s2, st) {
                        p_mods(src, s2, if present.contains(m) { present } else { present.push(m) })
                    } else {
                        (Err(ErrV::InternalErr), s2)
                    },
                }
            },
            None => (Ok(present), s1),
        },
        Ok(_) => (Ok(present), s1),
    }
        },
{
}


/// Checking modifiers against rules, as an error kind.
pub open spec fn p_validate(present: Seq<Modifier>, rules: Seq<(Seq<char>, RuleV)>) -> Result<Map<Seq<char>, Modifier>, ErrV> {
    match validate_spec(present, rules) {
        Ok(m) => Ok(m),
        Err(f) => Err(fault_kind(f)),
    }
}

/// The error for a token that cannot start an expression.
pub open spec fn failed_primary(k: TokenKind) -> ErrV {
    match k {
        TokenKind::Operator(op) => ErrV::NonUnaryCompatibleOperator(op),
        TokenKind::OperatorAssign(_) => ErrV::AssignOpNotAllowedAtExpressionHead,
        TokenKind::Keyword(_) => ErrV::InvalidExpression,
        _ => ErrV::UnconstrainedUnexpectedToken(k),
    }
}

/// Failure of a step that did not read anything although it always does.
pub open spec fn stuck<T>(s: TState) -> (Result<T, ErrV>, TState) {
    (Err(ErrV::InternalErr), s)
}

// ---------------------------------------------------------------------------
// Expressions
// ---------------------------------------------------------------------------

pub closed spec fn p_expr(src: Seq<char>, st: TState) -> (Result<ExprV, ErrV>, TState)
    decreases st_measure(src, st), 6int,
{
    p_expr_prec(src, st, 0)
}

/// One step of `p_expr`.
pub proof fn lemma_unfold_expr(src: Seq<char>, st: TState)
    ensures
        p_expr(src, st) == {
    p_expr_prec(src, st, 0)
        },
{
}


/// An expression whose binary operators bind at least as strongly as `min`.
pub closed spec fn p_expr_prec(src: Seq<char>, st: TState, min: u8) -> (Result<ExprV, ErrV>, TState)
    decreases st_measure(src, st), 5int,
{
    match p_primary(src, st) {
        (Err(e), s1) => (Err(e), s1),
        (Ok(lhs), s1) => if lt(src, s1, st) {
            p_climb(src, s1, min, lhs)
        } else {
            stuck(s1)
        },
    }
}

/// One step of `p_expr_prec`.
pub proof fn lemma_unfold_expr_prec(src: Seq<char>, st: TState, min: u8)
    ensures
        p_expr_prec(src, st, min) == {
    match p_primary(src, st) {
        (Err(e), s1) => (Err(e), s1),
        (Ok(lhs), s1) => if lt(src, s1, st) {
            p_climb(src, s1, min, lhs)
        } else {
            stuck(s1)
        },
    }
        },
{
}


/// Folds binary operators of precedence at least `min` onto `lhs`.
pub closed spec fn p_climb(src: Seq<char>, st: TState, min: u8, lhs: ExprV) -> (Result<ExprV, ErrV>, TState)
    decreases st_measure(src, st), 2int,
{
    let (r, s1) = p_peek_opt(src, st);
    match r {
        Err(e) => (Err(e), s1),
        Ok(Some(TokenKind::Operator(op))) => match binary_precedence(op) {
            None => (Err(ErrV::NonBinaryCompatibleOperator(op)), st_tail(src, s1)),
            Some(p) => if p < min {
                (Ok(lhs), s1)
            } else {
                let s2 = st_next(src, s1).1;
                if lt(src, s2, st) {
                    match p_primary(src, s2) {
                        (Err(e), s3) => (Err(e), s3),
                        (Ok(rhs), s3) => if lt(src, s3, st) {
                            match p_inner(src, s3, p, rhs) {
                                (Err(e), s4) => (Err(e), s4),
                                (Ok(rhs2), s4) => if lt(src, s4, st) {
                                    p_climb(src, s4, min, ExprV::Binary(Box::new(lhs), op, Box::new(rhs2)))
                                } else {
                                    stuck(s4)
                                },
                            }
                        } else {
                            stuck(s3)
                        },
                    }
                } else {
                    stuck(s2)
                }
            },
        },
        Ok(_) => (Ok(lhs), s1),
    }
}

/// One step of `p_climb`.
pub proof fn lemma_unfold_climb(src: Seq<char>, st: TState, min: u8, lhs: ExprV)
    ensures
        p_climb(src, st, min, lhs) == {
    let (r, s1) = p_peek_opt(src, st);
    match r {
        Err(e) => (Err(e), s1),
        Ok(Some(TokenKind::Operator(op))) => match binary_precedence(op) {
            None => (Err(ErrV::NonBinaryCompatibleOperator(op)), st_tail(src, s1)),
            Some(p) => if p < min {
                (Ok(lhs), s1)
            } else {
                let s2 = st_next(src, s1).1;
                if lt(src, s2, st) {
                    match p_primary(src, s2) {
                        (Err(e), s3) => (Err(e), s3),
                        (Ok(rhs), s3) => if lt(src, s3, st) {
                            match p_inner(src, s3, p, rhs) {
                                (Err(e), s4) => (Err(e), s4),
                                (Ok(rhs2), s4) => if lt(src, s4, st) {
                                    p_climb(src, s4, min, ExprV::Binary(Box::new(lhs), op, Box::new(rhs2)))
                                } else {
                                    stuck(s4)
                                },
                            }
                        } else {
                            stuck(s3)
                        },
                    }
                } else {
                    stuck(s2)
                }
            },
        },
        Ok(_) => (Ok(lhs), s1),
    }
        },
{
}


/// Folds operators binding more strongly than `prec` onto the right operand.
pub closed spec fn p_inner(src: Seq<char>, st: TState, prec: u8, rhs: ExprV) -> (Result<ExprV, ErrV>, TState)
    decreases st_measure(src, st), 3int,
{
    let (r, s1) = p_peek_opt(src, st);
    match r {
        Err(e) => (Err(e), s1),
        Ok(Some(TokenKind::Operator(op))) => match binary_precedence(op) {
            None => (Err(ErrV::NonBinaryCompatibleOperator(op)), st_tail(src, s1)),
            Some(ip) => if ip <= prec {
                (Ok(rhs), s1)
            } else {
                let s2 = st_next(src, s1).1;
                if lt(src, s2, st) {
                    match p_expr_prec(src, s2, ip) {
                        (Err(e), s3) => (Err(e), s3),
                        (Ok(extra), s3) => if lt(src, s3, st) {
                            p_inner(src, s3, prec, ExprV::Binary(Box::new(rhs), op, Box::new(extra)))
                        } else {
                            stuck(s3)
                        },
                    }
                } else {
                    stuck(s2)
                }
            },
        },
        Ok(_) => (Ok(rhs), s1),
    }
}

/// One step of `p_inner`.
pub proof fn lemma_unfold_inner(src: Seq<char>, st: TState, prec: u8, rhs: ExprV)
    ensures
        p_inner(src, st, prec, rhs) == {
    let (r, s1) = p_peek_opt(src, st);
    match r {
        Err(e) => (Err(e), s1),
        Ok(Some(TokenKind::Operator(op))) => match binary_precedence(op) {
            None => (Err(ErrV::NonBinaryCompatibleOperator(op)), st_tail(src, s1)),
            Some(ip) => if ip <= prec {
                (Ok(rhs), s1)
            } else {
                let s2 = st_next(src, s1).1;
                if lt(src, s2, st) {
                    match p_expr_prec(src, s2, ip) {
                        (Err(e), s3) => (Err(e), s3),
                        (Ok(extra), s3) => if lt(src, s3, st) {
                            p_inner(src, s3, prec, ExprV::Binary(Box::new(rhs), op, Box::new(extra)))
                        } else {
                            stuck(s3)
                        },
                    }
                } else {
                    stuck(s2)
                }
            },
        },
        Ok(_) => (Ok(rhs), s1),
    }
        },
{
}


/// Expressions separated by commas up to `stop` (not taken); each with whether
/// a comma followed it.
pub closed spec fn p_expr_list(src: Seq<char>, st: TState, stop: TokenKind) -> (Result<Seq<(ExprV, bool)>, ErrV>, TState)
    decreases st_measure(src, st), 7int,
{
    let (r, s1) = p_peek_opt(src, st);
    match r {
        Err(e) => (Err(e), s1),
        Ok(Some(k)) if k == stop => (Ok(seq![]), s1),
        Ok(_) => if le(src, s1, st) {
            match p_expr(src, s1) {
                (Err(e), s2) => (Err(e), s2),
                (Ok(x), s2) => match p_sep(src, s2, stop, true) {
                    (Err(e), s3) => (Err(e), s3),
                    (Ok(sep), s3) => if lt(src, s3, st) {
                        match p_expr_list(src, s3, stop) {
                            (Err(e), s4) => (Err(e), s4),
                            (Ok(rest), s4) => (Ok(seq![(x, sep)] + rest), s4),
                        }
                    } else {
                        stuck(s3)
                    },
                },
            }
        } else {
            stuck(s1)
        },
    }
}

/// One step of `p_expr_list`.
pub proof fn lemma_unfold_expr_list(src: Seq<char>, st: TState, stop: TokenKind)
    ensures
        p_expr_list(src, st, stop) == {
    let (r, s1) = p_peek_opt(src, st);
    match r {
        Err(e) => (Err(e), s1),
        Ok(Some(k)) if k == stop => (Ok(seq![]), s1),
        Ok(_) => if le(src, s1, st) {
            match p_expr(src, s1) {
                (Err(e), s2) => (Err(e), s2),
                (Ok(x), s2) => match p_sep(src, s2, stop, true) {
                    (Err(e), s3) => (Err(e), s3),
                    (Ok(sep), s3) => if lt(src, s3, st) {
                        match p_expr_list(src, s3, stop) {
                            (Err(e), s4) => (Err(e), s4),
                            (Ok(rest), s4) => (Ok(seq![(x, sep)] + rest), s4),
                        }
                    } else {
                        stuck(s3)
                    },
                },
            }
        } else {
            stuck(s1)
        },
    }
        },
{
}


/// After a list element: takes a comma if one follows; refuses it before
/// `stop` unless trailing commas are allowed.
pub open spec fn p_sep(src: Seq<char>, st: TState, stop: TokenKind, allow_trailing: bool) -> (Result<bool, ErrV>, TState) {
    let (r, s1) = p_peek_opt(src, st);
    match r {
        Err(e) => (Err(e), s1),
        Ok(o) => {
            let (r2, s2) = if o == Some(TokenKind::Comma) {
                match p_next(src, s1) {
                    (Err(e), t) => (Err(e), t),
                    (Ok(_), t) => (Ok(true), t),
                }
            } else {
                (Ok(false), s1)
            };
            match r2 {
                Err(e) => (Err(e), s2),
                Ok(sep) => {
                    let (r3, s3) = p_peek_opt(src, s2);
                    match r3 {
                        Err(e) => (Err(e), s3),
                        Ok(Some(k)) if k == stop && !allow_trailing && sep => (
                            Err(ErrV::IllegalTrailingSeparator),
                            st_tail(src, s3),
                        ),
                        Ok(_) => (Ok(sep), s3),
                    }
                },
            }
        },
    }
}

/// `name: expr` in a structure construction.
pub closed spec fn p_field_init(src: Seq<char>, st: TState) -> (Result<(Seq<char>, ExprV), ErrV>, TState)
    decreases st_measure(src, st), 1int,
{
    match p_ident(src, st) {
        (Err(e), s1) => (Err(e), s1),
        (Ok(n), s1) => match p_expect(src, s1, ex(TokenKind::Colon)) {
            (Err(e), s2) => (Err(e), s2),
            (Ok(_), s2) => if lt(src, s2, st) {
                match p_expr(src, s2) {
                    (Err(e), s3) => (Err(e), s3),
                    (Ok(x), s3) => (Ok((n, x)), s3),
                }
            } else {
                stuck(s2)
            },
        },
    }
}

/// One step of `p_field_init`.
pub proof fn lemma_unfold_field_init(src: Seq<char>, st: TState)
    ensures
        p_field_init(src, st) == {
    match p_ident(src, st) {
        (Err(e), s1) => (Err(e), s1),
        (Ok(n), s1) => match p_expect(src, s1, ex(TokenKind::Colon)) {
            (Err(e), s2) => (Err(e), s2),
            (Ok(_), s2) => if lt(src, s2, st) {
                match p_expr(src, s2) {
                    (Err(e), s3) => (Err(e), s3),
                    (Ok(x), s3) => (Ok((n, x)), s3),
                }
            } else {
                stuck(s2)
            },
        },
    }
        },
{
}


/// Field initialisers separated by commas up to `}`.
pub closed spec fn p_field_list(src: Seq<char>, st: TState) -> (Result<Seq<(Seq<char>, ExprV, bool)>, ErrV>, TState)
    decreases st_measure(src, st), 7int,
{
    let (r, s1) = p_peek_opt(src, st);
    match r {
        Err(e) => (Err(e), s1),
        Ok(Some(TokenKind::RBrace)) => (Ok(seq![]), s1),
        Ok(_) => if le(src, s1, st) {
            match p_field_init(src, s1) {
                (Err(e), s2) => (Err(e), s2),
                (Ok(f), s2) => match p_sep(src, s2, TokenKind::RBrace, true) {
                    (Err(e), s3) => (Err(e), s3),
                    (Ok(sep), s3) => if lt(src, s3, st) {
                        match p_field_list(src, s3) {
                            (Err(e), s4) => (Err(e), s4),
                            (Ok(rest), s4) => (Ok(seq![(f.0, f.1, sep)] + rest), s4),
                        }
                    } else {
                        stuck(s3)
                    },
                },
            }
        } else {
            stuck(s1)
        },
    }
}

/// One step of `p_field_list`.
pub proof fn lemma_unfold_field_list(src: Seq<char>, st: TState)
    ensures
        p_field_list(src, st) == {
    let (r, s1) = p_peek_opt(src, st);
    match r {
        Err(e) => (Err(e), s1),
        Ok(Some(TokenKind::RBrace)) => (Ok(seq![]), s1),
        Ok(_) => if le(src, s1, st) {
            match p_field_init(src, s1) {
                (Err(e), s2) => (Err(e), s2),
                (Ok(f), s2) => match p_sep(src, s2, TokenKind::RBrace, true) {
                    (Err(e), s3) => (Err(e), s3),
                    (Ok(sep), s3) => if lt(src, s3, st) {
                        match p_field_list(src, s3) {
                            (Err(e), s4) => (Err(e), s4),
                            (Ok(rest), s4) => (Ok(seq![(f.0, f.1, sep)] + rest), s4),
                        }
                    } else {
                        stuck(s3)
                    },
                },
            }
        } else {
            stuck(s1)
        },
    }
        },
{
}


/// Statements of a block expression up to `}` (not taken). An error when
/// looking ahead does not end the block: a statement is read next.
pub closed spec fn p_expr_block(src: Seq<char>, st: TState) -> (Result<Seq<StmtV>, ErrV>, TState)
    decreases st_measure(src, st), 11int,
{
    let (r, s1) = p_peek(src, st);
    if r == Ok::<TokenKind, ErrV>(TokenKind::RBrace) {
        (Ok(seq![]), s1)
    } else if le(src, s1, st) {
        match p_stmt(src, s1) {
            (Err(e), s2) => (Err(e), s2),
            (Ok(x), s2) => if lt(src, s2, st) {
                match p_expr_block(src, s2) {
                    (Err(e), s3) => (Err(e), s3),
                    (Ok(rest), s3) => (Ok(seq![x] + rest), s3),
                }
            } else {
                stuck(s2)
            },
        }
    } else {
        stuck(s1)
    }
}

/// One step of `p_expr_block`.
pub proof fn lemma_unfold_expr_block(src: Seq<char>, st: TState)
    ensures
        p_expr_block(src, st) == {
    let (r, s1) = p_peek(src, st);
    if r == Ok::<TokenKind, ErrV>(TokenKind::RBrace) {
        (Ok(seq![]), s1)
    } else if le(src, s1, st) {
        match p_stmt(src, s1) {
            (Err(e), s2) => (Err(e), s2),
            (Ok(x), s2) => if lt(src, s2, st) {
                match p_expr_block(src, s2) {
                    (Err(e), s3) => (Err(e), s3),
                    (Ok(rest), s3) => (Ok(seq![x] + rest), s3),
                }
            } else {
                stuck(s2)
            },
        }
    } else {
        stuck(s1)
    }
        },
{
}


/// Wraps a list of expressions in parentheses: one expression with no comma
/// after it is just that expression.
pub open spec fn paren_expr(args: Seq<(ExprV, bool)>) -> ExprV {
    if args.len() == 1 && !args[0].1 {
        args[0].0
    } else {
        ExprV::Tuple(args)
    }
}

/// An operand: a literal, a prefixed operand, a name, a call, a
/// construction, a parenthesised list, an array or a block; then what
/// follows it.
pub closed spec fn p_primary(src: Seq<char>, st: TState) -> (Result<ExprV, ErrV>, TState)
    decreases st_measure(src, st), 4int,
{
    let (r, s1) = p_next(src, st);
    match r {
        Err(e) => (Err(e), s1),
        Ok(k) => if !lt(src, s1, st) {
            stuck(s1)
        } else {
            match k {
                TokenKind::Operator(op) => if op == Operator::Minus || op == Operator::Not || op
                    == Operator::MinusMinus || op == Operator::PlusPlus {
                    p_prefixed(src, s1, op)
                } else {
                    (Err(failed_primary(k)), st_tail(src, s1))
                },
                TokenKind::Keyword(Keyword::Nonuniform) => p_nonuniform(src, s1),
                TokenKind::Keyword(Keyword::This) => p_secondary(src, s1, ExprV::This),
                TokenKind::Ident(name) => p_primary_ident(src, s1, name),
                TokenKind::LParen => p_group(src, s1, TokenKind::RParen),
                TokenKind::LBracket => p_group(src, s1, TokenKind::RBracket),
                TokenKind::LBrace => p_block_expr(src, s1),
                _ => if is_literal(k) {
                    p_secondary(src, s1, ExprV::Literal(k))
                } else {
                    (Err(failed_primary(k)), st_tail(src, s1))
                },
            }
        },
    }
}

/// One step of `p_primary`.
pub proof fn lemma_unfold_primary(src: Seq<char>, st: TState)
    ensures
        p_primary(src, st) == {
    let (r, s1) = p_next(src, st);
    match r {
        Err(e) => (Err(e), s1),
        Ok(k) => if !lt(src, s1, st) {
            stuck(s1)
        } else {
            match k {
                TokenKind::Operator(op) => if op == Operator::Minus || op == Operator::Not || op
                    == Operator::MinusMinus || op == Operator::PlusPlus {
                    p_prefixed(src, s1, op)
                } else {
                    (Err(failed_primary(k)), st_tail(src, s1))
                },
                TokenKind::Keyword(Keyword::Nonuniform) => p_nonuniform(src, s1),
                TokenKind::Keyword(Keyword::This) => p_secondary(src, s1, ExprV::This),
                TokenKind::Ident(name) => p_primary_ident(src, s1, name),
                TokenKind::LParen => p_group(src, s1, TokenKind::RParen),
                TokenKind::LBracket => p_group(src, s1, TokenKind::RBracket),
                TokenKind::LBrace => p_block_expr(src, s1),
                _ => if is_literal(k) {
                    p_secondary(src, s1, ExprV::Literal(k))
                } else {
                    (Err(failed_primary(k)), st_tail(src, s1))
                },
            }
        },
    }
        },
{
}


/// After a prefix operator `op`: its operand, then what follows.
pub closed spec fn p_prefixed(src: Seq<char>, st: TState, op: Operator) -> (Result<ExprV, ErrV>, TState)
    decreases st_measure(src, st), 5int,
{
    match p_primary(src, st) {
        (Err(e), s2) => (Err(e), s2),
        (Ok(x), s2) => if lt(src, s2, st) {
            let e = if op == Operator::Minus || op == Operator::Not {
                ExprV::Unary(op, Box::new(x))
            } else {
                ExprV::PreFix(op, Box::new(x))
            };
            p_secondary(src, s2, e)
        } else {
            stuck(s2)
        },
    }
}

/// One step of `p_prefixed`.
pub proof fn lemma_unfold_prefixed(src: Seq<char>, st: TState, op: Operator)
    ensures
        p_prefixed(src, st, op) == {
    match p_primary(src, st) {
        (Err(e), s2) => (Err(e), s2),
        (Ok(x), s2) => if lt(src, s2, st) {
            let e = if op == Operator::Minus || op == Operator::Not {
                ExprV::Unary(op, Box::new(x))
            } else {
                ExprV::PreFix(op, Box::new(x))
            };
            p_secondary(src, s2, e)
        } else {
            stuck(s2)
        },
    }
        },
{
}


/// After `nonuniform`: an expression, then what follows.
pub closed spec fn p_nonuniform(src: Seq<char>, st: TState) -> (Result<ExprV, ErrV>, TState)
    decreases st_measure(src, st), 7int,
{
    match p_expr(src, st) {
        (Err(e), s2) => (Err(e), s2),
        (Ok(x), s2) => if lt(src, s2, st) {
            p_secondary(src, s2, ExprV::Nonuniform(Box::new(x)))
        } else {
            stuck(s2)
        },
    }
}

/// One step of `p_nonuniform`.
pub proof fn lemma_unfold_nonuniform(src: Seq<char>, st: TState)
    ensures
        p_nonuniform(src, st) == {
    match p_expr(src, st) {
        (Err(e), s2) => (Err(e), s2),
        (Ok(x), s2) => if lt(src, s2, st) {
            p_secondary(src, s2, ExprV::Nonuniform(Box::new(x)))
        } else {
            stuck(s2)
        },
    }
        },
{
}


/// After `(` or `[`: a list up to the closing `close`, then what follows.
pub closed spec fn p_group(src: Seq<char>, st: TState, close: TokenKind) -> (Result<ExprV, ErrV>, TState)
    decreases st_measure(src, st), 8int,
{
    match p_expr_list(src, st, close) {
        (Err(e), s2) => (Err(e), s2),
        (Ok(args), s2) => match p_expect(src, s2, ex(close)) {
            (Err(e), s3) => (Err(e), s3),
            (Ok(_), s3) => if lt(src, s3, st) {
                p_secondary(src, s3, if close == TokenKind::RParen { paren_expr(args) } else { ExprV::Array(args) })
            } else {
                stuck(s3)
            },
        },
    }
}

/// One step of `p_group`.
pub proof fn lemma_unfold_group(src: Seq<char>, st: TState, close: TokenKind)
    ensures
        p_group(src, st, close) == {
    match p_expr_list(src, st, close) {
        (Err(e), s2) => (Err(e), s2),
        (Ok(args), s2) => match p_expect(src, s2, ex(close)) {
            (Err(e), s3) => (Err(e), s3),
            (Ok(_), s3) => if lt(src, s3, st) {
                p_secondary(src, s3, if close == TokenKind::RParen { paren_expr(args) } else { ExprV::Array(args) })
            } else {
                stuck(s3)
            },
        },
    }
        },
{
}


/// After `{`: statements up to `}`, then what follows.
pub closed spec fn p_block_expr(src: Seq<char>, st: TState) -> (Result<ExprV, ErrV>, TState)
    decreases st_measure(src, st), 12int,
{
    match p_expr_block(src, st) {
        (Err(e), s2) => (Err(e), s2),
        (Ok(stmts), s2) => match p_expect(src, s2, ex(TokenKind::RBrace)) {
            (Err(e), s3) => (Err(e), s3),
            (Ok(_), s3) => if lt(src, s3, st) {
                p_secondary(src, s3, ExprV::Block(stmts))
            } else {
                stuck(s3)
            },
        },
    }
}

/// One step of `p_block_expr`.
pub proof fn lemma_unfold_block_expr(src: Seq<char>, st: TState)
    ensures
        p_block_expr(src, st) == {
    match p_expr_block(src, st) {
        (Err(e), s2) => (Err(e), s2),
        (Ok(stmts), s2) => match p_expect(src, s2, ex(TokenKind::RBrace)) {
            (Err(e), s3) => (Err(e), s3),
            (Ok(_), s3) => if lt(src, s3, st) {
                p_secondary(src, s3, ExprV::Block(stmts))
            } else {
                stuck(s3)
            },
        },
    }
        },
{
}


/// After a name: a call, a construction, or the name itself; then what follows.
pub closed spec fn p_primary_ident(src: Seq<char>, st: TState, name: Seq<char>) -> (Result<ExprV, ErrV>, TState)
    decreases st_measure(src, st), 3int,
{
    let (p1, t1) = p_peek(src, st);
    if p1 == Ok::<TokenKind, ErrV>(TokenKind::LParen) {
        if le(src, t1, st) {
            p_call_rest(src, t1, name)
        } else {
            stuck(t1)
        }
    } else {
        let (p2, u1) = p_peek(src, t1);
        if p2 == Ok::<TokenKind, ErrV>(TokenKind::LBrace) {
            if le(src, u1, st) {
                p_construct_rest(src, u1, name)
            } else {
                stuck(u1)
            }
        } else if le(src, u1, st) {
            p_secondary(src, u1, ExprV::Variable(name))
        } else {
            stuck(u1)
        }
    }
}

/// One step of `p_primary_ident`.
pub proof fn lemma_unfold_primary_ident(src: Seq<char>, st: TState, name: Seq<char>)
    ensures
        p_primary_ident(src, st, name) == {
    let (p1, t1) = p_peek(src, st);
    if p1 == Ok::<TokenKind, ErrV>(TokenKind::LParen) {
        if le(src, t1, st) {
            p_call_rest(src, t1, name)
        } else {
            stuck(t1)
        }
    } else {
        let (p2, u1) = p_peek(src, t1);
        if p2 == Ok::<TokenKind, ErrV>(TokenKind::LBrace) {
            if le(src, u1, st) {
                p_construct_rest(src, u1, name)
            } else {
                stuck(u1)
            }
        } else if le(src, u1, st) {
            p_secondary(src, u1, ExprV::Variable(name))
        } else {
            stuck(u1)
        }
    }
        },
{
}


/// A call of `name`: `(`, arguments, `)`, then what follows.
pub closed spec fn p_call_rest(src: Seq<char>, st: TState, name: Seq<char>) -> (Result<ExprV, ErrV>, TState)
    decreases st_measure(src, st), 2int,
{
    match p_next(src, st) {
        (Err(e), t2) => (Err(e), t2),
        (Ok(_), t2) => if lt(src, t2, st) {
            match p_expr_list(src, t2, TokenKind::RParen) {
                (Err(e), t3) => (Err(e), t3),
                (Ok(args), t3) => match p_expect(src, t3, ex(TokenKind::RParen)) {
                    (Err(e), t4) => (Err(e), t4),
                    (Ok(_), t4) => if lt(src, t4, st) {
                        p_secondary(src, t4, ExprV::FnCall(name, args))
                    } else {
                        stuck(t4)
                    },
                },
            }
        } else {
            stuck(t2)
        },
    }
}

/// One step of `p_call_rest`.
pub proof fn lemma_unfold_call_rest(src: Seq<char>, st: TState, name: Seq<char>)
    ensures
        p_call_rest(src, st, name) == {
    match p_next(src, st) {
        (Err(e), t2) => (Err(e), t2),
        (Ok(_), t2) => if lt(src, t2, st) {
            match p_expr_list(src, t2, TokenKind::RParen) {
                (Err(e), t3) => (Err(e), t3),
                (Ok(args), t3) => match p_expect(src, t3, ex(TokenKind::RParen)) {
                    (Err(e), t4) => (Err(e), t4),
                    (Ok(_), t4) => if lt(src, t4, st) {
                        p_secondary(src, t4, ExprV::FnCall(name, args))
                    } else {
                        stuck(t4)
                    },
                },
            }
        } else {
            stuck(t2)
        },
    }
        },
{
}


/// A construction of structure `name`: `{`, field values, `}`, then what follows.
pub closed spec fn p_construct_rest(src: Seq<char>, st: TState, name: Seq<char>) -> (Result<ExprV, ErrV>, TState)
    decreases st_measure(src, st), 2int,
{
    match p_next(src, st) {
        (Err(e), u2) => (Err(e), u2),
        (Ok(_), u2) => if lt(src, u2, st) {
            match p_field_list(src, u2) {
                (Err(e), u3) => (Err(e), u3),
                (Ok(fields), u3) => match p_expect(src, u3, ex(TokenKind::RBrace)) {
                    (Err(e), u4) => (Err(e), u4),
                    (Ok(_), u4) => if lt(src, u4, st) {
                        p_secondary(src, u4, ExprV::Construct(name, fields))
                    } else {
                        stuck(u4)
                    },
                },
            }
        } else {
            stuck(u2)
        },
    }
}

/// One step of `p_construct_rest`.
pub proof fn lemma_unfold_construct_rest(src: Seq<char>, st: TState, name: Seq<char>)
    ensures
        p_construct_rest(src, st, name) == {
    match p_next(src, st) {
        (Err(e), u2) => (Err(e), u2),
        (Ok(_), u2) => if lt(src, u2, st) {
            match p_field_list(src, u2) {
                (Err(e), u3) => (Err(e), u3),
                (Ok(fields), u3) => match p_expect(src, u3, ex(TokenKind::RBrace)) {
                    (Err(e), u4) => (Err(e), u4),
                    (Ok(_), u4) => if lt(src, u4, st) {
                        p_secondary(src, u4, ExprV::Construct(name, fields))
                    } else {
                        stuck(u4)
                    },
                },
            }
        } else {
            stuck(u2)
        },
    }
        },
{
}


/// The component a literal after `.` selects, or the error for it.
pub open spec fn tuple_component(k: TokenKind) -> Result<u32, ErrV> {
    match k {
        TokenKind::UInt(v) => Ok(v),
        TokenKind::Int(i) => if i >= 0 {
            Ok(i as u32)
        } else {
            Err(ErrV::IllegalTupleAccessLiteral(PrimitiveType::Int))
        },
        TokenKind::Bool(_) => Err(ErrV::IllegalTupleAccessLiteral(PrimitiveType::Bool)),
        TokenKind::Float(_) => Err(ErrV::IllegalTupleAccessLiteral(PrimitiveType::F32)),
        _ => Err(ErrV::IllegalTupleAccessLiteral(PrimitiveType::F64)),
    }
}

/// What may follow an operand: `? :`, member access and method calls, a
/// literal component, `++`/`--`, assignment, `as`, indexing. An error when
/// looking ahead ends the expression.
pub closed spec fn p_secondary(src: Seq<char>, st: TState, primary: ExprV) -> (Result<ExprV, ErrV>, TState)
    decreases st_measure(src, st), 1int,
{
    let (r, s1) = p_peek(src, st);
    let s2 = st_next(src, s1).1;
    match r {
        Ok(TokenKind::Question) => if lt(src, s2, st) {
            match p_expr(src, s2) {
                (Err(e), s3) => (Err(e), s3),
                (Ok(yes), s3) => match p_expect(src, s3, ex(TokenKind::Colon)) {
                    (Err(e), s4) => (Err(e), s4),
                    (Ok(_), s4) => if lt(src, s4, st) {
                        match p_expr(src, s4) {
                            (Err(e), s5) => (Err(e), s5),
                            (Ok(no), s5) => (Ok(ExprV::Ternary(Box::new(primary), Box::new(yes), Box::new(no))), s5),
                        }
                    } else {
                        stuck(s4)
                    },
                },
            }
        } else {
            stuck(s2)
        },
        Ok(TokenKind::Operator(Operator::Dot)) => if lt(src, s2, st) {
            p_secondary_dot(src, s2, primary)
        } else {
            stuck(s2)
        },
        Ok(TokenKind::Operator(op)) if op == Operator::MinusMinus || op == Operator::PlusPlus => (
            Ok(ExprV::PostFix(op, Box::new(primary))),
            s2,
        ),
        Ok(TokenKind::Operator(Operator::Assign)) => if lt(src, s2, st) {
            match p_expr(src, s2) {
                (Err(e), s3) => (Err(e), s3),
                (Ok(v), s3) => (Ok(ExprV::Assign(Box::new(primary), Box::new(v))), s3),
            }
        } else {
            stuck(s2)
        },
        Ok(TokenKind::Keyword(Keyword::As)) => if lt(src, s2, st) {
            match p_type(src, s2) {
                (Err(e), s3) => (Err(e), s3),
                (Ok(t), s3) => (Ok(ExprV::As(Box::new(primary), t)), s3),
            }
        } else {
            stuck(s2)
        },
        Ok(TokenKind::LBracket) => if lt(src, s2, st) {
            match p_expr(src, s2) {
                (Err(e), s3) => (Err(e), s3),
                (Ok(i), s3) => match p_expect(src, s3, ex(TokenKind::RBracket)) {
                    (Err(e), s4) => (Err(e), s4),
                    (Ok(_), s4) => if lt(src, s4, st) {
                        p_secondary(src, s4, ExprV::Index(Box::new(primary), Box::new(i)))
                    } else {
                        stuck(s4)
                    },
                },
            }
        } else {
            stuck(s2)
        },
        _ => (Ok(primary), s1),
    }
}

/// One step of `p_secondary`.
pub proof fn lemma_unfold_secondary(src: Seq<char>, st: TState, primary: ExprV)
    ensures
        p_secondary(src, st, primary) == {
    let (r, s1) = p_peek(src, st);
    let s2 = st_next(src, s1).1;
    match r {
        Ok(TokenKind::Question) => if lt(src, s2, st) {
            match p_expr(src, s2) {
                (Err(e), s3) => (Err(e), s3),
                (Ok(yes), s3) => match p_expect(src, s3, ex(TokenKind::Colon)) {
                    (Err(e), s4) => (Err(e), s4),
                    (Ok(_), s4) => if lt(src, s4, st) {
                        match p_expr(src, s4) {
                            (Err(e), s5) => (Err(e), s5),
                            (Ok(no), s5) => (Ok(ExprV::Ternary(Box::new(primary), Box::new(yes), Box::new(no))), s5),
                        }
                    } else {
                        stuck(s4)
                    },
                },
            }
        } else {
            stuck(s2)
        },
        Ok(TokenKind::Operator(Operator::Dot)) => if lt(src, s2, st) {
            p_secondary_dot(src, s2, primary)
        } else {
            stuck(s2)
        },
        Ok(TokenKind::Operator(op)) if op == Operator::MinusMinus || op == Operator::PlusPlus => (
            Ok(ExprV::PostFix(op, Box::new(primary))),
            s2,
        ),
        Ok(TokenKind::Operator(Operator::Assign)) => if lt(src, s2, st) {
            match p_expr(src, s2) {
                (Err(e), s3) => (Err(e), s3),
                (Ok(v), s3) => (Ok(ExprV::Assign(Box::new(primary), Box::new(v))), s3),
            }
        } else {
            stuck(s2)
        },
        Ok(TokenKind::Keyword(Keyword::As)) => if lt(src, s2, st) {
            match p_type(src, s2) {
                (Err(e), s3) => (Err(e), s3),
                (Ok(t), s3) => (Ok(ExprV::As(Box::new(primary), t)), s3),
            }
        } else {
            stuck(s2)
        },
        Ok(TokenKind::LBracket) => if lt(src, s2, st) {
            match p_expr(src, s2) {
                (Err(e), s3) => (Err(e), s3),
                (Ok(i), s3) => match p_expect(src, s3, ex(TokenKind::RBracket)) {
                    (Err(e), s4) => (Err(e), s4),
                    (Ok(_), s4) => if lt(src, s4, st) {
                        p_secondary(src, s4, ExprV::Index(Box::new(primary), Box::new(i)))
                    } else {
                        stuck(s4)
                    },
                },
            }
        } else {
            stuck(s2)
        },
        _ => (Ok(primary), s1),
    }
        },
{
}


/// After `.`: a literal component, a method call, or a member; then what follows.
pub closed spec fn p_secondary_dot(src: Seq<char>, st: TState, primary: ExprV) -> (Result<ExprV, ErrV>, TState)
    decreases st_measure(src, st), 2int,
{
    let (p, t1) = p_peek(src, st);
    match p {
        Ok(k) if is_literal(k) => match tuple_component(k) {
            Err(e) => (Err(e), st_tail(src, t1)),
            Ok(c) => if le(src, t1, st) {
                p_secondary(src, t1, ExprV::TupleAccess(Box::new(primary), c))
            } else {
                stuck(t1)
            },
        },
        _ => match p_ident(src, t1) {
            (Err(e), t2) => (Err(e), t2),
            (Ok(name), t2) => {
                let (q, u1) = p_peek(src, t2);
                if q == Ok::<TokenKind, ErrV>(TokenKind::LParen) {
                    match p_next(src, u1) {
                        (Err(e), u2) => (Err(e), u2),
                        (Ok(_), u2) => if lt(src, u2, st) {
                            match p_expr_list(src, u2, TokenKind::RParen) {
                                (Err(e), u3) => (Err(e), u3),
                                (Ok(args), u3) => match p_expect(src, u3, ex(TokenKind::RParen)) {
                                    (Err(e), u4) => (Err(e), u4),
                                    (Ok(_), u4) => if lt(src, u4, st) {
                                        p_secondary(src, u4, ExprV::AccessFnCall(Box::new(primary), name, args))
                                    } else {
                                        stuck(u4)
                                    },
                                },
                            }
                        } else {
                            stuck(u2)
                        },
                    }
                } else if lt(src, u1, st) {
                    p_secondary(src, u1, ExprV::Access(Box::new(primary), name))
                } else {
                    stuck(u1)
                }
            },
        },
    }
}

/// One step of `p_secondary_dot`.
pub proof fn lemma_unfold_secondary_dot(src: Seq<char>, st: TState, primary: ExprV)
    ensures
        p_secondary_dot(src, st, primary) == {
    let (p, t1) = p_peek(src, st);
    match p {
        Ok(k) if is_literal(k) => match tuple_component(k) {
            Err(e) => (Err(e), st_tail(src, t1)),
            Ok(c) => if le(src, t1, st) {
                p_secondary(src, t1, ExprV::TupleAccess(Box::new(primary), c))
            } else {
                stuck(t1)
            },
        },
        _ => match p_ident(src, t1) {
            (Err(e), t2) => (Err(e), t2),
            (Ok(name), t2) => {
                let (q, u1) = p_peek(src, t2);
                if q == Ok::<TokenKind, ErrV>(TokenKind::LParen) {
                    match p_next(src, u1) {
                        (Err(e), u2) => (Err(e), u2),
                        (Ok(_), u2) => if lt(src, u2, st) {
                            match p_expr_list(src, u2, TokenKind::RParen) {
                                (Err(e), u3) => (Err(e), u3),
                                (Ok(args), u3) => match p_expect(src, u3, ex(TokenKind::RParen)) {
                                    (Err(e), u4) => (Err(e), u4),
                                    (Ok(_), u4) => if lt(src, u4, st) {
                                        p_secondary(src, u4, ExprV::AccessFnCall(Box::new(primary), name, args))
                                    } else {
                                        stuck(u4)
                                    },
                                },
                            }
                        } else {
                            stuck(u2)
                        },
                    }
                } else if lt(src, u1, st) {
                    p_secondary(src, u1, ExprV::Access(Box::new(primary), name))
                } else {
                    stuck(u1)
                }
            },
        },
    }
        },
{
}


// ---------------------------------------------------------------------------
// Types
// ---------------------------------------------------------------------------

/// The names after the first of a dotted path.
pub closed spec fn p_path_rest(src: Seq<char>, st: TState) -> (Result<Seq<Seq<char>>, ErrV>, TState)
    decreases st_measure(src, st), 1int,
{
    let (r, s1) = p_peek_opt(src, st);
    match r {
        Err(e) => (Err(e), s1),
        Ok(Some(TokenKind::Operator(Operator::Dot))) => match p_next(src, s1) {
            (Err(e), s2) => (Err(e), s2),
            (Ok(_), s2) => match p_ident(src, s2) {
                (Err(e), s3) => (Err(e), s3),
                (Ok(n), s3) => if lt(src, s3, st) {
                    match p_path_rest(src, s3) {
                        (Err(e), s4) => (Err(e), s4),
                        (Ok(rest), s4) => (Ok(seq![n] + rest), s4),
                    }
                } else {
                    stuck(s3)
                },
            },
        },
        Ok(_) => (Ok(seq![]), s1),
    }
}

/// One step of `p_path_rest`.
pub proof fn lemma_unfold_path_rest(src: Seq<char>, st: TState)
    ensures
        p_path_rest(src, st) == {
    let (r, s1) = p_peek_opt(src, st);
    match r {
        Err(e) => (Err(e), s1),
        Ok(Some(TokenKind::Operator(Operator::Dot))) => match p_next(src, s1) {
            (Err(e), s2) => (Err(e), s2),
            (Ok(_), s2) => match p_ident(src, s2) {
                (Err(e), s3) => (Err(e), s3),
                (Ok(n), s3) => if lt(src, s3, st) {
                    match p_path_rest(src, s3) {
                        (Err(e), s4) => (Err(e), s4),
                        (Ok(rest), s4) => (Ok(seq![n] + rest), s4),
                    }
                } else {
                    stuck(s3)
                },
            },
        },
        Ok(_) => (Ok(seq![]), s1),
    }
        },
{
}


/// A type, then any array brackets after it.
pub closed spec fn p_type(src: Seq<char>, st: TState) -> (Result<TypeV, ErrV>, TState)
    decreases st_measure(src, st), 8int,
{
    let (r, s1) = p_peek(src, st);
    match r {
        Err(e) => (Err(e), s1),
        Ok(TokenKind::Ident(start)) => {
            let (q, s2) = p_peek_opt(src, s1);
            match q {
                Err(e) => (Err(e), s2),
                Ok(Some(TokenKind::Operator(Operator::Dot))) => match p_next(src, s2) {
                    (Err(e), s3) => (Err(e), s3),
                    (Ok(_), s3) => if lt(src, s3, st) {
                        match p_path_rest(src, s3) {
                            (Err(e), s4) => (Err(e), s4),
                            (Ok(rest), s4) => if lt(src, s4, st) {
                                let all = seq![start] + rest;
                                p_handle_type(src, s4, TypeV::Path(all.drop_last(), all.last()))
                            } else {
                                stuck(s4)
                            },
                        }
                    } else {
                        stuck(s3)
                    },
                },
                Ok(_) => match p_next(src, s2) {
                    (Err(e), s3) => (Err(e), s3),
                    (Ok(_), s3) => if lt(src, s3, st) {
                        p_handle_type(
                            src,
                            s3,
                            match primitive_of(start) {
                                Some(p) => TypeV::Primitive(p),
                                None => TypeV::Single(start),
                            },
                        )
                    } else {
                        stuck(s3)
                    },
                },
            }
        },
        Ok(TokenKind::Keyword(Keyword::Struct)) => if le(src, s1, st) {
            match p_struct(src, s1) {
                (Err(e), s2) => (Err(e), s2),
                (Ok(s), s2) => if lt(src, s2, st) {
                    p_handle_type(src, s2, TypeV::StructDef(Box::new(s)))
                } else {
                    stuck(s2)
                },
            }
        } else {
            stuck(s1)
        },
        Ok(TokenKind::LParen) => match p_next(src, s1) {
            (Err(e), s2) => (Err(e), s2),
            (Ok(_), s2) => if lt(src, s2, st) {
                match p_type_list(src, s2) {
                    (Err(e), s3) => (Err(e), s3),
                    (Ok(types), s3) => match p_expect(src, s3, ex(TokenKind::RParen)) {
                        (Err(e), s4) => (Err(e), s4),
                        (Ok(_), s4) => if lt(src, s4, st) {
                            p_handle_type(src, s4, TypeV::Tuple(types))
                        } else {
                            stuck(s4)
                        },
                    },
                }
            } else {
                stuck(s2)
            },
        },
        Ok(k) => (
            Err(ErrV::UnexpectedToken(k, seq![ExpV::Ident, ExpV::Exact(TokenKind::Keyword(Keyword::Struct))])),
            st_tail(src, s1),
        ),
    }
}

/// One step of `p_type`.
pub proof fn lemma_unfold_type(src: Seq<char>, st: TState)
    ensures
        p_type(src, st) == {
    let (r, s1) = p_peek(src, st);
    match r {
        Err(e) => (Err(e), s1),
        Ok(TokenKind::Ident(start)) => {
            let (q, s2) = p_peek_opt(src, s1);
            match q {
                Err(e) => (Err(e), s2),
                Ok(Some(TokenKind::Operator(Operator::Dot))) => match p_next(src, s2) {
                    (Err(e), s3) => (Err(e), s3),
                    (Ok(_), s3) => if lt(src, s3, st) {
                        match p_path_rest(src, s3) {
                            (Err(e), s4) => (Err(e), s4),
                            (Ok(rest), s4) => if lt(src, s4, st) {
                                let all = seq![start] + rest;
                                p_handle_type(src, s4, TypeV::Path(all.drop_last(), all.last()))
                            } else {
                                stuck(s4)
                            },
                        }
                    } else {
                        stuck(s3)
                    },
                },
                Ok(_) => match p_next(src, s2) {
                    (Err(e), s3) => (Err(e), s3),
                    (Ok(_), s3) => if lt(src, s3, st) {
                        p_handle_type(
                            src,
                            s3,
                            match primitive_of(start) {
                                Some(p) => TypeV::Primitive(p),
                                None => TypeV::Single(start),
                            },
                        )
                    } else {
                        stuck(s3)
                    },
                },
            }
        },
        Ok(TokenKind::Keyword(Keyword::Struct)) => if le(src, s1, st) {
            match p_struct(src, s1) {
                (Err(e), s2) => (Err(e), s2),
                (Ok(s), s2) => if lt(src, s2, st) {
                    p_handle_type(src, s2, TypeV::StructDef(Box::new(s)))
                } else {
                    stuck(s2)
                },
            }
        } else {
            stuck(s1)
        },
        Ok(TokenKind::LParen) => match p_next(src, s1) {
            (Err(e), s2) => (Err(e), s2),
            (Ok(_), s2) => if lt(src, s2, st) {
                match p_type_list(src, s2) {
                    (Err(e), s3) => (Err(e), s3),
                    (Ok(types), s3) => match p_expect(src, s3, ex(TokenKind::RParen)) {
                        (Err(e), s4) => (Err(e), s4),
                        (Ok(_), s4) => if lt(src, s4, st) {
                            p_handle_type(src, s4, TypeV::Tuple(types))
                        } else {
                            stuck(s4)
                        },
                    },
                }
            } else {
                stuck(s2)
            },
        },
        Ok(k) => (
            Err(ErrV::UnexpectedToken(k, seq![ExpV::Ident, ExpV::Exact(TokenKind::Keyword(Keyword::Struct))])),
            st_tail(src, s1),
        ),
    }
        },
{
}


/// Array brackets after a type, each with an optional length.
pub closed spec fn p_handle_type(src: Seq<char>, st: TState, ty: TypeV) -> (Result<TypeV, ErrV>, TState)
    decreases st_measure(src, st), 1int,
{
    let (r, s1) = p_peek_opt(src, st);
    match r {
        Err(e) => (Err(e), s1),
        Ok(Some(TokenKind::LBracket)) => match p_next(src, s1) {
            (Err(e), s2) => (Err(e), s2),
            (Ok(_), s2) => {
                let (q, s3) = p_peek_opt(src, s2);
                match q {
                    Err(e) => (Err(e), s3),
                    Ok(o) => {
                        let (d, s4) = if o is Some && o != Some(TokenKind::RBracket) {
                            if lt(src, s3, st) {
                                match p_expr(src, s3) {
                                    (Err(e), t) => (Err(e), t),
                                    (Ok(x), t) => (Ok(Some(Box::new(x))), t),
                                }
                            } else {
                                stuck(s3)
                            }
                        } else {
                            (Ok(None), s3)
                        };
                        match d {
                            Err(e) => (Err(e), s4),
                            Ok(dim) => match p_expect(src, s4, ex(TokenKind::RBracket)) {
                                (Err(e), s5) => (Err(e), s5),
                                (Ok(_), s5) => if lt(src, s5, st) {
                                    p_handle_type(src, s5, TypeV::Array(Box::new(ty), dim))
                                } else {
                                    stuck(s5)
                                },
                            },
                        }
                    },
                }
            },
        },
        Ok(_) => (Ok(ty), s1),
    }
}

/// One step of `p_handle_type`.
pub proof fn lemma_unfold_handle_type(src: Seq<char>, st: TState, ty: TypeV)
    ensures
        p_handle_type(src, st, ty) == {
    let (r, s1) = p_peek_opt(src, st);
    match r {
        Err(e) => (Err(e), s1),
        Ok(Some(TokenKind::LBracket)) => match p_next(src, s1) {
            (Err(e), s2) => (Err(e), s2),
            (Ok(_), s2) => {
                let (q, s3) = p_peek_opt(src, s2);
                match q {
                    Err(e) => (Err(e), s3),
                    Ok(o) => {
                        let (d, s4) = if o is Some && o != Some(TokenKind::RBracket) {
                            if lt(src, s3, st) {
                                match p_expr(src, s3) {
                                    (Err(e), t) => (Err(e), t),
                                    (Ok(x), t) => (Ok(Some(Box::new(x))), t),
                                }
                            } else {
                                stuck(s3)
                            }
                        } else {
                            (Ok(None), s3)
                        };
                        match d {
                            Err(e) => (Err(e), s4),
                            Ok(dim) => match p_expect(src, s4, ex(TokenKind::RBracket)) {
                                (Err(e), s5) => (Err(e), s5),
                                (Ok(_), s5) => if lt(src, s5, st) {
                                    p_handle_type(src, s5, TypeV::Array(Box::new(ty), dim))
                                } else {
                                    stuck(s5)
                                },
                            },
                        }
                    },
                }
            },
        },
        Ok(_) => (Ok(ty), s1),
    }
        },
{
}


/// Types separated by commas up to `)`; a comma before `)` is refused.
pub closed spec fn p_type_list(src: Seq<char>, st: TState) -> (Result<Seq<(TypeV, bool)>, ErrV>, TState)
    decreases st_measure(src, st), 9int,
{
    let (r, s1) = p_peek_opt(src, st);
    match r {
        Err(e) => (Err(e), s1),
        Ok(Some(TokenKind::RParen)) => (Ok(seq![]), s1),
        Ok(_) => if le(src, s1, st) {
            match p_type(src, s1) {
                (Err(e), s2) => (Err(e), s2),
                (Ok(t), s2) => match p_sep(src, s2, TokenKind::RParen, false) {
                    (Err(e), s3) => (Err(e), s3),
                    (Ok(sep), s3) => if lt(src, s3, st) {
                        match p_type_list(src, s3) {
                            (Err(e), s4) => (Err(e), s4),
                            (Ok(rest), s4) => (Ok(seq![(t, sep)] + rest), s4),
                        }
                    } else {
                        stuck(s3)
                    },
                },
            }
        } else {
            stuck(s1)
        },
    }
}

/// One step of `p_type_list`.
pub proof fn lemma_unfold_type_list(src: Seq<char>, st: TState)
    ensures
        p_type_list(src, st) == {
    let (r, s1) = p_peek_opt(src, st);
    match r {
        Err(e) => (Err(e), s1),
        Ok(Some(TokenKind::RParen)) => (Ok(seq![]), s1),
        Ok(_) => if le(src, s1, st) {
            match p_type(src, s1) {
                (Err(e), s2) => (Err(e), s2),
                (Ok(t), s2) => match p_sep(src, s2, TokenKind::RParen, false) {
                    (Err(e), s3) => (Err(e), s3),
                    (Ok(sep), s3) => if lt(src, s3, st) {
                        match p_type_list(src, s3) {
                            (Err(e), s4) => (Err(e), s4),
                            (Ok(rest), s4) => (Ok(seq![(t, sep)] + rest), s4),
                        }
                    } else {
                        stuck(s3)
                    },
                },
            }
        } else {
            stuck(s1)
        },
    }
        },
{
}


/// Names with an optional shared type: `a, b: T`. `names` are those read so far.
pub closed spec fn p_ntd_loop(
    src: Seq<char>,
    st: TState,
    names: Seq<Seq<char>>,
    needs_type: bool,
    allow_multiple: bool,
) -> (Result<Seq<(Seq<char>, Option<TypeV>)>, ErrV>, TState)
    decreases st_measure(src, st), 1int,
{
    match p_ident(src, st) {
        (Err(e), s1) => (Err(e), s1),
        (Ok(n), s1) => {
            let all = names.push(n);
            match p_peek(src, s1) {
                (Err(e), s2) => (Err(e), s2),
                (Ok(TokenKind::Comma), s2) => match p_next(src, s2) {
                    (Err(e), s3) => (Err(e), s3),
                    (Ok(_), s3) => if lt(src, s3, st) {
                        p_ntd_loop(src, s3, all, needs_type, allow_multiple)
                    } else {
                        stuck(s3)
                    },
                },
                (Ok(TokenKind::Colon), s2) => match p_next(src, s2) {
                    (Err(e), s3) => (Err(e), s3),
                    (Ok(_), s3) => if lt(src, s3, st) {
                        match p_type(src, s3) {
                            (Err(e), s4) => (Err(e), s4),
                            (Ok(t), s4) => if !allow_multiple && all.len() > 1 {
                                (Err(ErrV::NoMultipleNamesPerType), st_tail(src, s4))
                            } else {
                                (Ok(all.map_values(|x: Seq<char>| (x, Some(t)))), s4)
                            },
                        }
                    } else {
                        stuck(s3)
                    },
                },
                (Ok(_), s2) => if needs_type {
                    (Err(ErrV::MissingType), st_tail(src, s2))
                } else {
                    (Ok(all.map_values(|x: Seq<char>| (x, None::<TypeV>))), s2)
                },
            }
        },
    }
}

/// One step of `p_ntd_loop`.
pub proof fn lemma_unfold_ntd_loop(src: Seq<char>,
    st: TState,
    names: Seq<Seq<char>>,
    needs_type: bool,
    allow_multiple: bool,)
    ensures
        p_ntd_loop(src, st, names, needs_type, allow_multiple) == {
    match p_ident(src, st) {
        (Err(e), s1) => (Err(e), s1),
        (Ok(n), s1) => {
            let all = names.push(n);
            match p_peek(src, s1) {
                (Err(e), s2) => (Err(e), s2),
                (Ok(TokenKind::Comma), s2) => match p_next(src, s2) {
                    (Err(e), s3) => (Err(e), s3),
                    (Ok(_), s3) => if lt(src, s3, st) {
                        p_ntd_loop(src, s3, all, needs_type, allow_multiple)
                    } else {
                        stuck(s3)
                    },
                },
                (Ok(TokenKind::Colon), s2) => match p_next(src, s2) {
                    (Err(e), s3) => (Err(e), s3),
                    (Ok(_), s3) => if lt(src, s3, st) {
                        match p_type(src, s3) {
                            (Err(e), s4) => (Err(e), s4),
                            (Ok(t), s4) => if !allow_multiple && all.len() > 1 {
                                (Err(ErrV::NoMultipleNamesPerType), st_tail(src, s4))
                            } else {
                                (Ok(all.map_values(|x: Seq<char>| (x, Some(t)))), s4)
                            },
                        }
                    } else {
                        stuck(s3)
                    },
                },
                (Ok(_), s2) => if needs_type {
                    (Err(ErrV::MissingType), st_tail(src, s2))
                } else {
                    (Ok(all.map_values(|x: Seq<char>| (x, None::<TypeV>))), s2)
                },
            }
        },
    }
        },
{
}


pub closed spec fn p_ntd(src: Seq<char>, st: TState, needs_type: bool, allow_multiple: bool) -> (Result<
    Seq<(Seq<char>, Option<TypeV>)>,
    ErrV,
>, TState)
    decreases st_measure(src, st), 2int,
{
    p_ntd_loop(src, st, seq![], needs_type, allow_multiple)
}

/// One step of `p_ntd`.
pub proof fn lemma_unfold_ntd(src: Seq<char>, st: TState, needs_type: bool, allow_multiple: bool)
    ensures
        p_ntd(src, st, needs_type, allow_multiple) == {
    p_ntd_loop(src, st, seq![], needs_type, allow_multiple)
        },
{
}


/// The first of the names, with its type (which `needs_type` guarantees).
pub closed spec fn p_ntd_single(src: Seq<char>, st: TState) -> (Result<(Seq<char>, TypeV), ErrV>, TState)
    decreases st_measure(src, st), 3int,
{
    match p_ntd(src, st, true, false) {
        (Err(e), s1) => (Err(e), s1),
        (Ok(v), s1) => if v.len() > 0 && v[0].1 is Some {
            (Ok((v[0].0, v[0].1->0)), s1)
        } else {
            stuck(s1)
        },
    }
}

/// One step of `p_ntd_single`.
pub proof fn lemma_unfold_ntd_single(src: Seq<char>, st: TState)
    ensures
        p_ntd_single(src, st) == {
    match p_ntd(src, st, true, false) {
        (Err(e), s1) => (Err(e), s1),
        (Ok(v), s1) => if v.len() > 0 && v[0].1 is Some {
            (Ok((v[0].0, v[0].1->0)), s1)
        } else {
            stuck(s1)
        },
    }
        },
{
}


// ---------------------------------------------------------------------------
// Statements
// ---------------------------------------------------------------------------

/// A whole program: statements up to the end of the source.
pub closed spec fn p_program(src: Seq<char>, st: TState) -> (Result<Seq<StmtV>, ErrV>, TState)
    decreases st_measure(src, st), 12int,
{
    let (r, s1) = p_peek_opt(src, st);
    match r {
        Err(e) => (Err(e), s1),
        Ok(None) => (Ok(seq![]), s1),
        Ok(Some(_)) => if le(src, s1, st) {
            match p_stmt(src, s1) {
                (Err(e), s2) => (Err(e), s2),
                (Ok(x), s2) => if lt(src, s2, st) {
                    match p_program(src, s2) {
                        (Err(e), s3) => (Err(e), s3),
                        (Ok(rest), s3) => (Ok(seq![x] + rest), s3),
                    }
                } else {
                    stuck(s2)
                },
            }
        } else {
            stuck(s1)
        },
    }
}

/// One step of `p_program`.
pub proof fn lemma_unfold_program(src: Seq<char>, st: TState)
    ensures
        p_program(src, st) == {
    let (r, s1) = p_peek_opt(src, st);
    match r {
        Err(e) => (Err(e), s1),
        Ok(None) => (Ok(seq![]), s1),
        Ok(Some(_)) => if le(src, s1, st) {
            match p_stmt(src, s1) {
                (Err(e), s2) => (Err(e), s2),
                (Ok(x), s2) => if lt(src, s2, st) {
                    match p_program(src, s2) {
                        (Err(e), s3) => (Err(e), s3),
                        (Ok(rest), s3) => (Ok(seq![x] + rest), s3),
                    }
                } else {
                    stuck(s2)
                },
            }
        } else {
            stuck(s1)
        },
    }
        },
{
}


pub closed spec fn p_stmt(src: Seq<char>, st: TState) -> (Result<StmtV, ErrV>, TState)
    decreases st_measure(src, st), 9int,
{
    let (r, s1) = p_peek(src, st);
    match r {
        Err(e) => (Err(e), s1),
        Ok(k) => if le(src, s1, st) {
            match k {
                TokenKind::Semi => match p_expect(src, s1, ex(TokenKind::Semi)) {
                    (Err(e), s2) => (Err(e), s2),
                    (Ok(_), s2) => (Ok(StmtV::Semi), s2),
                },
                TokenKind::Keyword(w) => p_keyword(src, s1, w),
                TokenKind::LBrace => match p_block(src, s1) {
                    (Err(e), s2) => (Err(e), s2),
                    (Ok(b), s2) => (Ok(StmtV::Block(b)), s2),
                },
                _ => p_expr_stmt(src, s1),
            }
        } else {
            stuck(s1)
        },
    }
}

/// One step of `p_stmt`.
pub proof fn lemma_unfold_stmt(src: Seq<char>, st: TState)
    ensures
        p_stmt(src, st) == {
    let (r, s1) = p_peek(src, st);
    match r {
        Err(e) => (Err(e), s1),
        Ok(k) => if le(src, s1, st) {
            match k {
                TokenKind::Semi => match p_expect(src, s1, ex(TokenKind::Semi)) {
                    (Err(e), s2) => (Err(e), s2),
                    (Ok(_), s2) => (Ok(StmtV::Semi), s2),
                },
                TokenKind::Keyword(w) => p_keyword(src, s1, w),
                TokenKind::LBrace => match p_block(src, s1) {
                    (Err(e), s2) => (Err(e), s2),
                    (Ok(b), s2) => (Ok(StmtV::Block(b)), s2),
                },
                _ => p_expr_stmt(src, s1),
            }
        } else {
            stuck(s1)
        },
    }
        },
{
}


pub closed spec fn p_expr_stmt(src: Seq<char>, st: TState) -> (Result<StmtV, ErrV>, TState)
    decreases st_measure(src, st), 8int,
{
    match p_expr(src, st) {
        (Err(e), s1) => (Err(e), s1),
        (Ok(x), s1) => match p_expect(src, s1, ex(TokenKind::Semi)) {
            (Err(e), s2) => (Err(e), s2),
            (Ok(_), s2) => (Ok(StmtV::Expr(x)), s2),
        },
    }
}

/// One step of `p_expr_stmt`.
pub proof fn lemma_unfold_expr_stmt(src: Seq<char>, st: TState)
    ensures
        p_expr_stmt(src, st) == {
    match p_expr(src, st) {
        (Err(e), s1) => (Err(e), s1),
        (Ok(x), s1) => match p_expect(src, s1, ex(TokenKind::Semi)) {
            (Err(e), s2) => (Err(e), s2),
            (Ok(_), s2) => (Ok(StmtV::Expr(x)), s2),
        },
    }
        },
{
}


/// A statement introduced by keyword `w`.
pub closed spec fn p_keyword(src: Seq<char>, st: TState, w: Keyword) -> (Result<StmtV, ErrV>, TState)
    decreases st_measure(src, st), 8int,
{
    match w {
        Keyword::Input => p_shader_input(src, st, false),
        Keyword::Provide => p_shader_input(src, st, true),
        Keyword::Output => p_shader_output(src, st),
        Keyword::Fn => p_method_decl(src, st),
        Keyword::Struct => p_struct(src, st),
        Keyword::Uniform => p_uniform_decl(src, st),
        Keyword::PushConstants => p_push_constants(src, st),
        Keyword::Extension => p_extension(src, st),
        Keyword::Let => p_var_decl(src, st, false),
        Keyword::Const => p_var_decl(src, st, true),
        Keyword::Return => p_return(src, st),
        Keyword::If => p_if(src, st),
        Keyword::For => p_for(src, st),
        Keyword::While => p_while(src, st),
        Keyword::Yield => p_yield(src, st),
        Keyword::Break => match p_expect(src, st, kw(Keyword::Break)) {
            (Err(e), s1) => (Err(e), s1),
            (Ok(_), s1) => (Ok(StmtV::Break), s1),
        },
        Keyword::Continue => match p_expect(src, st, kw(Keyword::Continue)) {
            (Err(e), s1) => (Err(e), s1),
            (Ok(_), s1) => (Ok(StmtV::Continue), s1),
        },
        _ => match p_next(src, st) {
            (Err(e), s1) => (Err(e), s1),
            (Ok(_), s1) => (Err(ErrV::UnconstrainedUnexpectedToken(TokenKind::Keyword(w))), st_tail(src, s1)),
        },
    }
}

/// One step of `p_keyword`.
pub proof fn lemma_unfold_keyword(src: Seq<char>, st: TState, w: Keyword)
    ensures
        p_keyword(src, st, w) == {
    match w {
        Keyword::Input => p_shader_input(src, st, false),
        Keyword::Provide => p_shader_input(src, st, true),
        Keyword::Output => p_shader_output(src, st),
        Keyword::Fn => p_method_decl(src, st),
        Keyword::Struct => p_struct(src, st),
        Keyword::Uniform => p_uniform_decl(src, st),
        Keyword::PushConstants => p_push_constants(src, st),
        Keyword::Extension => p_extension(src, st),
        Keyword::Let => p_var_decl(src, st, false),
        Keyword::Const => p_var_decl(src, st, true),
        Keyword::Return => p_return(src, st),
        Keyword::If => p_if(src, st),
        Keyword::For => p_for(src, st),
        Keyword::While => p_while(src, st),
        Keyword::Yield => p_yield(src, st),
        Keyword::Break => match p_expect(src, st, kw(Keyword::Break)) {
            (Err(e), s1) => (Err(e), s1),
            (Ok(_), s1) => (Ok(StmtV::Break), s1),
        },
        Keyword::Continue => match p_expect(src, st, kw(Keyword::Continue)) {
            (Err(e), s1) => (Err(e), s1),
            (Ok(_), s1) => (Ok(StmtV::Continue), s1),
        },
        _ => match p_next(src, st) {
            (Err(e), s1) => (Err(e), s1),
            (Ok(_), s1) => (Err(ErrV::UnconstrainedUnexpectedToken(TokenKind::Keyword(w))), st_tail(src, s1)),
        },
    }
        },
{
}


/// Takes keyword `w` and then an expression and `;`.
pub closed spec fn p_yield(src: Seq<char>, st: TState) -> (Result<StmtV, ErrV>, TState)
    decreases st_measure(src, st), 7int,
{
    match p_expect(src, st, kw(Keyword::Yield)) {
        (Err(e), s1) => (Err(e), s1),
        (Ok(_), s1) => if lt(src, s1, st) {
            match p_expr(src, s1) {
                (Err(e), s2) => (Err(e), s2),
                (Ok(x), s2) => match p_expect(src, s2, ex(TokenKind::Semi)) {
                    (Err(e), s3) => (Err(e), s3),
                    (Ok(_), s3) => (Ok(StmtV::Yield(x)), s3),
                },
            }
        } else {
            stuck(s1)
        },
    }
}

/// One step of `p_yield`.
pub proof fn lemma_unfold_yield(src: Seq<char>, st: TState)
    ensures
        p_yield(src, st) == {
    match p_expect(src, st, kw(Keyword::Yield)) {
        (Err(e), s1) => (Err(e), s1),
        (Ok(_), s1) => if lt(src, s1, st) {
            match p_expr(src, s1) {
                (Err(e), s2) => (Err(e), s2),
                (Ok(x), s2) => match p_expect(src, s2, ex(TokenKind::Semi)) {
                    (Err(e), s3) => (Err(e), s3),
                    (Ok(_), s3) => (Ok(StmtV::Yield(x)), s3),
                },
            }
        } else {
            stuck(s1)
        },
    }
        },
{
}


/// `kw (expr)`: the expression in parentheses after keyword `w`.
pub closed spec fn p_head(src: Seq<char>, st: TState, w: Keyword) -> (Result<ExprV, ErrV>, TState)
    decreases st_measure(src, st), 3int,
{
    match p_expect(src, st, kw(w)) {
        (Err(e), s1) => (Err(e), s1),
        (Ok(_), s1) => match p_expect(src, s1, ex(TokenKind::LParen)) {
            (Err(e), s2) => (Err(e), s2),
            (Ok(_), s2) => if lt(src, s2, st) {
                match p_expr(src, s2) {
                    (Err(e), s3) => (Err(e), s3),
                    (Ok(c), s3) => match p_expect(src, s3, ex(TokenKind::RParen)) {
                        (Err(e), s4) => (Err(e), s4),
                        (Ok(_), s4) => (Ok(c), s4),
                    },
                }
            } else {
                stuck(s2)
            },
        },
    }
}

/// One step of `p_head`.
pub proof fn lemma_unfold_head(src: Seq<char>, st: TState, w: Keyword)
    ensures
        p_head(src, st, w) == {
    match p_expect(src, st, kw(w)) {
        (Err(e), s1) => (Err(e), s1),
        (Ok(_), s1) => match p_expect(src, s1, ex(TokenKind::LParen)) {
            (Err(e), s2) => (Err(e), s2),
            (Ok(_), s2) => if lt(src, s2, st) {
                match p_expr(src, s2) {
                    (Err(e), s3) => (Err(e), s3),
                    (Ok(c), s3) => match p_expect(src, s3, ex(TokenKind::RParen)) {
                        (Err(e), s4) => (Err(e), s4),
                        (Ok(_), s4) => (Ok(c), s4),
                    },
                }
            } else {
                stuck(s2)
            },
        },
    }
        },
{
}


pub closed spec fn p_while(src: Seq<char>, st: TState) -> (Result<StmtV, ErrV>, TState)
    decreases st_measure(src, st), 7int,
{
    match p_head(src, st, Keyword::While) {
        (Err(e), s1) => (Err(e), s1),
        (Ok(c), s1) => if lt(src, s1, st) {
            match p_block_or_stmt(src, s1) {
                (Err(e), s2) => (Err(e), s2),
                (Ok(b), s2) => (Ok(StmtV::While(c, Box::new(b))), s2),
            }
        } else {
            stuck(s1)
        },
    }
}

/// One step of `p_while`.
pub proof fn lemma_unfold_while(src: Seq<char>, st: TState)
    ensures
        p_while(src, st) == {
    match p_head(src, st, Keyword::While) {
        (Err(e), s1) => (Err(e), s1),
        (Ok(c), s1) => if lt(src, s1, st) {
            match p_block_or_stmt(src, s1) {
                (Err(e), s2) => (Err(e), s2),
                (Ok(b), s2) => (Ok(StmtV::While(c, Box::new(b))), s2),
            }
        } else {
            stuck(s1)
        },
    }
        },
{
}


pub closed spec fn p_if(src: Seq<char>, st: TState) -> (Result<StmtV, ErrV>, TState)
    decreases st_measure(src, st), 7int,
{
    match p_head(src, st, Keyword::If) {
        (Err(e), s1) => (Err(e), s1),
        (Ok(c), s1) => if lt(src, s1, st) {
            match p_block_or_stmt(src, s1) {
                (Err(e), s2) => (Err(e), s2),
                (Ok(b), s2) => if lt(src, s2, st) {
                    match p_else(src, s2) {
                        (Err(e), s3) => (Err(e), s3),
                        (Ok(eb), s3) => (Ok(StmtV::If(c, Box::new(b), eb)), s3),
                    }
                } else {
                    stuck(s2)
                },
            }
        } else {
            stuck(s1)
        },
    }
}

/// One step of `p_if`.
pub proof fn lemma_unfold_if(src: Seq<char>, st: TState)
    ensures
        p_if(src, st) == {
    match p_head(src, st, Keyword::If) {
        (Err(e), s1) => (Err(e), s1),
        (Ok(c), s1) => if lt(src, s1, st) {
            match p_block_or_stmt(src, s1) {
                (Err(e), s2) => (Err(e), s2),
                (Ok(b), s2) => if lt(src, s2, st) {
                    match p_else(src, s2) {
                        (Err(e), s3) => (Err(e), s3),
                        (Ok(eb), s3) => (Ok(StmtV::If(c, Box::new(b), eb)), s3),
                    }
                } else {
                    stuck(s2)
                },
            }
        } else {
            stuck(s1)
        },
    }
},
{
}


/// An optional `else` branch.
pub closed spec fn p_else(src: Seq<char>, st: TState) -> (Result<Option<Box<StmtV>>, ErrV>, TState)
    decreases st_measure(src, st), 1int,
{
    match p_check(src, st, kw(Keyword::Else)) {
        (Err(e), s3) => (Err(e), s3),
        (Ok(false), s3) => (Ok(None), s3),
        (Ok(true), s3) => match p_next(src, s3) {
            (Err(e), s4) => (Err(e), s4),
            (Ok(_), s4) => if lt(src, s4, st) {
                match p_block_or_stmt(src, s4) {
                    (Err(e), s5) => (Err(e), s5),
                    (Ok(eb), s5) => (Ok(Some(Box::new(eb))), s5),
                }
            } else {
                stuck(s4)
            },
        },
    }
}

/// One step of `p_else`.
pub proof fn lemma_unfold_else(src: Seq<char>, st: TState)
    ensures
        p_else(src, st) == {
            match p_check(src, st, kw(Keyword::Else)) {
                (Err(e), s3) => (Err(e), s3),
                (Ok(false), s3) => (Ok(None), s3),
                (Ok(true), s3) => match p_next(src, s3) {
                    (Err(e), s4) => (Err(e), s4),
                    (Ok(_), s4) => if lt(src, s4, st) {
                        match p_block_or_stmt(src, s4) {
                            (Err(e), s5) => (Err(e), s5),
                            (Ok(eb), s5) => (Ok(Some(Box::new(eb))), s5),
                        }
                    } else {
                        stuck(s4)
                    },
                },
            }
        },
{
}

/// An optional expression before a token of kind `end`: absent when `end`
/// comes next.
pub closed spec fn p_opt_expr(src: Seq<char>, st: TState, end: TokenKind) -> (Result<Option<ExprV>, ErrV>, TState)
    decreases st_measure(src, st), 7int,
{
    match p_check(src, st, ex(end)) {
        (Err(e), s1) => (Err(e), s1),
        (Ok(true), s1) => (Ok(None), s1),
        (Ok(false), s1) => if le(src, s1, st) {
            match p_expr(src, s1) {
                (Err(e), s2) => (Err(e), s2),
                (Ok(x), s2) => (Ok(Some(x)), s2),
            }
        } else {
            stuck(s1)
        },
    }
}

/// One step of `p_opt_expr`.
pub proof fn lemma_unfold_opt_expr(src: Seq<char>, st: TState, end: TokenKind)
    ensures
        p_opt_expr(src, st, end) == {
    match p_check(src, st, ex(end)) {
        (Err(e), s1) => (Err(e), s1),
        (Ok(true), s1) => (Ok(None), s1),
        (Ok(false), s1) => if le(src, s1, st) {
            match p_expr(src, s1) {
                (Err(e), s2) => (Err(e), s2),
                (Ok(x), s2) => (Ok(Some(x)), s2),
            }
        } else {
            stuck(s1)
        },
    }
        },
{
}


pub closed spec fn p_for(src: Seq<char>, st: TState) -> (Result<StmtV, ErrV>, TState)
    decreases st_measure(src, st), 7int,
{
    match p_expect(src, st, kw(Keyword::For)) {
        (Err(e), s1) => (Err(e), s1),
        (Ok(_), s1) => match p_expect(src, s1, ex(TokenKind::LParen)) {
            (Err(e), s2) => (Err(e), s2),
            (Ok(_), s2) => if lt(src, s2, st) {
                match p_opt_expr(src, s2, TokenKind::Semi) {
                    (Err(e), s3) => (Err(e), s3),
                    (Ok(a), s3) => match p_expect(src, s3, ex(TokenKind::Semi)) {
                        (Err(e), s4) => (Err(e), s4),
                        (Ok(_), s4) => if lt(src, s4, st) {
                            match p_opt_expr(src, s4, TokenKind::Semi) {
                                (Err(e), s5) => (Err(e), s5),
                                (Ok(b), s5) => match p_expect(src, s5, ex(TokenKind::Semi)) {
                                    (Err(e), s6) => (Err(e), s6),
                                    (Ok(_), s6) => if lt(src, s6, st) {
                                        match p_opt_expr(src, s6, TokenKind::RParen) {
                                            (Err(e), s7) => (Err(e), s7),
                                            (Ok(c), s7) => match p_expect(src, s7, ex(TokenKind::RParen)) {
                                                (Err(e), s8) => (Err(e), s8),
                                                (Ok(_), s8) => if lt(src, s8, st) {
                                                    match p_block_or_stmt(src, s8) {
                                                        (Err(e), s9) => (Err(e), s9),
                                                        (Ok(body), s9) => (Ok(StmtV::For(a, b, c, Box::new(body))), s9),
                                                    }
                                                } else {
                                                    stuck(s8)
                                                },
                                            },
                                        }
                                    } else {
                                        stuck(s6)
                                    },
                                },
                            }
                        } else {
                            stuck(s4)
                        },
                    },
                }
            } else {
                stuck(s2)
            },
        },
    }
}

/// One step of `p_for`.
pub proof fn lemma_unfold_for(src: Seq<char>, st: TState)
    ensures
        p_for(src, st) == {
    match p_expect(src, st, kw(Keyword::For)) {
        (Err(e), s1) => (Err(e), s1),
        (Ok(_), s1) => match p_expect(src, s1, ex(TokenKind::LParen)) {
            (Err(e), s2) => (Err(e), s2),
            (Ok(_), s2) => if lt(src, s2, st) {
                match p_opt_expr(src, s2, TokenKind::Semi) {
                    (Err(e), s3) => (Err(e), s3),
                    (Ok(a), s3) => match p_expect(src, s3, ex(TokenKind::Semi)) {
                        (Err(e), s4) => (Err(e), s4),
                        (Ok(_), s4) => if lt(src, s4, st) {
                            match p_opt_expr(src, s4, TokenKind::Semi) {
                                (Err(e), s5) => (Err(e), s5),
                                (Ok(b), s5) => match p_expect(src, s5, ex(TokenKind::Semi)) {
                                    (Err(e), s6) => (Err(e), s6),
                                    (Ok(_), s6) => if lt(src, s6, st) {
                                        match p_opt_expr(src, s6, TokenKind::RParen) {
                                            (Err(e), s7) => (Err(e), s7),
                                            (Ok(c), s7) => match p_expect(src, s7, ex(TokenKind::RParen)) {
                                                (Err(e), s8) => (Err(e), s8),
                                                (Ok(_), s8) => if lt(src, s8, st) {
                                                    match p_block_or_stmt(src, s8) {
                                                        (Err(e), s9) => (Err(e), s9),
                                                        (Ok(body), s9) => (Ok(StmtV::For(a, b, c, Box::new(body))), s9),
                                                    }
                                                } else {
                                                    stuck(s8)
                                                },
                                            },
                                        }
                                    } else {
                                        stuck(s6)
                                    },
                                },
                            }
                        } else {
                            stuck(s4)
                        },
                    },
                }
            } else {
                stuck(s2)
            },
        },
    }
        },
{
}


pub closed spec fn p_block_or_stmt(src: Seq<char>, st: TState) -> (Result<StmtV, ErrV>, TState)
    decreases st_measure(src, st), 10int,
{
    match p_check(src, st, ex(TokenKind::LBrace)) {
        (Err(e), s1) => (Err(e), s1),
        (Ok(b), s1) => if le(src, s1, st) {
            if b {
                match p_block(src, s1) {
                    (Err(e), s2) => (Err(e), s2),
                    (Ok(stmts), s2) => (Ok(StmtV::Block(stmts)), s2),
                }
            } else {
                p_stmt(src, s1)
            }
        } else {
            stuck(s1)
        },
    }
}

/// One step of `p_block_or_stmt`.
pub proof fn lemma_unfold_block_or_stmt(src: Seq<char>, st: TState)
    ensures
        p_block_or_stmt(src, st) == {
    match p_check(src, st, ex(TokenKind::LBrace)) {
        (Err(e), s1) => (Err(e), s1),
        (Ok(b), s1) => if le(src, s1, st) {
            if b {
                match p_block(src, s1) {
                    (Err(e), s2) => (Err(e), s2),
                    (Ok(stmts), s2) => (Ok(StmtV::Block(stmts)), s2),
                }
            } else {
                p_stmt(src, s1)
            }
        } else {
            stuck(s1)
        },
    }
        },
{
}


pub closed spec fn p_return(src: Seq<char>, st: TState) -> (Result<StmtV, ErrV>, TState)
    decreases st_measure(src, st), 7int,
{
    match p_expect(src, st, kw(Keyword::Return)) {
        (Err(e), s1) => (Err(e), s1),
        (Ok(_), s1) => if lt(src, s1, st) {
            match p_opt_expr(src, s1, TokenKind::Semi) {
                (Err(e), s2) => (Err(e), s2),
                (Ok(x), s2) => match p_expect(src, s2, ex(TokenKind::Semi)) {
                    (Err(e), s3) => (Err(e), s3),
                    (Ok(_), s3) => (Ok(StmtV::Return(x)), s3),
                },
            }
        } else {
            stuck(s1)
        },
    }
}

/// One step of `p_return`.
pub proof fn lemma_unfold_return(src: Seq<char>, st: TState)
    ensures
        p_return(src, st) == {
    match p_expect(src, st, kw(Keyword::Return)) {
        (Err(e), s1) => (Err(e), s1),
        (Ok(_), s1) => if lt(src, s1, st) {
            match p_opt_expr(src, s1, TokenKind::Semi) {
                (Err(e), s2) => (Err(e), s2),
                (Ok(x), s2) => match p_expect(src, s2, ex(TokenKind::Semi)) {
                    (Err(e), s3) => (Err(e), s3),
                    (Ok(_), s3) => (Ok(StmtV::Return(x)), s3),
                },
            }
        } else {
            stuck(s1)
        },
    }
        },
{
}


/// The declarations of a `let` or `const` statement: one per name.
pub open spec fn var_decls(ntd: Seq<(Seq<char>, Option<TypeV>)>, init: Option<ExprV>, cnst: bool) -> Seq<StmtV> {
    ntd.map_values(|d: (Seq<char>, Option<TypeV>)| StmtV::VarDecl(d.0, d.1, init, cnst))
}

pub closed spec fn p_var_decl(src: Seq<char>, st: TState, cnst: bool) -> (Result<StmtV, ErrV>, TState)
    decreases st_measure(src, st), 7int,
{
    match p_expect(src, st, kw(if cnst { Keyword::Const } else { Keyword::Let })) {
        (Err(e), s1) => (Err(e), s1),
        (Ok(_), s1) => if !lt(src, s1, st) {
            stuck(s1)
        } else {
            match p_ntd(src, s1, false, true) {
            (Err(e), s2) => (Err(e), s2),
            (Ok(ntd), s2) => match p_peek(src, s2) {
                (Err(e), s3) => (Err(e), s3),
                (Ok(k), s3) => {
                    let (i, s4) = if k == TokenKind::Operator(Operator::Assign) {
                        match p_next(src, s3) {
                            (Err(e), t) => (Err(e), t),
                            (Ok(_), t) => if lt(src, t, st) {
                                match p_expr(src, t) {
                                    (Err(e), u) => (Err(e), u),
                                    (Ok(x), u) => (Ok(Some(x)), u),
                                }
                            } else {
                                stuck(t)
                            },
                        }
                    } else {
                        (Ok(None), s3)
                    };
                    match i {
                        Err(e) => (Err(e), s4),
                        Ok(init) => match p_expect(src, s4, ex(TokenKind::Semi)) {
                            (Err(e), s5) => (Err(e), s5),
                            (Ok(_), s5) => (Ok(StmtV::Compound(var_decls(ntd, init, cnst))), s5),
                        },
                    }
                },
            },
            }
        },
    }
}

/// One step of `p_var_decl`.
pub proof fn lemma_unfold_var_decl(src: Seq<char>, st: TState, cnst: bool)
    ensures
        p_var_decl(src, st, cnst) == {
    match p_expect(src, st, kw(if cnst { Keyword::Const } else { Keyword::Let })) {
        (Err(e), s1) => (Err(e), s1),
        (Ok(_), s1) => if !lt(src, s1, st) {
            stuck(s1)
        } else {
            match p_ntd(src, s1, false, true) {
            (Err(e), s2) => (Err(e), s2),
            (Ok(ntd), s2) => match p_peek(src, s2) {
                (Err(e), s3) => (Err(e), s3),
                (Ok(k), s3) => {
                    let (i, s4) = if k == TokenKind::Operator(Operator::Assign) {
                        match p_next(src, s3) {
                            (Err(e), t) => (Err(e), t),
                            (Ok(_), t) => if lt(src, t, st) {
                                match p_expr(src, t) {
                                    (Err(e), u) => (Err(e), u),
                                    (Ok(x), u) => (Ok(Some(x)), u),
                                }
                            } else {
                                stuck(t)
                            },
                        }
                    } else {
                        (Ok(None), s3)
                    };
                    match i {
                        Err(e) => (Err(e), s4),
                        Ok(init) => match p_expect(src, s4, ex(TokenKind::Semi)) {
                            (Err(e), s5) => (Err(e), s5),
                            (Ok(_), s5) => (Ok(StmtV::Compound(var_decls(ntd, init, cnst))), s5),
                        },
                    }
                },
            },
            }
        },
    }
        },
{
}


/// The rules for the modifiers of an extension: one of the behaviours.
pub open spec fn extension_rules() -> Seq<(Seq<char>, RuleV)> {
    seq![("extension"@, RuleV::Either(seq![Modifier::Enable, Modifier::Require, Modifier::Warn, Modifier::Disable]))]
}

pub closed spec fn p_extension(src: Seq<char>, st: TState) -> (Result<StmtV, ErrV>, TState)
    decreases st_measure(src, st), 7int,
{
    match p_expect(src, st, kw(Keyword::Extension)) {
        (Err(e), s1) => (Err(e), s1),
        (Ok(_), s1) => match p_ident(src, s1) {
            (Err(e), s2) => (Err(e), s2),
            (Ok(name), s2) => match p_mods(src, s2, seq![]) {
                (Err(e), s3) => (Err(e), s3),
                (Ok(present), s3) => match p_validate(present, extension_rules()) {
                    Err(e) => (Err(e), s3),
                    Ok(m) => match p_expect(src, s3, ex(TokenKind::Semi)) {
                        (Err(e), s4) => (Err(e), s4),
                        (Ok(_), s4) => (Ok(StmtV::Extension(m, name)), s4),
                    },
                },
            },
        },
    }
}

/// One step of `p_extension`.
pub proof fn lemma_unfold_extension(src: Seq<char>, st: TState)
    ensures
        p_extension(src, st) == {
    match p_expect(src, st, kw(Keyword::Extension)) {
        (Err(e), s1) => (Err(e), s1),
        (Ok(_), s1) => match p_ident(src, s1) {
            (Err(e), s2) => (Err(e), s2),
            (Ok(name), s2) => match p_mods(src, s2, seq![]) {
                (Err(e), s3) => (Err(e), s3),
                (Ok(present), s3) => match p_validate(present, extension_rules()) {
                    Err(e) => (Err(e), s3),
                    Ok(m) => match p_expect(src, s3, ex(TokenKind::Semi)) {
                        (Err(e), s4) => (Err(e), s4),
                        (Ok(_), s4) => (Ok(StmtV::Extension(m, name)), s4),
                    },
                },
            },
        },
    }
        },
{
}


pub closed spec fn p_push_constants(src: Seq<char>, st: TState) -> (Result<StmtV, ErrV>, TState)
    decreases st_measure(src, st), 7int,
{
    match p_expect(src, st, kw(Keyword::PushConstants)) {
        (Err(e), s1) => (Err(e), s1),
        (Ok(_), s1) => if lt(src, s1, st) {
            match p_ntd_single(src, s1) {
                (Err(e), s2) => (Err(e), s2),
                (Ok(d), s2) => match p_expect(src, s2, ex(TokenKind::Semi)) {
                    (Err(e), s3) => (Err(e), s3),
                    (Ok(_), s3) => (Ok(StmtV::PushConstants(d.0, d.1)), s3),
                },
            }
        } else {
            stuck(s1)
        },
    }
}

/// One step of `p_push_constants`.
pub proof fn lemma_unfold_push_constants(src: Seq<char>, st: TState)
    ensures
        p_push_constants(src, st) == {
    match p_expect(src, st, kw(Keyword::PushConstants)) {
        (Err(e), s1) => (Err(e), s1),
        (Ok(_), s1) => if lt(src, s1, st) {
            match p_ntd_single(src, s1) {
                (Err(e), s2) => (Err(e), s2),
                (Ok(d), s2) => match p_expect(src, s2, ex(TokenKind::Semi)) {
                    (Err(e), s3) => (Err(e), s3),
                    (Ok(_), s3) => (Ok(StmtV::PushConstants(d.0, d.1)), s3),
                },
            }
        } else {
            stuck(s1)
        },
    }
        },
{
}


/// The rules for the modifiers of a storage buffer.
pub open spec fn ssbo_rules() -> Seq<(Seq<char>, RuleV)> {
    seq![
        ("packing_type"@, RuleV::EitherOr(seq![Modifier::STD140, Modifier::STD430])),
        ("access"@, RuleV::EitherOr(seq![Modifier::Readonly, Modifier::Writeonly])),
    ]
}

/// The rules for the modifiers of a uniform buffer.
pub open spec fn ubo_rules() -> Seq<(Seq<char>, RuleV)> {
    seq![("packing_type"@, RuleV::EitherOr(seq![Modifier::STD140, Modifier::STD430]))]
}

/// The kind of resource a uniform declaration makes, and its modifier rules.
pub open spec fn uniform_kind(ssbo: bool, ty: TypeV) -> (UniformType, Seq<(Seq<char>, RuleV)>) {
    if ssbo {
        (UniformType::SSBO, ssbo_rules())
    } else if ty is StructDef {
        (UniformType::UBO, ubo_rules())
    } else {
        (UniformType::Uniform, seq![])
    }
}

/// `set = N binding = M`.
pub open spec fn p_location(src: Seq<char>, st: TState) -> (Result<(u32, u32), ErrV>, TState) {
    match p_ident_exact(src, st, "set"@) {
        (Err(e), s1) => (Err(e), s1),
        (Ok(_), s1) => match p_expect(src, s1, ex(TokenKind::Operator(Operator::Assign))) {
            (Err(e), s2) => (Err(e), s2),
            (Ok(_), s2) => match p_nonneg(src, s2) {
                (Err(e), s3) => (Err(e), s3),
                (Ok(set), s3) => match p_ident_exact(src, s3, "binding"@) {
                    (Err(e), s4) => (Err(e), s4),
                    (Ok(_), s4) => match p_expect(src, s4, ex(TokenKind::Operator(Operator::Assign))) {
                        (Err(e), s5) => (Err(e), s5),
                        (Ok(_), s5) => match p_nonneg(src, s5) {
                            (Err(e), s6) => (Err(e), s6),
                            (Ok(binding), s6) => (Ok((set, binding)), s6),
                        },
                    },
                },
            },
        },
    }
}

pub closed spec fn p_uniform_decl(src: Seq<char>, st: TState) -> (Result<StmtV, ErrV>, TState)
    decreases st_measure(src, st), 7int,
{
    match p_expect(src, st, kw(Keyword::Uniform)) {
        (Err(e), s1) => (Err(e), s1),
        (Ok(_), s1) => match p_location(src, s1) {
            (Err(e), s2) => (Err(e), s2),
            (Ok(loc), s2) => match p_mods(src, s2, seq![]) {
                (Err(e), s3) => (Err(e), s3),
                (Ok(present), s3) => match p_check(src, s3, kw(Keyword::Buffer)) {
                    (Err(e), s4) => (Err(e), s4),
                    (Ok(ssbo), s4) => {
                        let (b, s5) = if ssbo {
                            match p_next(src, s4) {
                                (Err(e), t) => (Err(e), t),
                                (Ok(_), t) => (Ok(()), t),
                            }
                        } else {
                            (Ok(()), s4)
                        };
                        match b {
                            Err(e) => (Err(e), s5),
                            Ok(_) => if lt(src, s5, st) {
                                match p_ntd_single(src, s5) {
                                    (Err(e), s6) => (Err(e), s6),
                                    (Ok(d), s6) => match p_expect(src, s6, ex(TokenKind::Semi)) {
                                        (Err(e), s7) => (Err(e), s7),
                                        (Ok(_), s7) => {
                                            let (ut, rules) = uniform_kind(ssbo, d.1);
                                            match p_validate(present, rules) {
                                                Err(e) => (Err(e), s7),
                                                Ok(m) => (Ok(StmtV::Uniform(d.0, d.1, loc.0, loc.1, m, ut)), s7),
                                            }
                                        },
                                    },
                                }
                            } else {
                                stuck(s5)
                            },
                        }
                    },
                },
            },
        },
    }
}

/// One step of `p_uniform_decl`.
pub proof fn lemma_unfold_uniform_decl(src: Seq<char>, st: TState)
    ensures
        p_uniform_decl(src, st) == {
    match p_expect(src, st, kw(Keyword::Uniform)) {
        (Err(e), s1) => (Err(e), s1),
        (Ok(_), s1) => match p_location(src, s1) {
            (Err(e), s2) => (Err(e), s2),
            (Ok(loc), s2) => match p_mods(src, s2, seq![]) {
                (Err(e), s3) => (Err(e), s3),
                (Ok(present), s3) => match p_check(src, s3, kw(Keyword::Buffer)) {
                    (Err(e), s4) => (Err(e), s4),
                    (Ok(ssbo), s4) => {
                        let (b, s5) = if ssbo {
                            match p_next(src, s4) {
                                (Err(e), t) => (Err(e), t),
                                (Ok(_), t) => (Ok(()), t),
                            }
                        } else {
                            (Ok(()), s4)
                        };
                        match b {
                            Err(e) => (Err(e), s5),
                            Ok(_) => if lt(src, s5, st) {
                                match p_ntd_single(src, s5) {
                                    (Err(e), s6) => (Err(e), s6),
                                    (Ok(d), s6) => match p_expect(src, s6, ex(TokenKind::Semi)) {
                                        (Err(e), s7) => (Err(e), s7),
                                        (Ok(_), s7) => {
                                            let (ut, rules) = uniform_kind(ssbo, d.1);
                                            match p_validate(present, rules) {
                                                Err(e) => (Err(e), s7),
                                                Ok(m) => (Ok(StmtV::Uniform(d.0, d.1, loc.0, loc.1, m, ut)), s7),
                                            }
                                        },
                                    },
                                }
                            } else {
                                stuck(s5)
                            },
                        }
                    },
                },
            },
        },
    }
        },
{
}


/// Parameters of a method up to `)` (not taken); `next` is the token
/// looked at last.
pub closed spec fn p_params(src: Seq<char>, st: TState, next: TokenKind) -> (Result<Seq<(Seq<char>, TypeV, bool)>, ErrV>, TState)
    decreases st_measure(src, st), 4int,
{
    if next == TokenKind::RParen {
        (Ok(seq![]), st)
    } else {
        match p_ntd(src, st, true, false) {
            (Err(e), s1) => (Err(e), s1),
            (Ok(v), s1) => if v.len() > 0 && v[0].1 is Some {
                match p_peek(src, s1) {
                    (Err(e), s2) => (Err(e), s2),
                    (Ok(k), s2) => {
                        let (c, s3) = if k == TokenKind::Comma {
                            match p_next(src, s2) {
                                (Err(e), t) => (Err(e), t),
                                (Ok(_), t) => (Ok(true), t),
                            }
                        } else {
                            (Ok(false), s2)
                        };
                        match c {
                            Err(e) => (Err(e), s3),
                            Ok(comma) => if lt(src, s3, st) {
                                match p_params(src, s3, k) {
                                    (Err(e), s4) => (Err(e), s4),
                                    (Ok(rest), s4) => (Ok(seq![(v[0].0, v[0].1->0, comma)] + rest), s4),
                                }
                            } else {
                                stuck(s3)
                            },
                        }
                    },
                }
            } else {
                stuck(s1)
            },
        }
    }
}

/// One step of `p_params`.
pub proof fn lemma_unfold_params(src: Seq<char>, st: TState, next: TokenKind)
    ensures
        p_params(src, st, next) == {
    if next == TokenKind::RParen {
        (Ok(seq![]), st)
    } else {
        match p_ntd(src, st, true, false) {
            (Err(e), s1) => (Err(e), s1),
            (Ok(v), s1) => if v.len() > 0 && v[0].1 is Some {
                match p_peek(src, s1) {
                    (Err(e), s2) => (Err(e), s2),
                    (Ok(k), s2) => {
                        let (c, s3) = if k == TokenKind::Comma {
                            match p_next(src, s2) {
                                (Err(e), t) => (Err(e), t),
                                (Ok(_), t) => (Ok(true), t),
                            }
                        } else {
                            (Ok(false), s2)
                        };
                        match c {
                            Err(e) => (Err(e), s3),
                            Ok(comma) => if lt(src, s3, st) {
                                match p_params(src, s3, k) {
                                    (Err(e), s4) => (Err(e), s4),
                                    (Ok(rest), s4) => (Ok(seq![(v[0].0, v[0].1->0, comma)] + rest), s4),
                                }
                            } else {
                                stuck(s3)
                            },
                        }
                    },
                }
            } else {
                stuck(s1)
            },
        }
    }
        },
{
}


pub closed spec fn p_method_decl(src: Seq<char>, st: TState) -> (Result<StmtV, ErrV>, TState)
    decreases st_measure(src, st), 7int,
{
    match p_expect(src, st, kw(Keyword::Fn)) {
        (Err(e), s1) => (Err(e), s1),
        (Ok(_), s1) => match p_ident(src, s1) {
            (Err(e), s2) => (Err(e), s2),
            (Ok(name), s2) => match p_expect(src, s2, ex(TokenKind::LParen)) {
                (Err(e), s3) => (Err(e), s3),
                (Ok(_), s3) => match p_peek(src, s3) {
                    (Err(e), s4) => (Err(e), s4),
                    (Ok(k), s4) => if lt(src, s4, st) {
                        match p_params(src, s4, k) {
                            (Err(e), s5) => (Err(e), s5),
                            (Ok(params), s5) => match p_expect(src, s5, ex(TokenKind::RParen)) {
                                (Err(e), s6) => (Err(e), s6),
                                (Ok(_), s6) => match p_peek(src, s6) {
                                    (Err(e), s7) => (Err(e), s7),
                                    (Ok(a), s7) => {
                                        let (rt, s8) = if a == TokenKind::Operator(Operator::Merge) {
                                            match p_next(src, s7) {
                                                (Err(e), t) => (Err(e), t),
                                                (Ok(_), t) => if lt(src, t, st) {
                                                    match p_type(src, t) {
                                                        (Err(e), u) => (Err(e), u),
                                                        (Ok(ty), u) => (Ok(Some(ty)), u),
                                                    }
                                                } else {
                                                    stuck(t)
                                                },
                                            }
                                        } else {
                                            (Ok(None), s7)
                                        };
                                        match rt {
                                            Err(e) => (Err(e), s8),
                                            Ok(ret) => if lt(src, s8, st) {
                                                match p_block(src, s8) {
                                                    (Err(e), s9) => (Err(e), s9),
                                                    (Ok(b), s9) => (
                                                        Ok(StmtV::MethodDecl(name, params, ret, Box::new(StmtV::Block(b)))),
                                                        s9,
                                                    ),
                                                }
                                            } else {
                                                stuck(s8)
                                            },
                                        }
                                    },
                                },
                            },
                        }
                    } else {
                        stuck(s4)
                    },
                },
            },
        },
    }
}

/// One step of `p_method_decl`.
pub proof fn lemma_unfold_method_decl(src: Seq<char>, st: TState)
    ensures
        p_method_decl(src, st) == {
    match p_expect(src, st, kw(Keyword::Fn)) {
        (Err(e), s1) => (Err(e), s1),
        (Ok(_), s1) => match p_ident(src, s1) {
            (Err(e), s2) => (Err(e), s2),
            (Ok(name), s2) => match p_expect(src, s2, ex(TokenKind::LParen)) {
                (Err(e), s3) => (Err(e), s3),
                (Ok(_), s3) => match p_peek(src, s3) {
                    (Err(e), s4) => (Err(e), s4),
                    (Ok(k), s4) => if lt(src, s4, st) {
                        match p_params(src, s4, k) {
                            (Err(e), s5) => (Err(e), s5),
                            (Ok(params), s5) => match p_expect(src, s5, ex(TokenKind::RParen)) {
                                (Err(e), s6) => (Err(e), s6),
                                (Ok(_), s6) => match p_peek(src, s6) {
                                    (Err(e), s7) => (Err(e), s7),
                                    (Ok(a), s7) => {
                                        let (rt, s8) = if a == TokenKind::Operator(Operator::Merge) {
                                            match p_next(src, s7) {
                                                (Err(e), t) => (Err(e), t),
                                                (Ok(_), t) => if lt(src, t, st) {
                                                    match p_type(src, t) {
                                                        (Err(e), u) => (Err(e), u),
                                                        (Ok(ty), u) => (Ok(Some(ty)), u),
                                                    }
                                                } else {
                                                    stuck(t)
                                                },
                                            }
                                        } else {
                                            (Ok(None), s7)
                                        };
                                        match rt {
                                            Err(e) => (Err(e), s8),
                                            Ok(ret) => if lt(src, s8, st) {
                                                match p_block(src, s8) {
                                                    (Err(e), s9) => (Err(e), s9),
                                                    (Ok(b), s9) => (
                                                        Ok(StmtV::MethodDecl(name, params, ret, Box::new(StmtV::Block(b)))),
                                                        s9,
                                                    ),
                                                }
                                            } else {
                                                stuck(s8)
                                            },
                                        }
                                    },
                                },
                            },
                        }
                    } else {
                        stuck(s4)
                    },
                },
            },
        },
    }
        },
{
}


/// `{ statements }`.
pub closed spec fn p_block(src: Seq<char>, st: TState) -> (Result<Seq<StmtV>, ErrV>, TState)
    decreases st_measure(src, st), 7int,
{
    match p_expect(src, st, ex(TokenKind::LBrace)) {
        (Err(e), s1) => (Err(e), s1),
        (Ok(_), s1) => if lt(src, s1, st) {
            p_block_rest(src, s1)
        } else {
            stuck(s1)
        },
    }
}

/// One step of `p_block`.
pub proof fn lemma_unfold_block(src: Seq<char>, st: TState)
    ensures
        p_block(src, st) == {
    match p_expect(src, st, ex(TokenKind::LBrace)) {
        (Err(e), s1) => (Err(e), s1),
        (Ok(_), s1) => if lt(src, s1, st) {
            p_block_rest(src, s1)
        } else {
            stuck(s1)
        },
    }
        },
{
}


/// Statements up to `}`, which is taken.
pub closed spec fn p_block_rest(src: Seq<char>, st: TState) -> (Result<Seq<StmtV>, ErrV>, TState)
    decreases st_measure(src, st), 11int,
{
    match p_peek(src, st) {
        (Err(e), s1) => (Err(e), s1),
        (Ok(TokenKind::RBrace), s1) => match p_expect(src, s1, ex(TokenKind::RBrace)) {
            (Err(e), s2) => (Err(e), s2),
            (Ok(_), s2) => (Ok(seq![]), s2),
        },
        (Ok(_), s1) => if le(src, s1, st) {
            match p_stmt(src, s1) {
                (Err(e), s2) => (Err(e), s2),
                (Ok(x), s2) => if lt(src, s2, st) {
                    match p_block_rest(src, s2) {
                        (Err(e), s3) => (Err(e), s3),
                        (Ok(rest), s3) => (Ok(seq![x] + rest), s3),
                    }
                } else {
                    stuck(s2)
                },
            }
        } else {
            stuck(s1)
        },
    }
}

/// One step of `p_block_rest`.
pub proof fn lemma_unfold_block_rest(src: Seq<char>, st: TState)
    ensures
        p_block_rest(src, st) == {
    match p_peek(src, st) {
        (Err(e), s1) => (Err(e), s1),
        (Ok(TokenKind::RBrace), s1) => match p_expect(src, s1, ex(TokenKind::RBrace)) {
            (Err(e), s2) => (Err(e), s2),
            (Ok(_), s2) => (Ok(seq![]), s2),
        },
        (Ok(_), s1) => if le(src, s1, st) {
            match p_stmt(src, s1) {
                (Err(e), s2) => (Err(e), s2),
                (Ok(x), s2) => if lt(src, s2, st) {
                    match p_block_rest(src, s2) {
                        (Err(e), s3) => (Err(e), s3),
                        (Ok(rest), s3) => (Ok(seq![x] + rest), s3),
                    }
                } else {
                    stuck(s2)
                },
            }
        } else {
            stuck(s1)
        },
    }
        },
{
}


pub closed spec fn p_shader_output(src: Seq<char>, st: TState) -> (Result<StmtV, ErrV>, TState)
    decreases st_measure(src, st), 7int,
{
    match p_expect(src, st, kw(Keyword::Output)) {
        (Err(e), s1) => (Err(e), s1),
        (Ok(_), s1) => if lt(src, s1, st) {
            match p_type(src, s1) {
                (Err(e), s2) => (Err(e), s2),
                (Ok(ty), s2) => match p_ident(src, s2) {
                    (Err(e), s3) => (Err(e), s3),
                    (Ok(name), s3) => match p_expect(src, s3, ex(TokenKind::Semi)) {
                        (Err(e), s4) => (Err(e), s4),
                        (Ok(_), s4) => (Ok(StmtV::Output(ty, name)), s4),
                    },
                },
            }
        } else {
            stuck(s1)
        },
    }
}

/// One step of `p_shader_output`.
pub proof fn lemma_unfold_shader_output(src: Seq<char>, st: TState)
    ensures
        p_shader_output(src, st) == {
    match p_expect(src, st, kw(Keyword::Output)) {
        (Err(e), s1) => (Err(e), s1),
        (Ok(_), s1) => if lt(src, s1, st) {
            match p_type(src, s1) {
                (Err(e), s2) => (Err(e), s2),
                (Ok(ty), s2) => match p_ident(src, s2) {
                    (Err(e), s3) => (Err(e), s3),
                    (Ok(name), s3) => match p_expect(src, s3, ex(TokenKind::Semi)) {
                        (Err(e), s4) => (Err(e), s4),
                        (Ok(_), s4) => (Ok(StmtV::Output(ty, name)), s4),
                    },
                },
            }
        } else {
            stuck(s1)
        },
    }
        },
{
}


/// The rules for the modifiers of an input: at most one interpolation.
pub open spec fn input_rules() -> Seq<(Seq<char>, RuleV)> {
    seq![
        (
            "interpolation"@,
            RuleV::EitherOr(seq![Modifier::Flat, Modifier::Smooth, Modifier::Noperspective]),
        ),
    ]
}

/// An input, which begins with the keyword `input`, or with `provide` a
/// fragment input, which begins with the keyword `provide`.
pub closed spec fn p_shader_input(src: Seq<char>, st: TState, provide: bool) -> (Result<StmtV, ErrV>, TState)
    decreases st_measure(src, st), 7int,
{
    match p_expect(src, st, kw(if provide { Keyword::Provide } else { Keyword::Input })) {
        (Err(e), s1) => (Err(e), s1),
        (Ok(_), s1) => match p_mods(src, s1, seq![]) {
            (Err(e), s2) => (Err(e), s2),
            (Ok(present), s2) => if lt(src, s2, st) {
                match p_ntd_single(src, s2) {
                    (Err(e), s3) => (Err(e), s3),
                    (Ok(d), s3) => match p_validate(present, input_rules()) {
                        Err(e) => (Err(e), s3),
                        Ok(m) => match p_expect(src, s3, ex(TokenKind::Semi)) {
                            (Err(e), s4) => (Err(e), s4),
                            (Ok(_), s4) => (
                                Ok(if provide {
                                    StmtV::Provide(d.1, d.0, m)
                                } else {
                                    StmtV::Input(d.1, d.0, m)
                                }),
                                s4,
                            ),
                        },
                    },
                }
            } else {
                stuck(s2)
            },
        },
    }
}

/// One step of `p_shader_input`.
pub proof fn lemma_unfold_shader_input(src: Seq<char>, st: TState, provide: bool)
    ensures
        p_shader_input(src, st, provide) == {
    match p_expect(src, st, kw(if provide { Keyword::Provide } else { Keyword::Input })) {
        (Err(e), s1) => (Err(e), s1),
        (Ok(_), s1) => match p_mods(src, s1, seq![]) {
            (Err(e), s2) => (Err(e), s2),
            (Ok(present), s2) => if lt(src, s2, st) {
                match p_ntd_single(src, s2) {
                    (Err(e), s3) => (Err(e), s3),
                    (Ok(d), s3) => match p_validate(present, input_rules()) {
                        Err(e) => (Err(e), s3),
                        Ok(m) => match p_expect(src, s3, ex(TokenKind::Semi)) {
                            (Err(e), s4) => (Err(e), s4),
                            (Ok(_), s4) => (
                                Ok(if provide {
                                    StmtV::Provide(d.1, d.0, m)
                                } else {
                                    StmtV::Input(d.1, d.0, m)
                                }),
                                s4,
                            ),
                        },
                    },
                }
            } else {
                stuck(s2)
            },
        },
    }
        },
{
}


/// A structure needs at least one member: its closing brace where the first
/// field or method was expected.
pub open spec fn empty_struct_err() -> ErrV {
    ErrV::UnexpectedToken(TokenKind::RBrace, seq![ExpV::Ident, ExpV::Exact(TokenKind::Keyword(Keyword::Fn))])
}

/// `struct name { members }`, with at least one member.
pub closed spec fn p_struct(src: Seq<char>, st: TState) -> (Result<StmtV, ErrV>, TState)
    decreases st_measure(src, st), 7int,
{
    match p_expect(src, st, kw(Keyword::Struct)) {
        (Err(e), s1) => (Err(e), s1),
        (Ok(_), s1) => match p_ident(src, s1) {
            (Err(e), s2) => (Err(e), s2),
            (Ok(name), s2) => match p_expect(src, s2, ex(TokenKind::LBrace)) {
                (Err(e), s3) => (Err(e), s3),
                (Ok(_), s3) => if lt(src, s3, st) {
                    match p_struct_body(src, s3) {
                        (Err(e), s4) => (Err(e), s4),
                        (Ok(body), s4) => if body.0.len() == 0 && body.1.len() == 0 {
                            (Err(empty_struct_err()), st_tail(src, s4))
                        } else {
                            (Ok(StmtV::Struct(name, body.0, body.1)), s4)
                        },
                    }
                } else {
                    stuck(s3)
                },
            },
        },
    }
}

/// One step of `p_struct`.
pub proof fn lemma_unfold_struct(src: Seq<char>, st: TState)
    ensures
        p_struct(src, st) == {
    match p_expect(src, st, kw(Keyword::Struct)) {
        (Err(e), s1) => (Err(e), s1),
        (Ok(_), s1) => match p_ident(src, s1) {
            (Err(e), s2) => (Err(e), s2),
            (Ok(name), s2) => match p_expect(src, s2, ex(TokenKind::LBrace)) {
                (Err(e), s3) => (Err(e), s3),
                (Ok(_), s3) => if lt(src, s3, st) {
                    match p_struct_body(src, s3) {
                        (Err(e), s4) => (Err(e), s4),
                        (Ok(body), s4) => if body.0.len() == 0 && body.1.len() == 0 {
                            (Err(empty_struct_err()), st_tail(src, s4))
                        } else {
                            (Ok(StmtV::Struct(name, body.0, body.1)), s4)
                        },
                    }
                } else {
                    stuck(s3)
                },
            },
        },
    }
        },
{
}


/// The fields with a type among declarations `a, b: T`.
pub open spec fn typed_fields(v: Seq<(Seq<char>, Option<TypeV>)>) -> Seq<(Seq<char>, TypeV)>
    decreases v.len(),
{
    if v.len() == 0 {
        seq![]
    } else {
        let init = typed_fields(v.drop_last());
        match v.last().1 {
            Some(t) => init.push((v.last().0, t)),
            None => init,
        }
    }
}

/// Fields and methods of a structure up to `}`, which is taken.
pub closed spec fn p_struct_body(src: Seq<char>, st: TState) -> (Result<(Seq<(Seq<char>, TypeV)>, Seq<StmtV>), ErrV>, TState)
    decreases st_measure(src, st), 8int,
{
    match p_peek(src, st) {
        (Err(e), s1) => (Err(e), s1),
        (Ok(TokenKind::RBrace), s1) => match p_expect(src, s1, ex(TokenKind::RBrace)) {
            (Err(e), s2) => (Err(e), s2),
            (Ok(_), s2) => (Ok((seq![], seq![])), s2),
        },
        (Ok(_), s1) => match p_peek(src, s1) {
            (Err(e), s2) => (Err(e), s2),
            (Ok(TokenKind::Keyword(Keyword::Fn)), s2) => if le(src, s2, st) {
                match p_method_decl(src, s2) {
                    (Err(e), s3) => (Err(e), s3),
                    (Ok(m), s3) => if lt(src, s3, st) {
                        match p_struct_body(src, s3) {
                            (Err(e), s4) => (Err(e), s4),
                            (Ok(rest), s4) => (Ok((rest.0, seq![m] + rest.1)), s4),
                        }
                    } else {
                        stuck(s3)
                    },
                }
            } else {
                stuck(s2)
            },
            (Ok(_), s2) => if le(src, s2, st) {
                match p_ntd(src, s2, true, true) {
                    (Err(e), s3) => (Err(e), s3),
                    (Ok(v), s3) => match p_expect(src, s3, ex(TokenKind::Semi)) {
                        (Err(e), s4) => (Err(e), s4),
                        (Ok(_), s4) => if lt(src, s4, st) {
                            match p_struct_body(src, s4) {
                                (Err(e), s5) => (Err(e), s5),
                                (Ok(rest), s5) => (Ok((typed_fields(v) + rest.0, rest.1)), s5),
                            }
                        } else {
                            stuck(s4)
                        },
                    },
                }
            } else {
                stuck(s2)
            },
        },
    }
}

/// One step of `p_struct_body`.
pub proof fn lemma_unfold_struct_body(src: Seq<char>, st: TState)
    ensures
        p_struct_body(src, st) == {
    match p_peek(src, st) {
        (Err(e), s1) => (Err(e), s1),
        (Ok(TokenKind::RBrace), s1) => match p_expect(src, s1, ex(TokenKind::RBrace)) {
            (Err(e), s2) => (Err(e), s2),
            (Ok(_), s2) => (Ok((seq![], seq![])), s2),
        },
        (Ok(_), s1) => match p_peek(src, s1) {
            (Err(e), s2) => (Err(e), s2),
            (Ok(TokenKind::Keyword(Keyword::Fn)), s2) => if le(src, s2, st) {
                match p_method_decl(src, s2) {
                    (Err(e), s3) => (Err(e), s3),
                    (Ok(m), s3) => if lt(src, s3, st) {
                        match p_struct_body(src, s3) {
                            (Err(e), s4) => (Err(e), s4),
                            (Ok(rest), s4) => (Ok((rest.0, seq![m] + rest.1)), s4),
                        }
                    } else {
                        stuck(s3)
                    },
                }
            } else {
                stuck(s2)
            },
            (Ok(_), s2) => if le(src, s2, st) {
                match p_ntd(src, s2, true, true) {
                    (Err(e), s3) => (Err(e), s3),
                    (Ok(v), s3) => match p_expect(src, s3, ex(TokenKind::Semi)) {
                        (Err(e), s4) => (Err(e), s4),
                        (Ok(_), s4) => if lt(src, s4, st) {
                            match p_struct_body(src, s4) {
                                (Err(e), s5) => (Err(e), s5),
                                (Ok(rest), s5) => (Ok((typed_fields(v) + rest.0, rest.1)), s5),
                            }
                        } else {
                            stuck(s4)
                        },
                    },
                }
            } else {
                stuck(s2)
            },
        },
    }
        },
{
}


// ---------------------------------------------------------------------------
// Agreement of computed results with the grammar's
// ---------------------------------------------------------------------------

/// An expression or error agrees with the grammar's result.
pub open spec fn expr_res(r: Result<Expr, ParseErr>, sr: Result<ExprV, ErrV>) -> bool {
    match r {
        Ok(x) => sr == Ok::<ExprV, ErrV>(expr_v(x)),
        Err(e) => sr == Err::<ExprV, ErrV>(e.ty@),
    }
}

pub open spec fn type_res(r: Result<Type, ParseErr>, sr: Result<TypeV, ErrV>) -> bool {
    match r {
        Ok(x) => sr == Ok::<TypeV, ErrV>(type_v(x)),
        Err(e) => sr == Err::<TypeV, ErrV>(e.ty@),
    }
}

pub open spec fn stmt_res(r: Result<Stmt, ParseErr>, sr: Result<StmtV, ErrV>) -> bool {
    match r {
        Ok(x) => sr == Ok::<StmtV, ErrV>(stmt_v(x)),
        Err(e) => sr == Err::<StmtV, ErrV>(e.ty@),
    }
}

pub open spec fn stmts_res(r: Result<Vec<Stmt>, ParseErr>, sr: Result<Seq<StmtV>, ErrV>) -> bool {
    match r {
        Ok(x) => sr == Ok::<Seq<StmtV>, ErrV>(stmts_v(x@)),
        Err(e) => sr == Err::<Seq<StmtV>, ErrV>(e.ty@),
    }
}

pub open spec fn expr_list_res(
    r: Result<Vec<(Expr, Option<TokCtx>)>, ParseErr>,
    sr: Result<Seq<(ExprV, bool)>, ErrV>,
) -> bool {
    match r {
        Ok(x) => sr == Ok::<Seq<(ExprV, bool)>, ErrV>(expr_list_v(x@)),
        Err(e) => sr == Err::<Seq<(ExprV, bool)>, ErrV>(e.ty@),
    }
}

pub open spec fn field_list_res(
    r: Result<Vec<(FieldInit, Option<TokCtx>)>, ParseErr>,
    sr: Result<Seq<(Seq<char>, ExprV, bool)>, ErrV>,
) -> bool {
    match r {
        Ok(x) => sr == Ok::<Seq<(Seq<char>, ExprV, bool)>, ErrV>(field_list_v(x@)),
        Err(e) => sr == Err::<Seq<(Seq<char>, ExprV, bool)>, ErrV>(e.ty@),
    }
}

pub open spec fn type_list_res(
    r: Result<Vec<(Type, Option<TokCtx>)>, ParseErr>,
    sr: Result<Seq<(TypeV, bool)>, ErrV>,
) -> bool {
    match r {
        Ok(x) => sr == Ok::<Seq<(TypeV, bool)>, ErrV>(type_list_v(x@)),
        Err(e) => sr == Err::<Seq<(TypeV, bool)>, ErrV>(e.ty@),
    }
}

} // verus!
