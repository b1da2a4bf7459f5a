//! Errors of the parser and of scope resolution, with their messages.
use vstd::prelude::*;
use crate::token::{Operator, Token, TokCtx, TokenType, TokenKind};
use crate::token::lexicon::TokenErr;
use crate::parser::mods::Modifier;
use crate::parser::ast::PrimitiveType;

verus! {

/// A failure with the position it refers to, the raw source text after it,
/// and possibly a hint on how to fix it.
#[derive(Clone, Debug)]
pub struct ParseErr {
    pub ty: ParseErrType,
    pub ctx: TokCtx,
    pub tail: String,
    pub hint: Option<String>,
}

/// What went wrong.
#[derive(Clone, Debug)]
pub enum ParseErrType {
    TokenizerErr(TokenErr),
    UnexpectedToken(Token, Vec<TokenExpectation>),
    NonBinaryCompatibleOperator(Operator),
    InternalErr,
    IllegalArrayDim,
    MissingType,
    NoMultipleNamesPerType,
    MismatchedLiteral(String, String),
    NonPositiveNumber,
    IllegalModifier(Modifier),
    MissingModifier,
    InvalidExpression,
    UnconstrainedUnexpectedToken(TokenType),
    NonUnaryCompatibleOperator(Operator),
    AssignOpNotAllowedAtExpressionHead,
    IllegalTupleAccessLiteral(PrimitiveType),
    IllegalTrailingSeparator,
    UnknownType(String),
    UnknownIdent(String),
    DuplicateStruct(String),
    DuplicateFn(String),
    ConstantNotAConstant,
}

/// A kind of token that was acceptable at some point.
#[derive(Clone, Debug)]
pub enum TokenExpectation {
    Exact(TokenType),
    Ident,
    Lit,
}

/// The mathematical value of a token expectation.
pub enum ExpV {
    Exact(TokenKind),
    Ident,
    Lit,
}

impl View for TokenExpectation {
    type V = ExpV;

    open spec fn view(&self) -> ExpV {
        match self {
            TokenExpectation::Exact(t) => ExpV::Exact(t@),
            TokenExpectation::Ident => ExpV::Ident,
            TokenExpectation::Lit => ExpV::Lit,
        }
    }
}

/// The values of a list of expectations.
pub open spec fn exps_view(v: Seq<TokenExpectation>) -> Seq<ExpV> {
    v.map_values(|e: TokenExpectation| e@)
}

/// The mathematical value of an error kind: tokens by their kinds, strings by
/// their characters.
pub enum ErrV {
    TokenizerErr(TokenErr),
    UnexpectedToken(TokenKind, Seq<ExpV>),
    NonBinaryCompatibleOperator(Operator),
    InternalErr,
    IllegalArrayDim,
    MissingType,
    NoMultipleNamesPerType,
    MismatchedLiteral(Seq<char>, Seq<char>),
    NonPositiveNumber,
    IllegalModifier(Modifier),
    MissingModifier,
    InvalidExpression,
    UnconstrainedUnexpectedToken(TokenKind),
    NonUnaryCompatibleOperator(Operator),
    AssignOpNotAllowedAtExpressionHead,
    IllegalTupleAccessLiteral(PrimitiveType),
    IllegalTrailingSeparator,
    UnknownType(Seq<char>),
    UnknownIdent(Seq<char>),
    DuplicateStruct,
    DuplicateFn,
    ConstantNotAConstant,
}

impl View for ParseErrType {
    type V = ErrV;

    open spec fn view(&self) -> ErrV {
        match self {
            ParseErrType::TokenizerErr(e) => ErrV::TokenizerErr(*e),
            ParseErrType::UnexpectedToken(t, x) => ErrV::UnexpectedToken(t.ty@, exps_view(x@)),
            ParseErrType::NonBinaryCompatibleOperator(o) => ErrV::NonBinaryCompatibleOperator(*o),
            ParseErrType::InternalErr => ErrV::InternalErr,
            ParseErrType::IllegalArrayDim => ErrV::IllegalArrayDim,
            ParseErrType::MissingType => ErrV::MissingType,
            ParseErrType::NoMultipleNamesPerType => ErrV::NoMultipleNamesPerType,
            ParseErrType::MismatchedLiteral(a, b) => ErrV::MismatchedLiteral(a@, b@),
            ParseErrType::NonPositiveNumber => ErrV::NonPositiveNumber,
            ParseErrType::IllegalModifier(m) => ErrV::IllegalModifier(*m),
            ParseErrType::MissingModifier => ErrV::MissingModifier,
            ParseErrType::InvalidExpression => ErrV::InvalidExpression,
            ParseErrType::UnconstrainedUnexpectedToken(t) => ErrV::UnconstrainedUnexpectedToken(t@),
            ParseErrType::NonUnaryCompatibleOperator(o) => ErrV::NonUnaryCompatibleOperator(*o),
            ParseErrType::AssignOpNotAllowedAtExpressionHead => ErrV::AssignOpNotAllowedAtExpressionHead,
            ParseErrType::IllegalTupleAccessLiteral(p) => ErrV::IllegalTupleAccessLiteral(*p),
            ParseErrType::IllegalTrailingSeparator => ErrV::IllegalTrailingSeparator,
            ParseErrType::UnknownType(s) => ErrV::UnknownType(s@),
            ParseErrType::UnknownIdent(s) => ErrV::UnknownIdent(s@),
            ParseErrType::DuplicateStruct(_) => ErrV::DuplicateStruct,
            ParseErrType::DuplicateFn(_) => ErrV::DuplicateFn,
            ParseErrType::ConstantNotAConstant => ErrV::ConstantNotAConstant,
        }
    }
}

/// `amt` spaces.
pub fn create_pad(amt: usize) -> (r: String)
    ensures
        r@ == Seq::new(amt as nat, |i: int| ' '),
{
    let mut v: Vec<char> = Vec::new();
    let mut i: usize = 0;
    while i < amt
        invariant
            i <= amt,
            v@ == Seq::new(i as nat, |k: int| ' '),
        decreases amt - i,
    {
        v.push(' ');
        i += 1;
        assert(v@ =~= Seq::new(i as nat, |k: int| ' '));
    }
    crate::text::string_from_chars(&v)
}

} // verus!
