//! Types, and names with optional types.
use vstd::prelude::*;
use crate::text::{push_lit, extend_chars, string_from_chars, string_chars};
use crate::token::{Keyword, Operator, Token, TokCtx, TokenType, TokenKind};
use crate::token::stream::{st_next, st_peek, st_tail};
use crate::parser::{Parser, lemma_stream_steps};
use crate::parser::ast::{Type, Ident, PathType, SingleType, StructType, TupleType, ArrayType, PrimitiveType, Stmt};
use crate::parser::err::{ParseErr, ParseErrType, TokenExpectation, ErrV, ExpV, exps_view};
use crate::parser::syntax::{TypeV, type_v, opt_type_v, type_list_v, idents_v, expr_v};
use crate::parser::grammar::{
    lemma_unfold_type, lemma_unfold_path_rest, lemma_unfold_handle_type, lemma_unfold_type_list, lemma_unfold_ntd_loop, lemma_unfold_ntd, lemma_unfold_ntd_single,
    p_type, p_handle_type, p_path_rest, p_type_list, p_ntd_loop, p_ntd, p_ntd_single, type_res, type_list_res,
};

verus! {

/// A name with its type, if one was written, and the colon before the type.
pub struct NTD {
    pub name: Ident,
    pub ty: Option<Type>,
    pub colon_tk: Option<TokCtx>,
}

/// The values of names with optional types.
pub open spec fn ntds_v(s: Seq<NTD>) -> Seq<(Seq<char>, Option<TypeV>)> {
    s.map_values(|d: NTD| (d.name.val@, opt_type_v(d.ty)))
}

/// Each name has a type exactly when it has a colon.
pub open spec fn ntds_consistent(s: Seq<NTD>) -> bool {
    forall|i: int| 0 <= i < s.len() ==> (#[trigger] s[i].ty is Some) == (s[i].colon_tk is Some)
}

/// Names with optional types agree with the grammar's result.
pub open spec fn ntds_res(r: Result<Vec<NTD>, ParseErr>, sr: Result<Seq<(Seq<char>, Option<TypeV>)>, ErrV>) -> bool {
    match r {
        Ok(v) => sr == Ok::<Seq<(Seq<char>, Option<TypeV>)>, ErrV>(ntds_v(v@)),
        Err(e) => sr == Err::<Seq<(Seq<char>, Option<TypeV>)>, ErrV>(e.ty@),
    }
}

impl Parser {
    /// A type, then any array brackets after it.
    #[verifier::spinoff_prover]
    #[verifier::rlimit(40)]
    pub fn parse_type(&mut self) -> (r: Result<Type, ParseErr>)
        requires
            old(self).wf(),
        ensures
            final(self).wf(),
            final(self).src() == old(self).src(),
            type_res(r, p_type(old(self).src(), old(self).st()).0),
            r is Ok ==> final(self).st() == p_type(old(self).src(), old(self).st()).1 && final(self).measure()
                < old(self).measure(),
        decreases old(self).measure(), 8int,
    {
        proof {
            lemma_unfold_type(self.src(), self.st());
        }
        let tok = self.unwrap_peek()?;
        let base = match tok.ty {
            TokenType::Ident(start) => {
                let q = self.peek_token()?;
                let dotted = match &q {
                    Some(t) => match t.ty {
                        TokenType::Operator(Operator::Dot) => true,
                        _ => false,
                    },
                    None => false,
                };
                if dotted {
                    self.unwrap_next()?;
                    let first = Ident { val: start, tkn: tok.ctx };
                    let mut dot_tkns: Vec<TokCtx> = Vec::new();
                    let mut rest = self.parse_path_rest(&mut dot_tkns)?;
                    let ghost rv = rest@;
                    rest.insert(0, first);
                    let ghost all = rest@;
                    proof {
                        assert(idents_v(all) =~= seq![all[0].val@] + idents_v(rv));
                    }
                    let name = rest.pop().unwrap();
                    proof {
                        assert(idents_v(rest@) =~= idents_v(all).drop_last());
                        assert(name.val@ == idents_v(all).last());
                    }
                    Type::PathType(PathType { path_parts: rest, dot_tkns, name })
                } else {
                    let t = self.unwrap_next()?;
                    let chars = string_chars(&start);
                    match PrimitiveType::from_chars(&chars) {
                        Some(prim) => Type::Primitive(prim, t.ctx),
                        None => Type::SingleType(SingleType { name: start, tkn: t.ctx }),
                    }
                }
            },
            TokenType::Keyword(Keyword::Struct) => {
                let strct = self.parse_struct_stmt()?;
                Type::StructDef(StructType { inner: Box::new(strct) })
            },
            TokenType::LParen => {
                let paren1_tok = self.unwrap_next()?;
                let types = self.parse_type_list()?;
                let paren2_tok = self.expect_exact(TokenType::RParen)?;
                Type::TupleOf(TupleType { paren1_tok: paren1_tok.ctx, types, paren2_tok: paren2_tok.ctx })
            },
            other => {
                proof {
                    self.lemma_wf();
                    lemma_stream_steps(self.src(), self.st());
                }
                let tail = self.tokens.tail_default();
                let exps = vec![TokenExpectation::Ident, TokenExpectation::Exact(TokenType::Keyword(Keyword::Struct))];
                assert(exps_view(exps@) =~= seq![ExpV::Ident, ExpV::Exact(TokenKind::Keyword(Keyword::Struct))]);
                let hint = string_from_chars(&crate::text::lit_chars("consider using different tokens to build a valid type! Read the specification for details. Maybe use the type `uint`?"));
                return Err(ParseErr {
                    ty: ParseErrType::UnexpectedToken(Token { ty: other, ctx: tok.ctx.dup() }, exps),
                    ctx: tok.ctx,
                    tail,
                    hint: Some(hint),
                });
            },
        };
        self.handle_type(base)
    }

    /// The names after the first of a dotted path; the dots' positions go to `dots`.
    #[verifier::spinoff_prover]
    #[verifier::rlimit(40)]
    fn parse_path_rest(&mut self, dots: &mut Vec<TokCtx>) -> (r: Result<Vec<Ident>, ParseErr>)
        requires
            old(self).wf(),
        ensures
            final(self).wf(),
            final(self).src() == old(self).src(),
            match r {
                Ok(v) => p_path_rest(old(self).src(), old(self).st()).0 == Ok::<Seq<Seq<char>>, ErrV>(idents_v(v@))
                    && final(self).st() == p_path_rest(old(self).src(), old(self).st()).1 && final(self).measure()
                    <= old(self).measure(),
                Err(e) => p_path_rest(old(self).src(), old(self).st()).0 == Err::<Seq<Seq<char>>, ErrV>(e.ty@),
            },
        decreases old(self).measure(), 1int,
    {
        proof {
            lemma_unfold_path_rest(self.src(), self.st());
        }
        if let Some(t) = self.peek_token()? {
            if let TokenType::Operator(Operator::Dot) = t.ty {
                self.unwrap_next()?;
                let ident = self.expect_ident()?;
                dots.push(t.ctx);
                let mut rest = self.parse_path_rest(dots)?;
                let ghost rv = rest@;
                rest.insert(0, ident);
                proof {
                    assert(idents_v(rest@) =~= seq![rest@[0].val@] + idents_v(rv));
                }
                return Ok(rest);
            }
        }
        let v: Vec<Ident> = Vec::new();
        assert(idents_v(v@) =~= Seq::<Seq<char>>::empty());
        Ok(v)
    }

    /// Array brackets after type `ty`, each with an optional length.
    #[verifier::spinoff_prover]
    #[verifier::rlimit(40)]
    fn handle_type(&mut self, ty: Type) -> (r: Result<Type, ParseErr>)
        requires
            old(self).wf(),
        ensures
            final(self).wf(),
            final(self).src() == old(self).src(),
            type_res(r, p_handle_type(old(self).src(), old(self).st(), type_v(ty)).0),
            r is Ok ==> final(self).st() == p_handle_type(old(self).src(), old(self).st(), type_v(ty)).1
                && final(self).measure() <= old(self).measure(),
        decreases old(self).measure(), 1int,
    {
        proof {
            lemma_unfold_handle_type(self.src(), self.st(), type_v(ty));
        }
        if let Some(tok) = self.peek_token()? {
            if tok.ty.same_as(&TokenType::LBracket) {
                self.unwrap_next()?;
                let dim = if let Some(maybe_num) = self.peek_token()? {
                    match maybe_num.ty {
                        TokenType::RBracket => None,
                        _ => Some(Box::new(self.parse_expr()?)),
                    }
                } else {
                    None
                };
                let brack2_tkn = self.expect_exact(TokenType::RBracket)?;
                return self.handle_type(Type::ArrayOf(ArrayType {
                    component: Box::new(ty),
                    brack1_tkn: tok.ctx,
                    dimension: dim,
                    brack2_tkn: brack2_tkn.ctx,
                }));
            }
        }
        Ok(ty)
    }

    /// Types separated by commas up to `)`, which is left in place.
    #[verifier::spinoff_prover]
    #[verifier::rlimit(40)]
    fn parse_type_list(&mut self) -> (r: Result<Vec<(Type, Option<TokCtx>)>, ParseErr>)
        requires
            old(self).wf(),
        ensures
            final(self).wf(),
            final(self).src() == old(self).src(),
            type_list_res(r, p_type_list(old(self).src(), old(self).st()).0),
            r is Ok ==> final(self).st() == p_type_list(old(self).src(), old(self).st()).1
                && final(self).measure() <= old(self).measure(),
        decreases old(self).measure(), 9int,
    {
        proof {
            lemma_unfold_type_list(self.src(), self.st());
        }
        if let Some(t) = self.peek_token()? {
            if t.ty.same_as(&TokenType::RParen) {
                return Ok(Vec::new());
            }
        }
        let x = self.parse_type()?;
        let sep = self.parse_sep(&TokenType::RParen, false)?;
        let mut rest = self.parse_type_list()?;
        let ghost rv = rest@;
        rest.insert(0, (x, sep));
        proof {
            assert(rest@.drop_first() =~= rv);
        }
        Ok(rest)
    }

    /// Names with an optional shared type, `a, b: T`, after `names`.
    #[verifier::spinoff_prover]
    #[verifier::rlimit(40)]
    fn parse_ntd_loop(&mut self, names: Vec<Ident>, needs_type: bool, allow_multiple: bool) -> (r: Result<Vec<NTD>, ParseErr>)
        requires
            old(self).wf(),
        ensures
            final(self).wf(),
            final(self).src() == old(self).src(),
            ntds_res(r, p_ntd_loop(old(self).src(), old(self).st(), idents_v(names@), needs_type, allow_multiple).0),
            r matches Ok(v) ==> ntds_consistent(v@),
            r is Ok ==> final(self).st() == p_ntd_loop(old(self).src(), old(self).st(), idents_v(names@), needs_type, allow_multiple).1
                && final(self).measure() < old(self).measure(),
        decreases old(self).measure(), 1int,
    {
        proof {
            lemma_unfold_ntd_loop(self.src(), self.st(), idents_v(names@), needs_type, allow_multiple);
        }
        let mut names = names;
        let ghost n0 = idents_v(names@);
        let n = self.expect_ident()?;
        names.push(n);
        assert(idents_v(names@) =~= n0.push(names@.last().val@));
        let t = self.unwrap_peek()?;
        match t.ty {
            TokenType::Comma => {
                self.unwrap_next()?;
                self.parse_ntd_loop(names, needs_type, allow_multiple)
            },
            TokenType::Colon => {
                self.unwrap_next()?;
                let ty = self.parse_type()?;
                if !allow_multiple && names.len() > 1 {
                    let mut hint: Vec<char> = Vec::new();
                    push_lit(&mut hint, "multiple names per type not allowed here! Consider splitting into separate definitions");
                    return Err(self.token_err_with_hint(ParseErrType::NoMultipleNamesPerType, t.ctx, string_from_chars(&hint)));
                }
                Ok(ntds_typed(&names, &ty, &t.ctx))
            },
            _ => {
                if needs_type {
                    let mut hint: Vec<char> = Vec::new();
                    push_lit(&mut hint, "type annotation required here! Consider adding a type: `");
                    let mut i: usize = 0;
                    while i < names.len()
                        decreases names@.len() - i,
                    {
                        if i > 0 {
                            push_lit(&mut hint, ", ");
                        }
                        let c = string_chars(&names[i].val);
                        extend_chars(&mut hint, &c);
                        i += 1;
                    }
                    push_lit(&mut hint, ": <type>`");
                    return Err(self.token_err_with_hint(ParseErrType::MissingType, t.ctx, string_from_chars(&hint)));
                }
                Ok(ntds_untyped(&names))
            },
        }
    }

    /// Names with an optional shared type, `a, b: T`. With `needs_type`,
    /// the type is required; without `allow_multiple`, only one name may
    /// come before a type.
    #[verifier::spinoff_prover]
    #[verifier::rlimit(40)]
    pub fn parse_name_type_def(&mut self, needs_type: bool, allow_multiple: bool) -> (r: Result<Vec<NTD>, ParseErr>)
        requires
            old(self).wf(),
        ensures
            final(self).wf(),
            final(self).src() == old(self).src(),
            ntds_res(r, p_ntd(old(self).src(), old(self).st(), needs_type, allow_multiple).0),
            r matches Ok(v) ==> ntds_consistent(v@),
            r is Ok ==> final(self).st() == p_ntd(old(self).src(), old(self).st(), needs_type, allow_multiple).1
                && final(self).measure() < old(self).measure(),
        decreases old(self).measure(), 2int,
    {
        proof {
            lemma_unfold_ntd(self.src(), self.st(), needs_type, allow_multiple);
        }
        let names: Vec<Ident> = Vec::new();
        assert(idents_v(names@) =~= Seq::<Seq<char>>::empty());
        self.parse_ntd_loop(names, needs_type, allow_multiple)
    }

    /// One name with its required type.
    #[verifier::spinoff_prover]
    #[verifier::rlimit(40)]
    pub fn parse_name_type_def_single(&mut self) -> (r: Result<NTD, ParseErr>)
        requires
            old(self).wf(),
        ensures
            final(self).wf(),
            final(self).src() == old(self).src(),
            match r {
                Ok(d) => d.ty is Some && d.colon_tk is Some && p_ntd_single(old(self).src(), old(self).st()).0 == Ok::<(Seq<char>, TypeV), ErrV>(
                    (d.name.val@, type_v(d.ty->0)),
                ) && final(self).st() == p_ntd_single(old(self).src(), old(self).st()).1 && final(self).measure()
                    < old(self).measure(),
                Err(e) => p_ntd_single(old(self).src(), old(self).st()).0 == Err::<(Seq<char>, TypeV), ErrV>(e.ty@),
            },
        decreases old(self).measure(), 3int,
    {
        proof {
            lemma_unfold_ntd_single(self.src(), self.st());
        }
        let mut v = self.parse_name_type_def(true, false)?;
        let ghost vv = ntds_v(v@);
        if v.len() > 0 && v[0].ty.is_some() {
            assert(v@[0].colon_tk is Some);
            let d = v.remove(0);
            assert(vv[0] == (d.name.val@, opt_type_v(d.ty)));
            Ok(d)
        } else {
            proof {
                assert(v@.len() > 0 ==> vv[0].1 == opt_type_v(v@[0].ty));
            }
            Err(ParseErr { ty: ParseErrType::InternalErr, ctx: self.tokens.create_context(), tail: String::new(), hint: None })
        }
    }
}

/// Each of `names` with a copy of type `ty`.
fn ntds_typed(names: &Vec<Ident>, ty: &Type, colon: &TokCtx) -> (r: Vec<NTD>)
    ensures
        ntds_v(r@) == idents_v(names@).map_values(|x: Seq<char>| (x, Some(type_v(*ty)))),
        ntds_consistent(r@),
{
    let ghost all = idents_v(names@);
    let ghost tv = type_v(*ty);
    let mut out: Vec<NTD> = Vec::new();
    let mut i: usize = 0;
    while i < names.len()
        invariant
            i <= names@.len(),
            all == idents_v(names@),
            type_v(*ty) == tv,
            ntds_v(out@) == all.subrange(0, i as int).map_values(|x: Seq<char>| (x, Some(tv))),
            ntds_consistent(out@),
        decreases names@.len() - i,
    {
        let name = names[i].dup();
        let ty2 = ty.dup();
        let d = NTD { name, ty: Some(ty2), colon_tk: Some(colon.dup()) };
        let ghost before = out@;
        out.push(d);
        proof {
            assert(out@ =~= before.push(d));
            assert(ntds_v(out@) =~= ntds_v(before).push((d.name.val@, opt_type_v(d.ty))));
            assert(all.subrange(0, i + 1) =~= all.subrange(0, i as int).push(all[i as int]));
            assert(all[i as int] == names@[i as int].val@);
        }
        i += 1;
        assert(ntds_v(out@) =~= all.subrange(0, i as int).map_values(|x: Seq<char>| (x, Some(tv))));
    }
    assert(all.subrange(0, names@.len() as int) =~= all);
    out
}

/// Each of `names` without a type.
fn ntds_untyped(names: &Vec<Ident>) -> (r: Vec<NTD>)
    ensures
        ntds_v(r@) == idents_v(names@).map_values(|x: Seq<char>| (x, None::<TypeV>)),
        ntds_consistent(r@),
{
    let ghost all = idents_v(names@);
    let mut out: Vec<NTD> = Vec::new();
    let mut i: usize = 0;
    while i < names.len()
        invariant
            i <= names@.len(),
            all == idents_v(names@),
            ntds_v(out@) == all.subrange(0, i as int).map_values(|x: Seq<char>| (x, None::<TypeV>)),
            ntds_consistent(out@),
        decreases names@.len() - i,
    {
        let name = names[i].dup();
        let d = NTD { name, ty: None, colon_tk: None };
        let ghost before = out@;
        out.push(d);
        proof {
            assert(out@ =~= before.push(d));
            assert(ntds_v(out@) =~= ntds_v(before).push((d.name.val@, opt_type_v(d.ty))));
            assert(all.subrange(0, i + 1) =~= all.subrange(0, i as int).push(all[i as int]));
            assert(all[i as int] == names@[i as int].val@);
        }
        i += 1;
        assert(ntds_v(out@) =~= all.subrange(0, i as int).map_values(|x: Seq<char>| (x, None::<TypeV>)));
    }
    assert(all.subrange(0, names@.len() as int) =~= all);
    out
}

impl Ident {
    /// A copy of this name.
    pub fn dup(&self) -> (r: Self)
        ensures
            r.val@ == self.val@,
    {
        Ident { val: self.val.clone(), tkn: self.tkn.dup() }
    }
}

} // verus!
