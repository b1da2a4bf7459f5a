//! Statements and declarations.
use vstd::prelude::*;
use crate::text::{push_lit, string_from_chars};
use crate::token::{Keyword, Operator, Token, TokCtx, TokenType, TokenKind};
use crate::token::stream::{st_next, st_peek, st_tail};
use crate::parser::{Parser, lemma_stream_steps};
use crate::parser::ast::{
    Stmt, Expr, Type, Ident, SemiStmt, ExprStmt, BreakStmt, ContinueStmt, YieldStmt, WhileStmt, IfStmt, ForStmt,
    BlockStmt, ReturnStmt, VarDeclStmt, CompoundStmt, ExtensionStmt, PushConstantsStmt, UniformStmt, UniformType,
    MethodDeclStmt, MethodParamDecl, OutputStmt, InputStmt, ProvideStmt, StructStmt, StructField,
};
use crate::parser::err::{ParseErr, ParseErrType, ErrV, ExpV, TokenExpectation, exps_view};
use crate::parser::mods::{Mods, ResMods, ModsUsage, ModRule, Modifier, check_mods, validate_spec, fault_kind, fault_hint, RuleV};
use crate::parser::types::{NTD, ntds_v, ntds_consistent};
use crate::parser::syntax::{
    StmtV, ExprV, TypeV, stmt_v, stmts_v, expr_v, type_v, opt_expr_v, opt_type_v, params_v, fields_v, methods_v,
    method_v, struct_v, opt_stmt_v,
};
use crate::parser::grammar::{
    p_else, lemma_unfold_else,
    lemma_unfold_mods, lemma_unfold_program, lemma_unfold_stmt, lemma_unfold_expr_stmt, lemma_unfold_keyword, lemma_unfold_yield, lemma_unfold_head, lemma_unfold_while, lemma_unfold_if, lemma_unfold_opt_expr, lemma_unfold_for, lemma_unfold_block_or_stmt, lemma_unfold_return, lemma_unfold_var_decl, lemma_unfold_extension, lemma_unfold_push_constants, lemma_unfold_uniform_decl, lemma_unfold_params, lemma_unfold_method_decl, lemma_unfold_block, lemma_unfold_block_rest, lemma_unfold_shader_output, lemma_unfold_shader_input, lemma_unfold_struct, lemma_unfold_struct_body,
    p_program, p_stmt, p_expr_stmt, p_keyword, p_yield, p_head, p_while, p_if, p_opt_expr, p_for, p_block_or_stmt,
    p_return, p_var_decl, var_decls, p_extension, extension_rules, p_push_constants, p_location, p_uniform_decl,
    uniform_kind, ssbo_rules, ubo_rules, p_params, p_method_decl, p_block, p_block_rest, p_shader_output,
    input_rules, p_shader_input, p_struct, p_struct_body, typed_fields, p_mods, p_validate, stmt_res, stmts_res,
};

verus! {

/// Viewing statements: prepending one.
proof fn lemma_stmts_prepend(x: Stmt, s: Seq<Stmt>)
    ensures
        stmts_v(seq![x] + s) == seq![stmt_v(x)] + stmts_v(s),
{
    assert((seq![x] + s).drop_first() =~= s);
}

/// Viewing fields: concatenation.
proof fn lemma_fields_add(a: Seq<StructField>, b: Seq<StructField>)
    ensures
        fields_v(a + b) == fields_v(a) + fields_v(b),
    decreases a.len(),
{
    if a.len() == 0 {
        assert(a + b =~= b);
    } else {
        lemma_fields_add(a.drop_first(), b);
        assert((a + b).drop_first() =~= a.drop_first() + b);
    }
}

/// Viewing fields: appending one.
proof fn lemma_fields_push(a: Seq<StructField>, x: StructField)
    ensures
        fields_v(a.push(x)) == fields_v(a).push((x.name.val@, type_v(x.ty))),
{
    reveal_with_fuel(fields_v, 2);
    lemma_fields_add(a, seq![x]);
    assert(a.push(x) =~= a + seq![x]);
    assert(seq![x].drop_first() =~= Seq::<StructField>::empty());
    assert(fields_v(seq![x]) =~= seq![(x.name.val@, type_v(x.ty))]);
}

impl Parser {
    /// The modifier keywords that follow, each recorded once.
    #[verifier::spinoff_prover]
    #[verifier::rlimit(40)]
    pub fn parse_mods(&mut self) -> (r: Result<Mods, ParseErr>)
        requires
            old(self).wf(),
        ensures
            final(self).wf(),
            final(self).src() == old(self).src(),
            match r {
                Ok(m) => m.wf() && p_mods(old(self).src(), old(self).st(), seq![]).0 == Ok::<Seq<Modifier>, ErrV>(
                    m.present(),
                ) && final(self).st() == p_mods(old(self).src(), old(self).st(), seq![]).1 && final(self).measure()
                    <= old(self).measure(),
                Err(e) => p_mods(old(self).src(), old(self).st(), seq![]).0 == Err::<Seq<Modifier>, ErrV>(e.ty@),
            },
    {
        self.parse_mods_from(Mods::new())
    }

    #[verifier::spinoff_prover]
    #[verifier::rlimit(40)]
    fn parse_mods_from(&mut self, mods: Mods) -> (r: Result<Mods, ParseErr>)
        requires
            old(self).wf(),
            mods.wf(),
        ensures
            final(self).wf(),
            final(self).src() == old(self).src(),
            match r {
                Ok(m) => m.wf() && p_mods(old(self).src(), old(self).st(), mods.present()).0 == Ok::<
                    Seq<Modifier>,
                    ErrV,
                >(m.present()) && final(self).st() == p_mods(old(self).src(), old(self).st(), mods.present()).1
                    && final(self).measure() <= old(self).measure(),
                Err(e) => p_mods(old(self).src(), old(self).st(), mods.present()).0 == Err::<Seq<Modifier>, ErrV>(e.ty@),
            },
        decreases old(self).measure(),
    {
        proof {
            lemma_unfold_mods(self.src(), self.st(), mods.present());
        }
        let mut mods = mods;
        if let Some(token) = self.peek_token()? {
            if let TokenType::Keyword(kw) = token.ty {
                if let Some(m) = Modifier::from_keyword(kw) {
                    self.unwrap_next()?;
                    mods.insert(m, token.ctx);
                    return self.parse_mods_from(mods);
                }
            }
        }
        Ok(mods)
    }

    /// Checks the modifiers of a declaration against the rules of its usage.
    pub fn validate_mods(&mut self, mods: Mods, usage: ModsUsage) -> (r: Result<ResMods, ParseErr>)
        requires
            old(self).wf(),
            mods.wf(),
        ensures
            final(self).wf(),
            final(self).src() == old(self).src(),
            final(self).st() == old(self).st(),
            match r {
                Ok(res) => res.wf() && p_validate(mods.present(), usage.rules()) == Ok::<Map<Seq<char>, Modifier>, ErrV>(
                    res.found_map(),
                ),
                Err(e) => p_validate(mods.present(), usage.rules()) == Err::<Map<Seq<char>, Modifier>, ErrV>(e.ty@)
                    && e.hint is Some && (validate_spec(mods.present(), usage.rules()) matches Err(x) ==> (e.hint matches Some(
                    h,
                ) && h@ == fault_hint(x))),
            },
    {
        match check_mods(mods, usage) {
            Ok(res) => Ok(res),
            Err(f) => {
                let ctx = match f.ctx {
                    Some(c) => c,
                    None => self.tokens.create_context(),
                };
                Err(ParseErr { ty: f.ty, ctx, tail: String::new(), hint: Some(f.hint) })
            },
        }
    }

    /// A whole program: statements up to the end of the source.
    pub fn parse(self) -> (r: Result<Vec<Stmt>, ParseErr>)
        requires
            self.wf(),
        ensures
            stmts_res(r, p_program(self.src(), self.st()).0),
    {
        let mut p = self;
        let v = p.parse_program()?;
        p.defs = v;
        Ok(p.defs)
    }

    #[verifier::spinoff_prover]
    #[verifier::rlimit(40)]
    fn parse_program(&mut self) -> (r: Result<Vec<Stmt>, ParseErr>)
        requires
            old(self).wf(),
        ensures
            final(self).wf(),
            final(self).src() == old(self).src(),
            stmts_res(r, p_program(old(self).src(), old(self).st()).0),
            r is Ok ==> final(self).st() == p_program(old(self).src(), old(self).st()).1 && final(self).measure()
                <= old(self).measure(),
        decreases old(self).measure(), 12int,
    {
        proof {
            lemma_unfold_program(self.src(), self.st());
        }
        if self.peek_token()?.is_none() {
            return Ok(Vec::new());
        }
        let s = self.parse_stmt()?;
        let mut rest = self.parse_program()?;
        let ghost rv = rest@;
        rest.insert(0, s);
        proof {
            assert(rest@ =~= seq![rest@[0]] + rv);
            lemma_stmts_prepend(rest@[0], rv);
        }
        Ok(rest)
    }

    /// A statement.
    #[verifier::spinoff_prover]
    #[verifier::rlimit(40)]
    pub fn parse_stmt(&mut self) -> (r: Result<Stmt, ParseErr>)
        requires
            old(self).wf(),
        ensures
            final(self).wf(),
            final(self).src() == old(self).src(),
            stmt_res(r, p_stmt(old(self).src(), old(self).st()).0),
            r is Ok ==> final(self).st() == p_stmt(old(self).src(), old(self).st()).1 && final(self).measure()
                < old(self).measure(),
        decreases old(self).measure(), 9int,
    {
        proof {
            lemma_unfold_stmt(self.src(), self.st());
        }
        let token = self.unwrap_peek()?;
        match token.ty {
            TokenType::Semi => {
                let t = self.expect_semi()?;
                Ok(Stmt::Semi(SemiStmt { semi_tkn: t.ctx }))
            },
            TokenType::Keyword(kw) => self.parse_keyword(kw),
            TokenType::LBrace => {
                let b = self.parse_block()?;
                Ok(Stmt::Block(b))
            },
            _ => self.parse_expr_stmt(),
        }
    }

    /// An expression followed by `;`.
    #[verifier::spinoff_prover]
    #[verifier::rlimit(40)]
    pub fn parse_expr_stmt(&mut self) -> (r: Result<Stmt, ParseErr>)
        requires
            old(self).wf(),
        ensures
            final(self).wf(),
            final(self).src() == old(self).src(),
            stmt_res(r, p_expr_stmt(old(self).src(), old(self).st()).0),
            r is Ok ==> final(self).st() == p_expr_stmt(old(self).src(), old(self).st()).1 && final(self).measure()
                < old(self).measure(),
        decreases old(self).measure(), 8int,
    {
        proof {
            lemma_unfold_expr_stmt(self.src(), self.st());
        }
        let expr = self.parse_expr()?;
        let semi_tkn = self.expect_semi()?.ctx;
        Ok(Stmt::Expr(ExprStmt { expr, semi_tkn }))
    }

    /// A statement introduced by `keyword`.
    #[verifier::spinoff_prover]
    #[verifier::rlimit(40)]
    pub fn parse_keyword(&mut self, keyword: Keyword) -> (r: Result<Stmt, ParseErr>)
        requires
            old(self).wf(),
        ensures
            final(self).wf(),
            final(self).src() == old(self).src(),
            stmt_res(r, p_keyword(old(self).src(), old(self).st(), keyword).0),
            r is Ok ==> final(self).st() == p_keyword(old(self).src(), old(self).st(), keyword).1
                && final(self).measure() < old(self).measure(),
        decreases old(self).measure(), 8int,
    {
        proof {
            lemma_unfold_keyword(self.src(), self.st(), keyword);
        }
        match keyword {
            Keyword::Input => self.parse_shader_input(false),
            Keyword::Provide => self.parse_shader_input(true),
            Keyword::Output => self.parse_shader_output(),
            Keyword::Fn => self.parse_method_decl(),
            Keyword::Struct => self.parse_struct(),
            Keyword::Uniform => self.parse_uniform_decl(),
            Keyword::PushConstants => self.parse_push_constants(),
            Keyword::Extension => self.parse_extension(),
            Keyword::Let => self.parse_var_decl(false),
            Keyword::Const => self.parse_var_decl(true),
            Keyword::Return => self.parse_return(),
            Keyword::If => self.parse_if(),
            Keyword::For => self.parse_for(),
            Keyword::While => self.parse_while(),
            Keyword::Yield => self.parse_yield(),
            Keyword::Break => {
                let t = self.expect_exact(TokenType::Keyword(Keyword::Break))?;
                Ok(Stmt::Break(BreakStmt { break_tkn: t.ctx }))
            },
            Keyword::Continue => {
                let t = self.expect_exact(TokenType::Keyword(Keyword::Continue))?;
                Ok(Stmt::Continue(ContinueStmt { continue_tkn: t.ctx }))
            },
            _ => {
                let tk = self.unwrap_next()?.ctx;
                let mut hint: Vec<char> = Vec::new();
                push_lit(&mut hint, "Keyword ");
                keyword.push_name(&mut hint);
                push_lit(&mut hint, " not allowed here! Try reading the documentation.");
                Err(self.token_err_with_hint(
                    ParseErrType::UnconstrainedUnexpectedToken(TokenType::Keyword(keyword)),
                    tk,
                    string_from_chars(&hint),
                ))
            },
        }
    }

    /// `yield expr;`
    #[verifier::spinoff_prover]
    #[verifier::rlimit(40)]
    pub fn parse_yield(&mut self) -> (r: Result<Stmt, ParseErr>)
        requires
            old(self).wf(),
        ensures
            final(self).wf(),
            final(self).src() == old(self).src(),
            stmt_res(r, p_yield(old(self).src(), old(self).st()).0),
            r is Ok ==> final(self).st() == p_yield(old(self).src(), old(self).st()).1 && final(self).measure()
                < old(self).measure(),
        decreases old(self).measure(), 7int,
    {
        proof {
            lemma_unfold_yield(self.src(), self.st());
        }
        let yield_tkn = self.expect_exact(TokenType::Keyword(Keyword::Yield))?.ctx;
        let expr = self.parse_expr()?;
        let semi_tkn = self.expect_semi()?.ctx;
        Ok(Stmt::Yield(YieldStmt { yield_tkn, expr, semi_tkn }))
    }

    /// `kw ( expr )`: the positions of the keyword and the parentheses, and the expression.
    #[verifier::spinoff_prover]
    #[verifier::rlimit(40)]
    fn parse_head(&mut self, w: Keyword) -> (r: Result<(TokCtx, TokCtx, Expr, TokCtx), ParseErr>)
        requires
            old(self).wf(),
        ensures
            final(self).wf(),
            final(self).src() == old(self).src(),
            match r {
                Ok(h) => p_head(old(self).src(), old(self).st(), w).0 == Ok::<ExprV, ErrV>(expr_v(h.2))
                    && final(self).st() == p_head(old(self).src(), old(self).st(), w).1 && final(self).measure()
                    < old(self).measure(),
                Err(e) => p_head(old(self).src(), old(self).st(), w).0 == Err::<ExprV, ErrV>(e.ty@),
            },
        decreases old(self).measure(), 3int,
    {
        proof {
            lemma_unfold_head(self.src(), self.st(), w);
        }
        let kw_tkn = self.expect_exact(TokenType::Keyword(w))?.ctx;
        let l_paren = self.expect_exact(TokenType::LParen)?.ctx;
        let cond = self.parse_expr()?;
        let r_paren = self.expect_exact(TokenType::RParen)?.ctx;
        Ok((kw_tkn, l_paren, cond, r_paren))
    }

    /// `while (cond) body`
    #[verifier::spinoff_prover]
    #[verifier::rlimit(40)]
    pub fn parse_while(&mut self) -> (r: Result<Stmt, ParseErr>)
        requires
            old(self).wf(),
        ensures
            final(self).wf(),
            final(self).src() == old(self).src(),
            stmt_res(r, p_while(old(self).src(), old(self).st()).0),
            r is Ok ==> final(self).st() == p_while(old(self).src(), old(self).st()).1 && final(self).measure()
                < old(self).measure(),
        decreases old(self).measure(), 7int,
    {
        proof {
            lemma_unfold_while(self.src(), self.st());
        }
        let (while_tkn, l_paren, cond, r_paren) = self.parse_head(Keyword::While)?;
        let block = self.parse_block_or_stmt()?;
        Ok(Stmt::While(WhileStmt { while_tkn, l_paren, cond, r_paren, block }))
    }

    /// `if (cond) branch`, optionally `else branch`.
    #[verifier::spinoff_prover]
    #[verifier::rlimit(40)]
    pub fn parse_if(&mut self) -> (r: Result<Stmt, ParseErr>)
        requires
            old(self).wf(),
        ensures
            final(self).wf(),
            final(self).src() == old(self).src(),
            stmt_res(r, p_if(old(self).src(), old(self).st()).0),
            r is Ok ==> final(self).st() == p_if(old(self).src(), old(self).st()).1 && final(self).measure()
                < old(self).measure(),
        decreases old(self).measure(), 7int,
    {
        proof {
            lemma_unfold_if(self.src(), self.st());
        }
        let (if_tkn, l_paren, cond, r_paren) = self.parse_head(Keyword::If)?;
        let branch = self.parse_block_or_stmt()?;
        let (else_tkn, else_branch) = self.parse_else()?;
        Ok(Stmt::If(IfStmt { if_tkn, l_paren, cond, r_paren, branch, else_tkn, else_branch }))
    }

    /// An optional `else` branch, with the position of `else`.
    #[verifier::spinoff_prover]
    #[verifier::rlimit(40)]
    fn parse_else(&mut self) -> (r: Result<(Option<TokCtx>, Option<Box<Stmt>>), ParseErr>)
        requires
            old(self).wf(),
        ensures
            final(self).wf(),
            final(self).src() == old(self).src(),
            match r {
                Ok(x) => p_else(old(self).src(), old(self).st()).0 == Ok::<Option<Box<StmtV>>, ErrV>(opt_stmt_v(x.1))
                    && final(self).st() == p_else(old(self).src(), old(self).st()).1 && final(self).measure()
                    <= old(self).measure(),
                Err(e) => p_else(old(self).src(), old(self).st()).0 == Err::<Option<Box<StmtV>>, ErrV>(e.ty@),
            },
        decreases old(self).measure(), 1int,
    {
        proof {
            lemma_unfold_else(self.src(), self.st());
        }
        if self.check_exact(TokenType::Keyword(Keyword::Else))? {
            let else_tkn = self.unwrap_next()?.ctx;
            let b = self.parse_block_or_stmt()?;
            return Ok((Some(else_tkn), Some(b)));
        }
        Ok((None, None))
    }

    /// An expression unless a token of kind `end` comes next.
    #[verifier::spinoff_prover]
    #[verifier::rlimit(40)]
    fn parse_opt_expr(&mut self, end: TokenType) -> (r: Result<Option<Expr>, ParseErr>)
        requires
            old(self).wf(),
        ensures
            final(self).wf(),
            final(self).src() == old(self).src(),
            match r {
                Ok(o) => p_opt_expr(old(self).src(), old(self).st(), end@).0 == Ok::<Option<ExprV>, ErrV>(opt_expr_v(o))
                    && final(self).st() == p_opt_expr(old(self).src(), old(self).st(), end@).1 && final(self).measure()
                    <= old(self).measure(),
                Err(e) => p_opt_expr(old(self).src(), old(self).st(), end@).0 == Err::<Option<ExprV>, ErrV>(e.ty@),
            },
        decreases old(self).measure(), 7int,
    {
        proof {
            lemma_unfold_opt_expr(self.src(), self.st(), end@);
        }
        if self.check_exact(end)? {
            return Ok(None);
        }
        let x = self.parse_expr()?;
        Ok(Some(x))
    }

    /// `for (start; cond; step) body`, each part optional.
    #[verifier::spinoff_prover]
    #[verifier::rlimit(40)]
    pub fn parse_for(&mut self) -> (r: Result<Stmt, ParseErr>)
        requires
            old(self).wf(),
        ensures
            final(self).wf(),
            final(self).src() == old(self).src(),
            stmt_res(r, p_for(old(self).src(), old(self).st()).0),
            r is Ok ==> final(self).st() == p_for(old(self).src(), old(self).st()).1 && final(self).measure()
                < old(self).measure(),
        decreases old(self).measure(), 7int,
    {
        proof {
            lemma_unfold_for(self.src(), self.st());
        }
        let for_tkn = self.expect_exact(TokenType::Keyword(Keyword::For))?.ctx;
        let l_paren = self.expect_exact(TokenType::LParen)?.ctx;
        let start_cond = self.parse_opt_expr(TokenType::Semi)?;
        let semi1_tkn = self.expect_semi()?.ctx;
        let cond = self.parse_opt_expr(TokenType::Semi)?;
        let semi2_tkn = self.expect_semi()?.ctx;
        let after_run = self.parse_opt_expr(TokenType::RParen)?;
        let r_paren = self.expect_exact(TokenType::RParen)?.ctx;
        let block = self.parse_block_or_stmt()?;
        Ok(Stmt::For(ForStmt {
            for_tkn,
            l_paren,
            start_cond,
            semi1_tkn,
            cond,
            semi2_tkn,
            after_run,
            r_paren,
            block,
            fut_scope: None,
        }))
    }

    /// A block if `{` comes next, else a statement.
    #[verifier::spinoff_prover]
    #[verifier::rlimit(40)]
    pub fn parse_block_or_stmt(&mut self) -> (r: Result<Box<Stmt>, ParseErr>)
        requires
            old(self).wf(),
        ensures
            final(self).wf(),
            final(self).src() == old(self).src(),
            match r {
                Ok(b) => p_block_or_stmt(old(self).src(), old(self).st()).0 == Ok::<StmtV, ErrV>(stmt_v(*b))
                    && final(self).st() == p_block_or_stmt(old(self).src(), old(self).st()).1 && final(self).measure()
                    < old(self).measure(),
                Err(e) => p_block_or_stmt(old(self).src(), old(self).st()).0 == Err::<StmtV, ErrV>(e.ty@),
            },
        decreases old(self).measure(), 10int,
    {
        proof {
            lemma_unfold_block_or_stmt(self.src(), self.st());
        }
        if self.check_exact(TokenType::LBrace)? {
            let b = self.parse_block()?;
            Ok(Box::new(Stmt::Block(b)))
        } else {
            let s = self.parse_stmt()?;
            Ok(Box::new(s))
        }
    }

    /// `return;` or `return expr;`
    #[verifier::spinoff_prover]
    #[verifier::rlimit(40)]
    pub fn parse_return(&mut self) -> (r: Result<Stmt, ParseErr>)
        requires
            old(self).wf(),
        ensures
            final(self).wf(),
            final(self).src() == old(self).src(),
            stmt_res(r, p_return(old(self).src(), old(self).st()).0),
            r is Ok ==> final(self).st() == p_return(old(self).src(), old(self).st()).1 && final(self).measure()
                < old(self).measure(),
        decreases old(self).measure(), 7int,
    {
        proof {
            lemma_unfold_return(self.src(), self.st());
        }
        let return_tkn = self.expect_exact(TokenType::Keyword(Keyword::Return))?.ctx;
        let expr = self.parse_opt_expr(TokenType::Semi)?;
        let semi_tkn = self.expect_semi()?.ctx;
        Ok(Stmt::Return(ReturnStmt { return_tkn, expr, semi_tkn }))
    }
}

impl Parser {
    /// `let` or `const` (as `cnst` says) names with an optional type and
    /// initialiser: one declaration per name, together as a compound statement.
    #[verifier::spinoff_prover]
    #[verifier::rlimit(40)]
    pub fn parse_var_decl(&mut self, cnst: bool) -> (r: Result<Stmt, ParseErr>)
        requires
            old(self).wf(),
        ensures
            final(self).wf(),
            final(self).src() == old(self).src(),
            stmt_res(r, p_var_decl(old(self).src(), old(self).st(), cnst).0),
            r is Ok ==> final(self).st() == p_var_decl(old(self).src(), old(self).st(), cnst).1 && final(self).measure()
                < old(self).measure(),
        decreases old(self).measure(), 7int,
    {
        proof {
            lemma_unfold_var_decl(self.src(), self.st(), cnst);
        }
        let tk = if cnst {
            self.expect_exact(TokenType::Keyword(Keyword::Const))?.ctx
        } else {
            self.expect_exact(TokenType::Keyword(Keyword::Let))?.ctx
        };
        let ntd = self.parse_name_type_def(false, true)?;
        let mut init: Option<Expr> = None;
        let mut eq_tkn: Option<TokCtx> = None;
        let peek = self.unwrap_peek()?;
        let is_assign = match peek.ty {
            TokenType::Operator(Operator::Assign) => true,
            _ => false,
        };
        if is_assign {
            eq_tkn = Some(self.unwrap_next()?.ctx);
            init = Some(self.parse_expr()?);
        }
        let semi_tkn = self.expect_semi()?.ctx;
        let components = var_decl_stmts(&ntd, &tk, &init, &eq_tkn, &semi_tkn, cnst);
        Ok(Stmt::Compound(CompoundStmt { components }))
    }

    /// `extension name modifiers;`
    #[verifier::spinoff_prover]
    #[verifier::rlimit(40)]
    pub fn parse_extension(&mut self) -> (r: Result<Stmt, ParseErr>)
        requires
            old(self).wf(),
        ensures
            final(self).wf(),
            final(self).src() == old(self).src(),
            stmt_res(r, p_extension(old(self).src(), old(self).st()).0),
            r is Ok ==> final(self).st() == p_extension(old(self).src(), old(self).st()).1 && final(self).measure()
                < old(self).measure(),
        decreases old(self).measure(), 7int,
    {
        proof {
            lemma_unfold_extension(self.src(), self.st());
        }
        self.expect_exact(TokenType::Keyword(Keyword::Extension))?;
        let extension = self.expect_ident()?;
        let mods = self.parse_mods()?;
        let usage = ModsUsage::default().with_rule(
            "extension",
            ModRule::Either(vec![Modifier::Enable, Modifier::Require, Modifier::Warn, Modifier::Disable]),
        );
        assert(usage.rules() =~= extension_rules());
        let res = self.validate_mods(mods, usage)?;
        let semi_tkn = self.expect_semi()?.ctx;
        Ok(Stmt::Extension(ExtensionStmt { mods: res, extension, semi_tkn }))
    }

    /// `push_constants name: type;`
    #[verifier::spinoff_prover]
    #[verifier::rlimit(40)]
    pub fn parse_push_constants(&mut self) -> (r: Result<Stmt, ParseErr>)
        requires
            old(self).wf(),
        ensures
            final(self).wf(),
            final(self).src() == old(self).src(),
            stmt_res(r, p_push_constants(old(self).src(), old(self).st()).0),
            r is Ok ==> final(self).st() == p_push_constants(old(self).src(), old(self).st()).1 && final(self).measure()
                < old(self).measure(),
        decreases old(self).measure(), 7int,
    {
        proof {
            lemma_unfold_push_constants(self.src(), self.st());
        }
        let pc_tkn = self.expect_exact(TokenType::Keyword(Keyword::PushConstants))?.ctx;
        let ntd = self.parse_name_type_def_single()?;
        let (ty, colon_tkn) = match (ntd.ty, ntd.colon_tk) {
            (Some(t), Some(c)) => (t, c),
            _ => {
                return Err(ParseErr { ty: ParseErrType::InternalErr, ctx: pc_tkn, tail: String::new(), hint: None });
            },
        };
        let semi_tkn = self.expect_semi()?.ctx;
        Ok(Stmt::PushConstants(PushConstantsStmt { pc_tkn, name: ntd.name, colon_tkn, ty, semi_tkn }))
    }

    /// `set = N binding = M`: the numbers with the positions of their parts.
    #[verifier::spinoff_prover]
    #[verifier::rlimit(40)]
    fn parse_location(&mut self) -> (r: Result<(Ident, TokCtx, (u32, TokCtx), Ident, TokCtx, (u32, TokCtx)), ParseErr>)
        requires
            old(self).wf(),
        ensures
            final(self).wf(),
            final(self).src() == old(self).src(),
            match r {
                Ok(l) => p_location(old(self).src(), old(self).st()).0 == Ok::<(u32, u32), ErrV>((l.2.0, l.5.0))
                    && final(self).st() == p_location(old(self).src(), old(self).st()).1 && final(self).measure()
                    < old(self).measure(),
                Err(e) => p_location(old(self).src(), old(self).st()).0 == Err::<(u32, u32), ErrV>(e.ty@),
            },
    {
        let set_tkn = self.expect_ident_exact("set")?;
        let set_eq_tkn = self.expect_exact(TokenType::Operator(Operator::Assign))?.ctx;
        let set = self.expect_non_negative_int()?;
        let binding_tkn = self.expect_ident_exact("binding")?;
        let binding_eq_tkn = self.expect_exact(TokenType::Operator(Operator::Assign))?.ctx;
        let binding = self.expect_non_negative_int()?;
        Ok((set_tkn, set_eq_tkn, set, binding_tkn, binding_eq_tkn, binding))
    }

    /// `uniform set = N binding = M modifiers [buffer] name: type;`: a storage
    /// buffer with `buffer`, else a uniform buffer for a structure type, else
    /// a plain uniform; each kind with its own modifier rules.
    #[verifier::spinoff_prover]
    #[verifier::rlimit(90)]
    pub fn parse_uniform_decl(&mut self) -> (r: Result<Stmt, ParseErr>)
        requires
            old(self).wf(),
        ensures
            final(self).wf(),
            final(self).src() == old(self).src(),
            stmt_res(r, p_uniform_decl(old(self).src(), old(self).st()).0),
            r is Ok ==> final(self).st() == p_uniform_decl(old(self).src(), old(self).st()).1 && final(self).measure()
                < old(self).measure(),
        decreases old(self).measure(), 7int,
    {
        proof {
            lemma_unfold_uniform_decl(self.src(), self.st());
        }
        let uniform_tkn = self.expect_exact(TokenType::Keyword(Keyword::Uniform))?.ctx;
        let (set_tkn, set_eq_tkn, set, binding_tkn, binding_eq_tkn, binding) = self.parse_location()?;
        let mods = self.parse_mods()?;
        let ssbo = self.check_exact(TokenType::Keyword(Keyword::Buffer))?;
        if ssbo {
            self.unwrap_next()?;
        }
        let ntd = self.parse_name_type_def_single()?;
        let (ty, colon_tkn) = match (ntd.ty, ntd.colon_tk) {
            (Some(t), Some(c)) => (t, c),
            _ => {
                return Err(ParseErr { ty: ParseErrType::InternalErr, ctx: uniform_tkn, tail: String::new(), hint: None });
            },
        };
        let semi_tkn = self.expect_semi()?.ctx;
        let is_struct = match &ty {
            Type::StructDef(_) => true,
            _ => false,
        };
        let (uniform_type, usage) = if ssbo {
            let u = ModsUsage::default().with_rule(
                "packing_type",
                ModRule::EitherOr(vec![Modifier::STD140, Modifier::STD430]),
            ).with_rule("access", ModRule::EitherOr(vec![Modifier::Readonly, Modifier::Writeonly]));
            assert(u.rules() =~= ssbo_rules());
            (UniformType::SSBO, u)
        } else if is_struct {
            let u = ModsUsage::default().with_rule(
                "packing_type",
                ModRule::EitherOr(vec![Modifier::STD140, Modifier::STD430]),
            );
            assert(u.rules() =~= ubo_rules());
            (UniformType::UBO, u)
        } else {
            let u = ModsUsage::default();
            (UniformType::Uniform, u)
        };
        assert((uniform_type, usage.rules()) == uniform_kind(ssbo, type_v(ty)));
        let resolved = self.validate_mods(mods, usage)?;
        Ok(Stmt::Uniform(UniformStmt {
            uniform_tkn,
            name: ntd.name,
            colon_tkn,
            ty,
            set_tkn: set_tkn.tkn,
            set_eq_tkn,
            set_lit_tkn: set.1,
            set: set.0,
            binding_tkn: binding_tkn.tkn,
            binding_eq_tkn,
            binding_lit_tkn: binding.1,
            binding: binding.0,
            mods: resolved,
            uniform_type,
            semi_tkn,
        }))
    }

    /// Parameters up to `)`, which is left in place; `next` is the kind of
    /// the token looked at last.
    #[verifier::spinoff_prover]
    #[verifier::rlimit(40)]
    fn parse_params(&mut self, next: &TokenType) -> (r: Result<Vec<MethodParamDecl>, ParseErr>)
        requires
            old(self).wf(),
        ensures
            final(self).wf(),
            final(self).src() == old(self).src(),
            match r {
                Ok(v) => p_params(old(self).src(), old(self).st(), next@).0 == Ok::<Seq<(Seq<char>, TypeV, bool)>, ErrV>(
                    params_v(v@),
                ) && final(self).st() == p_params(old(self).src(), old(self).st(), next@).1 && final(self).measure()
                    <= old(self).measure(),
                Err(e) => p_params(old(self).src(), old(self).st(), next@).0 == Err::<Seq<(Seq<char>, TypeV, bool)>, ErrV>(
                    e.ty@,
                ),
            },
        decreases old(self).measure(), 4int,
    {
        proof {
            lemma_unfold_params(self.src(), self.st(), next@);
        }
        if next.same_as(&TokenType::RParen) {
            return Ok(Vec::new());
        }
        let mut v = self.parse_name_type_def(true, false)?;
        let ghost vv = ntds_v(v@);
        if v.len() == 0 || v[0].ty.is_none() {
            proof {
                assert(v@.len() > 0 ==> vv[0].1 == opt_type_v(v@[0].ty));
            }
            return Err(ParseErr { ty: ParseErrType::InternalErr, ctx: self.tokens.create_context(), tail: String::new(), hint: None });
        }
        assert(v@[0].colon_tk is Some);
        let param = v.remove(0);
        assert(vv[0] == (param.name.val@, opt_type_v(param.ty)));
        let k = self.unwrap_peek()?;
        let mut comma: Option<TokCtx> = None;
        if k.ty.same_as(&TokenType::Comma) {
            self.unwrap_next()?;
            comma = Some(k.ctx.dup());
        }
        let (ty, colon_tkn) = match (param.ty, param.colon_tk) {
            (Some(t), Some(c)) => (t, c),
            _ => {
                return Err(ParseErr { ty: ParseErrType::InternalErr, ctx: k.ctx, tail: String::new(), hint: None });
            },
        };
        let mut rest = self.parse_params(&k.ty)?;
        let ghost rv = rest@;
        rest.insert(0, MethodParamDecl { name: param.name, colon_tkn, ty, comma_tkn: comma });
        proof {
            assert(rest@.drop_first() =~= rv);
        }
        Ok(rest)
    }

    /// `fn name(params) [-> type] { body }`.
    #[verifier::spinoff_prover]
    #[verifier::rlimit(40)]
    fn parse_method_decl_stmt(&mut self) -> (r: Result<MethodDeclStmt, ParseErr>)
        requires
            old(self).wf(),
        ensures
            final(self).wf(),
            final(self).src() == old(self).src(),
            match r {
                Ok(m) => p_method_decl(old(self).src(), old(self).st()).0 == Ok::<StmtV, ErrV>(method_v(m))
                    && final(self).st() == p_method_decl(old(self).src(), old(self).st()).1 && final(self).measure()
                    < old(self).measure(),
                Err(e) => p_method_decl(old(self).src(), old(self).st()).0 == Err::<StmtV, ErrV>(e.ty@),
            },
        decreases old(self).measure(), 6int,
    {
        proof {
            lemma_unfold_method_decl(self.src(), self.st());
        }
        let fn_tkn = self.expect_exact(TokenType::Keyword(Keyword::Fn))?.ctx;
        let name = self.expect_ident()?;
        let l_paren = self.expect_exact(TokenType::LParen)?.ctx;
        let next = self.unwrap_peek()?;
        let params = self.parse_params(&next.ty)?;
        let r_paren = self.expect_exact(TokenType::RParen)?.ctx;
        let mut return_type: Option<Type> = None;
        let mut arrow_tkn: Option<TokCtx> = None;
        let a = self.unwrap_peek()?;
        if let TokenType::Operator(Operator::Merge) = a.ty {
            arrow_tkn = Some(self.unwrap_next()?.ctx);
            return_type = Some(self.parse_type()?);
        }
        let block = self.parse_block()?;
        Ok(MethodDeclStmt {
            fn_tkn,
            name,
            l_paren,
            params,
            r_paren,
            arrow_tkn,
            return_type,
            block: Box::new(Stmt::Block(block)),
            symbol_id: None,
            fut_scope: None,
        })
    }

    /// A method declaration.
    #[verifier::spinoff_prover]
    #[verifier::rlimit(40)]
    pub fn parse_method_decl(&mut self) -> (r: Result<Stmt, ParseErr>)
        requires
            old(self).wf(),
        ensures
            final(self).wf(),
            final(self).src() == old(self).src(),
            stmt_res(r, p_method_decl(old(self).src(), old(self).st()).0),
            r is Ok ==> final(self).st() == p_method_decl(old(self).src(), old(self).st()).1 && final(self).measure()
                < old(self).measure(),
        decreases old(self).measure(), 7int,
    {
        let m = self.parse_method_decl_stmt()?;
        Ok(Stmt::MethodDecl(m))
    }

    /// `{ statements }`.
    #[verifier::spinoff_prover]
    #[verifier::rlimit(40)]
    pub fn parse_block(&mut self) -> (r: Result<BlockStmt, ParseErr>)
        requires
            old(self).wf(),
        ensures
            final(self).wf(),
            final(self).src() == old(self).src(),
            match r {
                Ok(b) => p_block(old(self).src(), old(self).st()).0 == Ok::<Seq<StmtV>, ErrV>(stmts_v(b.stmts@))
                    && final(self).st() == p_block(old(self).src(), old(self).st()).1 && final(self).measure()
                    < old(self).measure(),
                Err(e) => p_block(old(self).src(), old(self).st()).0 == Err::<Seq<StmtV>, ErrV>(e.ty@),
            },
        decreases old(self).measure(), 7int,
    {
        proof {
            lemma_unfold_block(self.src(), self.st());
        }
        let l_brace = self.expect_exact(TokenType::LBrace)?.ctx;
        let (stmts, r_brace) = self.parse_block_rest()?;
        Ok(BlockStmt { l_brace, stmts, r_brace, fut_scope: None })
    }

    /// Statements up to `}`, which is taken; with its position.
    #[verifier::spinoff_prover]
    #[verifier::rlimit(40)]
    fn parse_block_rest(&mut self) -> (r: Result<(Vec<Stmt>, TokCtx), ParseErr>)
        requires
            old(self).wf(),
        ensures
            final(self).wf(),
            final(self).src() == old(self).src(),
            match r {
                Ok(b) => p_block_rest(old(self).src(), old(self).st()).0 == Ok::<Seq<StmtV>, ErrV>(stmts_v(b.0@))
                    && final(self).st() == p_block_rest(old(self).src(), old(self).st()).1 && final(self).measure()
                    < old(self).measure(),
                Err(e) => p_block_rest(old(self).src(), old(self).st()).0 == Err::<Seq<StmtV>, ErrV>(e.ty@),
            },
        decreases old(self).measure(), 11int,
    {
        proof {
            lemma_unfold_block_rest(self.src(), self.st());
        }
        let t = self.unwrap_peek()?;
        if t.ty.same_as(&TokenType::RBrace) {
            let close = self.expect_exact(TokenType::RBrace)?.ctx;
            return Ok((Vec::new(), close));
        }
        let s = self.parse_stmt()?;
        let (mut rest, close) = self.parse_block_rest()?;
        let ghost rv = rest@;
        rest.insert(0, s);
        proof {
            assert(rest@ =~= seq![rest@[0]] + rv);
            lemma_stmts_prepend(rest@[0], rv);
        }
        Ok((rest, close))
    }

    /// `output type name;`
    #[verifier::spinoff_prover]
    #[verifier::rlimit(40)]
    pub fn parse_shader_output(&mut self) -> (r: Result<Stmt, ParseErr>)
        requires
            old(self).wf(),
        ensures
            final(self).wf(),
            final(self).src() == old(self).src(),
            stmt_res(r, p_shader_output(old(self).src(), old(self).st()).0),
            r is Ok ==> final(self).st() == p_shader_output(old(self).src(), old(self).st()).1 && final(self).measure()
                < old(self).measure(),
        decreases old(self).measure(), 7int,
    {
        proof {
            lemma_unfold_shader_output(self.src(), self.st());
        }
        let output_tkn = self.expect_exact(TokenType::Keyword(Keyword::Output))?.ctx;
        let ty = self.parse_type()?;
        let name = self.expect_ident()?;
        let semi_tkn = self.expect_semi()?.ctx;
        Ok(Stmt::Output(OutputStmt { output_tkn, ty, name, semi_tkn }))
    }

    /// `input modifiers name: type;` — an input, or with `provide` the
    /// fragment input `provide modifiers name: type;`.
    #[verifier::spinoff_prover]
    #[verifier::rlimit(40)]
    pub fn parse_shader_input(&mut self, provide: bool) -> (r: Result<Stmt, ParseErr>)
        requires
            old(self).wf(),
        ensures
            final(self).wf(),
            final(self).src() == old(self).src(),
            stmt_res(r, p_shader_input(old(self).src(), old(self).st(), provide).0),
            r is Ok ==> final(self).st() == p_shader_input(old(self).src(), old(self).st(), provide).1
                && final(self).measure() < old(self).measure(),
        decreases old(self).measure(), 7int,
    {
        proof {
            lemma_unfold_shader_input(self.src(), self.st(), provide);
        }
        let kw = if provide { Keyword::Provide } else { Keyword::Input };
        let tkn = self.expect_exact(TokenType::Keyword(kw))?.ctx;
        let mods = self.parse_mods()?;
        let ntd = self.parse_name_type_def_single()?;
        let (ty, colon_tkn) = match (ntd.ty, ntd.colon_tk) {
            (Some(t), Some(c)) => (t, c),
            _ => {
                return Err(ParseErr { ty: ParseErrType::InternalErr, ctx: tkn, tail: String::new(), hint: None });
            },
        };
        let usage = ModsUsage::default().with_rule(
            "interpolation",
            ModRule::EitherOr(vec![Modifier::Flat, Modifier::Smooth, Modifier::Noperspective]),
        );
        assert(usage.rules() =~= input_rules());
        let res = self.validate_mods(mods, usage)?;
        let semi_tkn = self.expect_semi()?.ctx;
        if provide {
            Ok(Stmt::Provide(ProvideStmt { provide_tkn: tkn, ty, colon_tkn, name: ntd.name, mods: res, semi_tkn }))
        } else {
            Ok(Stmt::Input(InputStmt { input_tkn: tkn, ty, colon_tkn, name: ntd.name, mods: res, semi_tkn }))
        }
    }

    /// `struct name { fields and methods }`, with at least one member.
    #[verifier::spinoff_prover]
    #[verifier::rlimit(40)]
    pub(crate) fn parse_struct_stmt(&mut self) -> (r: Result<StructStmt, ParseErr>)
        requires
            old(self).wf(),
        ensures
            final(self).wf(),
            final(self).src() == old(self).src(),
            match r {
                Ok(s) => p_struct(old(self).src(), old(self).st()).0 == Ok::<StmtV, ErrV>(struct_v(s))
                    && final(self).st() == p_struct(old(self).src(), old(self).st()).1 && final(self).measure()
                    < old(self).measure(),
                Err(e) => p_struct(old(self).src(), old(self).st()).0 == Err::<StmtV, ErrV>(e.ty@),
            },
        decreases old(self).measure(), 6int,
    {
        proof {
            lemma_unfold_struct(self.src(), self.st());
        }
        let struct_tkn = self.expect_exact(TokenType::Keyword(Keyword::Struct))?.ctx;
        let name = self.expect_ident()?;
        let brace1_tkn = self.expect_exact(TokenType::LBrace)?.ctx;
        let (fields, methods, brace2_tkn) = self.parse_struct_body()?;
        if fields.len() == 0 && methods.len() == 0 {
            let exps = vec![TokenExpectation::Ident, TokenExpectation::Exact(TokenType::Keyword(Keyword::Fn))];
            assert(exps_view(exps@) =~= seq![ExpV::Ident, ExpV::Exact(TokenKind::Keyword(Keyword::Fn))]);
            let tok = Token { ty: TokenType::RBrace, ctx: brace2_tkn };
            return Err(self.token_err(ParseErrType::UnexpectedToken(tok.dup(), exps), tok));
        }
        Ok(StructStmt { struct_tkn, name, brace1_tkn, fields, methods, brace2_tkn, symbol_id: None, fut_scope: None })
    }

    /// A structure declaration.
    #[verifier::spinoff_prover]
    #[verifier::rlimit(40)]
    pub fn parse_struct(&mut self) -> (r: Result<Stmt, ParseErr>)
        requires
            old(self).wf(),
        ensures
            final(self).wf(),
            final(self).src() == old(self).src(),
            stmt_res(r, p_struct(old(self).src(), old(self).st()).0),
            r is Ok ==> final(self).st() == p_struct(old(self).src(), old(self).st()).1 && final(self).measure()
                < old(self).measure(),
        decreases old(self).measure(), 7int,
    {
        let s = self.parse_struct_stmt()?;
        Ok(Stmt::Struct(s))
    }

    /// Fields and methods up to `}`, which is taken; with its position.
    #[verifier::spinoff_prover]
    #[verifier::rlimit(40)]
    fn parse_struct_body(&mut self) -> (r: Result<(Vec<StructField>, Vec<MethodDeclStmt>, TokCtx), ParseErr>)
        requires
            old(self).wf(),
        ensures
            final(self).wf(),
            final(self).src() == old(self).src(),
            match r {
                Ok(b) => p_struct_body(old(self).src(), old(self).st()).0 == Ok::<(Seq<(Seq<char>, TypeV)>, Seq<StmtV>), ErrV>(
                    (fields_v(b.0@), methods_v(b.1@)),
                ) && final(self).st() == p_struct_body(old(self).src(), old(self).st()).1 && final(self).measure()
                    < old(self).measure(),
                Err(e) => p_struct_body(old(self).src(), old(self).st()).0 == Err::<(Seq<(Seq<char>, TypeV)>, Seq<StmtV>), ErrV>(
                    e.ty@,
                ),
            },
        decreases old(self).measure(), 8int,
    {
        proof {
            lemma_unfold_struct_body(self.src(), self.st());
        }
        let t = self.unwrap_peek()?;
        if t.ty.same_as(&TokenType::RBrace) {
            let close = self.expect_exact(TokenType::RBrace)?.ctx;
            return Ok((Vec::new(), Vec::new(), close));
        }
        let t2 = self.unwrap_peek()?;
        if let TokenType::Keyword(Keyword::Fn) = t2.ty {
            let m = self.parse_method_decl_stmt()?;
            let (fields, mut methods, close) = self.parse_struct_body()?;
            let ghost mv = methods@;
            methods.insert(0, m);
            proof {
                assert(methods@.drop_first() =~= mv);
            }
            return Ok((fields, methods, close));
        }
        let ntds = self.parse_name_type_def(true, true)?;
        let semi = self.expect_semi()?;
        let ghost dv = ntds_v(ntds@);
        let mut fields: Vec<StructField> = Vec::new();
        let mut i: usize = 0;
        while i < ntds.len()
            invariant
                i <= ntds@.len(),
                dv == ntds_v(ntds@),
                ntds_consistent(ntds@),
                fields_v(fields@) == typed_fields(dv.subrange(0, i as int)),
            decreases ntds@.len() - i,
        {
            let d = &ntds[i];
            assert(dv.subrange(0, i + 1).drop_last() =~= dv.subrange(0, i as int));
            match (&d.ty, &d.colon_tk) {
                (Some(ty), Some(c)) => {
                    let ghost before = fields@;
                    let f = StructField { name: d.name.dup(), colon_tkn: c.dup(), ty: ty.dup(), semi_tkn: semi.ctx.dup() };
                    fields.push(f);
                    proof {
                        lemma_fields_push(before, f);
                    }
                },
                _ => {},
            }
            i += 1;
        }
        assert(dv.subrange(0, ntds@.len() as int) =~= dv);
        let (rest_fields, methods, close) = self.parse_struct_body()?;
        let ghost a = fields@;
        let ghost b = rest_fields@;
        let mut rest_fields = rest_fields;
        fields.append(&mut rest_fields);
        proof {
            assert(fields@ =~= a + b);
            lemma_fields_add(a, b);
        }
        Ok((fields, methods, close))
    }
}

/// The declaration of one name, with copies of the shared parts.
#[verifier::spinoff_prover]
fn var_decl_one(d: &NTD, tk: &TokCtx, init: &Option<Expr>, eq_tkn: &Option<TokCtx>, semi_tkn: &TokCtx, cnst: bool) -> (r: Stmt)
    ensures
        stmt_v(r) == StmtV::VarDecl(d.name.val@, opt_type_v(d.ty), opt_expr_v(*init), cnst),
{
    let ty = crate::parser::dup::dup_opt_type(&d.ty);
    let init2 = crate::parser::dup::dup_opt_expr(init);
    let colon_tkn = crate::parser::dup::dup_opt_ctx(&d.colon_tk);
    Stmt::VarDecl(VarDeclStmt {
        kw_tkn: tk.dup(),
        name: d.name.dup(),
        colon_tkn,
        ty,
        eq_tkn: eq_tkn_dup(eq_tkn),
        init: init2,
        semi_tkn: semi_tkn.dup(),
        cnst,
    })
}

/// Declarations for one more name.
proof fn lemma_var_decls_push(dv: Seq<(Seq<char>, Option<TypeV>)>, i: int, iv: Option<ExprV>, cnst: bool)
    requires
        0 <= i < dv.len(),
    ensures
        var_decls(dv.subrange(0, i + 1), iv, cnst) == var_decls(dv.subrange(0, i), iv, cnst).push(
            StmtV::VarDecl(dv[i].0, dv[i].1, iv, cnst),
        ),
{
    assert(dv.subrange(0, i + 1) =~= dv.subrange(0, i).push(dv[i]));
    assert(var_decls(dv.subrange(0, i + 1), iv, cnst) =~= var_decls(dv.subrange(0, i), iv, cnst).push(
        StmtV::VarDecl(dv[i].0, dv[i].1, iv, cnst),
    ));
}

/// One declaration per name, each with copies of the shared parts.
#[verifier::spinoff_prover]
#[verifier::rlimit(40)]
fn var_decl_stmts(
    ntd: &Vec<NTD>,
    tk: &TokCtx,
    init: &Option<Expr>,
    eq_tkn: &Option<TokCtx>,
    semi_tkn: &TokCtx,
    cnst: bool,
) -> (r: Vec<Stmt>)
    ensures
        stmts_v(r@) == var_decls(ntds_v(ntd@), opt_expr_v(*init), cnst),
{
    let ghost iv = opt_expr_v(*init);
    let ghost dv = ntds_v(ntd@);
    let mut components: Vec<Stmt> = Vec::new();
    let mut i: usize = 0;
    while i < ntd.len()
        invariant
            i <= ntd@.len(),
            dv == ntds_v(ntd@),
            iv == opt_expr_v(*init),
            stmts_v(components@) == var_decls(dv.subrange(0, i as int), iv, cnst),
        decreases ntd@.len() - i,
    {
        let d = &ntd[i];
        let decl = var_decl_one(d, tk, init, eq_tkn, semi_tkn, cnst);
        let ghost before = components@;
        components.push(decl);
        proof {
            lemma_stmts_push(before, decl);
            assert(components@ =~= before.push(decl));
            lemma_var_decls_push(dv, i as int, iv, cnst);
            assert(dv[i as int] == (d.name.val@, opt_type_v(d.ty)));
            assert(stmt_v(decl) == StmtV::VarDecl(dv[i as int].0, dv[i as int].1, iv, cnst));
        }
        i += 1;
    }
    assert(dv.subrange(0, ntd@.len() as int) =~= dv);
    components
}

/// A copy of an optional position.
fn eq_tkn_dup(t: &Option<TokCtx>) -> (r: Option<TokCtx>)
    ensures
        r is Some == t is Some,
{
    match t {
        Some(c) => Some(c.dup()),
        None => None,
    }
}

/// Viewing statements: appending one.
proof fn lemma_stmts_push(s: Seq<Stmt>, x: Stmt)
    ensures
        stmts_v(s.push(x)) == stmts_v(s).push(stmt_v(x)),
    decreases s.len(),
{
    reveal_with_fuel(stmts_v, 2);
    if s.len() == 0 {
        assert(s.push(x).drop_first() =~= Seq::<Stmt>::empty());
        assert(stmts_v(s.push(x)) =~= stmts_v(s).push(stmt_v(x)));
    } else {
        lemma_stmts_push(s.drop_first(), x);
        assert(s.push(x).drop_first() =~= s.drop_first().push(x));
        assert(s.push(x)[0] == s[0]);
        assert(stmts_v(s.push(x)) =~= stmts_v(s).push(stmt_v(x)));
    }
}

} // verus!
