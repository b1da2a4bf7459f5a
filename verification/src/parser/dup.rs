//! Copies of syntax trees that keep their values.
use vstd::prelude::*;
use crate::token::TokCtx;
use crate::parser::ast::{
    Type, Expr, Stmt, Ident, SingleType, PathType, ArrayType, StructType, TupleType, UnaryExpr, BinExpr, FnCallExpr,
    AccessExpr, VarExpr, LitExpr, IndexExpr, TernaryExpr, PreFixExpr, PostFixExpr, TupleExpr, ArrayExpr, BlockExpr,
    AssignExpr, NonuniformExpr, TupleAccessExpr, AccessFnCallExpr, ThisExpr, AsExpr, ConstructExpr, FieldInit,
    IfStmt, ForStmt, WhileStmt, MethodDeclStmt, MethodParamDecl, VarDeclStmt, ReturnStmt, YieldStmt, BreakStmt,
    ContinueStmt, IncludeStmt, ExtensionStmt, InputStmt, OutputStmt, ProvideStmt, PushConstantsStmt, UniformStmt,
    StructStmt, StructField, BlockStmt, CompoundStmt, ExprStmt, SemiStmt,
};
use crate::parser::syntax::{
    type_v, expr_v, stmt_v, idents_v, type_list_v, expr_list_v, field_list_v, stmts_v, params_v, fields_v,
    methods_v, method_v, struct_v, opt_expr_v, opt_type_v, opt_stmt_v,
};

verus! {

pub(crate) fn dup_opt_ctx(c: &Option<TokCtx>) -> (r: Option<TokCtx>)
    ensures
        r is Some == c is Some,
{
    match c {
        Some(t) => Some(t.dup()),
        None => None,
    }
}

fn dup_ctxs(v: &Vec<TokCtx>) -> (r: Vec<TokCtx>) {
    let mut out: Vec<TokCtx> = Vec::new();
    let mut i: usize = 0;
    while i < v.len()
        decreases v@.len() - i,
    {
        out.push(v[i].dup());
        i += 1;
    }
    out
}

fn dup_idents(v: &Vec<Ident>) -> (r: Vec<Ident>)
    ensures
        idents_v(r@) == idents_v(v@),
{
    let mut out: Vec<Ident> = Vec::new();
    let mut i: usize = 0;
    while i < v.len()
        invariant
            i <= v@.len(),
            idents_v(out@) =~= idents_v(v@.subrange(0, i as int)),
        decreases v@.len() - i,
    {
        let x = v[i].dup();
        let ghost before = out@;
        out.push(x);
        proof {
            assert(v@.subrange(0, i + 1) =~= v@.subrange(0, i as int).push(v@[i as int]));
            assert(out@ =~= before.push(x));
            assert(idents_v(out@) =~= idents_v(before).push(x.val@));
            assert(idents_v(v@.subrange(0, i + 1)) =~= idents_v(v@.subrange(0, i as int)).push(v@[i as int].val@));
        }
        i += 1;
    }
    assert(v@.subrange(0, v@.len() as int) =~= v@);
    out
}

fn dup_type_list(v: &Vec<(Type, Option<TokCtx>)>, i: usize) -> (r: Vec<(Type, Option<TokCtx>)>)
    requires
        i <= v@.len(),
    ensures
        type_list_v(r@) == type_list_v(v@.subrange(i as int, v@.len() as int)),
    decreases v, v@.len() - i,
{
    if i >= v.len() {
        return Vec::new();
    }
    let x = (v[i].0.dup(), dup_opt_ctx(&v[i].1));
    let mut rest = dup_type_list(v, i + 1);
    let ghost rv = rest@;
    rest.insert(0, x);
    proof {
        let s = v@.subrange(i as int, v@.len() as int);
        assert(s.drop_first() =~= v@.subrange(i + 1, v@.len() as int));
        assert(rest@.drop_first() =~= rv);
    }
    rest
}

fn dup_expr_list(v: &Vec<(Expr, Option<TokCtx>)>, i: usize) -> (r: Vec<(Expr, Option<TokCtx>)>)
    requires
        i <= v@.len(),
    ensures
        expr_list_v(r@) == expr_list_v(v@.subrange(i as int, v@.len() as int)),
    decreases v, v@.len() - i,
{
    if i >= v.len() {
        return Vec::new();
    }
    let x = (v[i].0.dup(), dup_opt_ctx(&v[i].1));
    let mut rest = dup_expr_list(v, i + 1);
    let ghost rv = rest@;
    rest.insert(0, x);
    proof {
        let s = v@.subrange(i as int, v@.len() as int);
        assert(s.drop_first() =~= v@.subrange(i + 1, v@.len() as int));
        assert(rest@.drop_first() =~= rv);
    }
    rest
}

fn dup_field_list(v: &Vec<(FieldInit, Option<TokCtx>)>, i: usize) -> (r: Vec<(FieldInit, Option<TokCtx>)>)
    requires
        i <= v@.len(),
    ensures
        field_list_v(r@) == field_list_v(v@.subrange(i as int, v@.len() as int)),
    decreases v, v@.len() - i,
{
    if i >= v.len() {
        return Vec::new();
    }
    let f = &v[i].0;
    let x = (
        FieldInit { name: f.name.dup(), colon_tkn: f.colon_tkn.dup(), expr: Box::new(f.expr.dup()) },
        dup_opt_ctx(&v[i].1),
    );
    let mut rest = dup_field_list(v, i + 1);
    let ghost rv = rest@;
    rest.insert(0, x);
    proof {
        let s = v@.subrange(i as int, v@.len() as int);
        assert(s.drop_first() =~= v@.subrange(i + 1, v@.len() as int));
        assert(rest@.drop_first() =~= rv);
    }
    rest
}

fn dup_stmts(v: &Vec<Stmt>, i: usize) -> (r: Vec<Stmt>)
    requires
        i <= v@.len(),
    ensures
        stmts_v(r@) == stmts_v(v@.subrange(i as int, v@.len() as int)),
    decreases v, v@.len() - i,
{
    if i >= v.len() {
        return Vec::new();
    }
    let x = v[i].dup();
    let mut rest = dup_stmts(v, i + 1);
    let ghost rv = rest@;
    rest.insert(0, x);
    proof {
        let s = v@.subrange(i as int, v@.len() as int);
        assert(s.drop_first() =~= v@.subrange(i + 1, v@.len() as int));
        assert(rest@.drop_first() =~= rv);
    }
    rest
}

fn dup_params(v: &Vec<MethodParamDecl>, i: usize) -> (r: Vec<MethodParamDecl>)
    requires
        i <= v@.len(),
    ensures
        params_v(r@) == params_v(v@.subrange(i as int, v@.len() as int)),
    decreases v, v@.len() - i,
{
    if i >= v.len() {
        return Vec::new();
    }
    let p = &v[i];
    let x = MethodParamDecl {
        name: p.name.dup(),
        colon_tkn: p.colon_tkn.dup(),
        ty: p.ty.dup(),
        comma_tkn: dup_opt_ctx(&p.comma_tkn),
    };
    let mut rest = dup_params(v, i + 1);
    let ghost rv = rest@;
    rest.insert(0, x);
    proof {
        let s = v@.subrange(i as int, v@.len() as int);
        assert(s.drop_first() =~= v@.subrange(i + 1, v@.len() as int));
        assert(rest@.drop_first() =~= rv);
    }
    rest
}

fn dup_fields(v: &Vec<StructField>, i: usize) -> (r: Vec<StructField>)
    requires
        i <= v@.len(),
    ensures
        fields_v(r@) == fields_v(v@.subrange(i as int, v@.len() as int)),
    decreases v, v@.len() - i,
{
    if i >= v.len() {
        return Vec::new();
    }
    let f = &v[i];
    let x = StructField { name: f.name.dup(), colon_tkn: f.colon_tkn.dup(), ty: f.ty.dup(), semi_tkn: f.semi_tkn.dup() };
    let mut rest = dup_fields(v, i + 1);
    let ghost rv = rest@;
    rest.insert(0, x);
    proof {
        let s = v@.subrange(i as int, v@.len() as int);
        assert(s.drop_first() =~= v@.subrange(i + 1, v@.len() as int));
        assert(rest@.drop_first() =~= rv);
    }
    rest
}

fn dup_methods(v: &Vec<MethodDeclStmt>, i: usize) -> (r: Vec<MethodDeclStmt>)
    requires
        i <= v@.len(),
    ensures
        methods_v(r@) == methods_v(v@.subrange(i as int, v@.len() as int)),
    decreases v, v@.len() - i,
{
    if i >= v.len() {
        return Vec::new();
    }
    let x = v[i].dup();
    let mut rest = dup_methods(v, i + 1);
    let ghost rv = rest@;
    rest.insert(0, x);
    proof {
        let s = v@.subrange(i as int, v@.len() as int);
        assert(s.drop_first() =~= v@.subrange(i + 1, v@.len() as int));
        assert(rest@.drop_first() =~= rv);
    }
    rest
}

pub(crate) fn dup_opt_expr(e: &Option<Expr>) -> (r: Option<Expr>)
    ensures
        opt_expr_v(r) == opt_expr_v(*e),
    decreases e, 0int,
{
    match e {
        Some(x) => Some(x.dup()),
        None => None,
    }
}

fn dup_opt_stmt(b: &Option<Box<Stmt>>) -> (r: Option<Box<Stmt>>)
    ensures
        opt_stmt_v(r) == opt_stmt_v(*b),
    decreases b, 0int,
{
    match b {
        Some(x) => Some(Box::new(x.dup())),
        None => None,
    }
}

pub(crate) fn dup_opt_type(t: &Option<Type>) -> (r: Option<Type>)
    ensures
        opt_type_v(r) == opt_type_v(*t),
    decreases t, 0int,
{
    match t {
        Some(x) => Some(x.dup()),
        None => None,
    }
}

impl Type {
    /// A copy of this type.
    pub fn dup(&self) -> (r: Self)
        ensures
            type_v(r) == type_v(*self),
        decreases self, 0int,
    {
        match self {
            Type::Primitive(p, c) => Type::Primitive(*p, c.dup()),
            Type::SingleType(s) => Type::SingleType(SingleType { name: s.name.clone(), tkn: s.tkn.dup() }),
            Type::PathType(p) => Type::PathType(PathType {
                path_parts: dup_idents(&p.path_parts),
                dot_tkns: dup_ctxs(&p.dot_tkns),
                name: p.name.dup(),
            }),
            Type::ArrayOf(a) => {
                let dimension = match &a.dimension {
                    Some(d) => Some(Box::new(d.dup())),
                    None => None,
                };
                Type::ArrayOf(ArrayType {
                    component: Box::new(a.component.dup()),
                    brack1_tkn: a.brack1_tkn.dup(),
                    dimension,
                    brack2_tkn: a.brack2_tkn.dup(),
                })
            },
            Type::StructDef(s) => Type::StructDef(StructType { inner: Box::new(s.inner.dup()) }),
            Type::TupleOf(t) => {
                let types = dup_type_list(&t.types, 0);
                assert(t.types@.subrange(0, t.types@.len() as int) =~= t.types@);
                Type::TupleOf(TupleType { paren1_tok: t.paren1_tok.dup(), types, paren2_tok: t.paren2_tok.dup() })
            },
        }
    }
}

impl StructStmt {
    /// A copy of this structure declaration.
    pub fn dup(&self) -> (r: Self)
        ensures
            struct_v(r) == struct_v(*self),
        decreases self, 0int,
    {
        let fields = dup_fields(&self.fields, 0);
        let methods = dup_methods(&self.methods, 0);
        assert(self.fields@.subrange(0, self.fields@.len() as int) =~= self.fields@);
        assert(self.methods@.subrange(0, self.methods@.len() as int) =~= self.methods@);
        StructStmt {
            struct_tkn: self.struct_tkn.dup(),
            name: self.name.dup(),
            brace1_tkn: self.brace1_tkn.dup(),
            fields,
            methods,
            brace2_tkn: self.brace2_tkn.dup(),
            symbol_id: self.symbol_id,
            fut_scope: self.fut_scope,
        }
    }
}

impl MethodDeclStmt {
    /// A copy of this method declaration.
    pub fn dup(&self) -> (r: Self)
        ensures
            method_v(r) == method_v(*self),
        decreases self, 0int,
    {
        let params = dup_params(&self.params, 0);
        assert(self.params@.subrange(0, self.params@.len() as int) =~= self.params@);
        MethodDeclStmt {
            fn_tkn: self.fn_tkn.dup(),
            name: self.name.dup(),
            l_paren: self.l_paren.dup(),
            params,
            r_paren: self.r_paren.dup(),
            arrow_tkn: dup_opt_ctx(&self.arrow_tkn),
            return_type: dup_opt_type(&self.return_type),
            block: Box::new(self.block.dup()),
            symbol_id: self.symbol_id,
            fut_scope: self.fut_scope,
        }
    }
}

impl Expr {
    /// A copy of this expression.
    pub fn dup(&self) -> (r: Self)
        ensures
            expr_v(r) == expr_v(*self),
        decreases self, 0int,
    {
        match self {
            Expr::Unary(x) => Expr::Unary(UnaryExpr { op: x.op, op_tkn: x.op_tkn.dup(), expr: Box::new(x.expr.dup()) }),
            Expr::Binary(x) => Expr::Binary(BinExpr {
                lhs: Box::new(x.lhs.dup()),
                op: x.op,
                op_tkn: x.op_tkn.dup(),
                rhs: Box::new(x.rhs.dup()),
            }),
            Expr::FnCall(x) => {
                let args = dup_expr_list(&x.args, 0);
                assert(x.args@.subrange(0, x.args@.len() as int) =~= x.args@);
                Expr::FnCall(FnCallExpr { ident: x.ident.dup(), open_tkn: x.open_tkn.dup(), args, close_tkn: x.close_tkn.dup() })
            },
            Expr::Access(x) => Expr::Access(AccessExpr {
                parent: Box::new(x.parent.dup()),
                dot_tkn: x.dot_tkn.dup(),
                child: x.child.dup(),
            }),
            Expr::Variable(x) => Expr::Variable(VarExpr { ident: x.ident.dup() }),
            Expr::Literal(x) => Expr::Literal(LitExpr { lit: x.lit.dup(), lit_tkn: x.lit_tkn.dup() }),
            Expr::Index(x) => Expr::Index(IndexExpr {
                array: Box::new(x.array.dup()),
                open_tkn: x.open_tkn.dup(),
                index: Box::new(x.index.dup()),
                close_tkn: x.close_tkn.dup(),
            }),
            Expr::Ternary(x) => Expr::Ternary(TernaryExpr {
                cond: Box::new(x.cond.dup()),
                question_tkn: x.question_tkn.dup(),
                yes: Box::new(x.yes.dup()),
                colon_tkn: x.colon_tkn.dup(),
                no: Box::new(x.no.dup()),
            }),
            Expr::PreFix(x) => Expr::PreFix(PreFixExpr { op: x.op, op_tkn: x.op_tkn.dup(), expr: Box::new(x.expr.dup()) }),
            Expr::PostFix(x) => Expr::PostFix(PostFixExpr { op: x.op, op_tkn: x.op_tkn.dup(), expr: Box::new(x.expr.dup()) }),
            Expr::Tuple(x) => {
                let args = dup_expr_list(&x.args, 0);
                assert(x.args@.subrange(0, x.args@.len() as int) =~= x.args@);
                Expr::Tuple(TupleExpr { open_tkn: x.open_tkn.dup(), args, close_tkn: x.close_tkn.dup() })
            },
            Expr::Array(x) => {
                let args = dup_expr_list(&x.args, 0);
                assert(x.args@.subrange(0, x.args@.len() as int) =~= x.args@);
                Expr::Array(ArrayExpr { open_tkn: x.open_tkn.dup(), args, close_tkn: x.close_tkn.dup() })
            },
            Expr::Block(x) => {
                let block = dup_stmts(&x.block, 0);
                assert(x.block@.subrange(0, x.block@.len() as int) =~= x.block@);
                Expr::Block(BlockExpr { open_tkn: x.open_tkn.dup(), block, close_tkn: x.close_tkn.dup(), fut_scope: x.fut_scope })
            },
            Expr::Assign(x) => Expr::Assign(AssignExpr {
                lhs: Box::new(x.lhs.dup()),
                eq_tkn: x.eq_tkn.dup(),
                rhs: Box::new(x.rhs.dup()),
            }),
            Expr::Nonuniform(x) => Expr::Nonuniform(NonuniformExpr {
                nonuniform_tkn: x.nonuniform_tkn.dup(),
                expr: Box::new(x.expr.dup()),
            }),
            Expr::TupleAccess(x) => Expr::TupleAccess(TupleAccessExpr { tuple: Box::new(x.tuple.dup()), component: x.component }),
            Expr::AccessFnCall(x) => {
                let args = dup_expr_list(&x.args, 0);
                assert(x.args@.subrange(0, x.args@.len() as int) =~= x.args@);
                Expr::AccessFnCall(AccessFnCallExpr {
                    parent: Box::new(x.parent.dup()),
                    ident: x.ident.dup(),
                    open_tkn: x.open_tkn.dup(),
                    args,
                    close_tkn: x.close_tkn.dup(),
                })
            },
            Expr::This(x) => Expr::This(ThisExpr { this_tkn: x.this_tkn.dup() }),
            Expr::As(x) => Expr::As(AsExpr { expr: Box::new(x.expr.dup()), as_tkn: x.as_tkn.dup(), ty: x.ty.dup() }),
            Expr::Construct(x) => {
                let fields = dup_field_list(&x.fields, 0);
                assert(x.fields@.subrange(0, x.fields@.len() as int) =~= x.fields@);
                Expr::Construct(ConstructExpr {
                    name: x.name.dup(),
                    brace1_tkn: x.brace1_tkn.dup(),
                    fields,
                    brace2_tkn: x.brace2_tkn.dup(),
                })
            },
        }
    }
}

impl Stmt {
    /// A copy of this statement.
    pub fn dup(&self) -> (r: Self)
        ensures
            stmt_v(r) == stmt_v(*self),
        decreases self, 0int,
    {
        match self {
            Stmt::If(x) => dup_stmt_if(x),
            Stmt::For(x) => dup_stmt_for(x),
            Stmt::While(x) => dup_stmt_while(x),
            Stmt::MethodDecl(x) => dup_stmt_methoddecl(x),
            Stmt::VarDecl(x) => dup_stmt_vardecl(x),
            Stmt::Return(x) => dup_stmt_return(x),
            Stmt::Yield(x) => dup_stmt_yield(x),
            Stmt::Break(x) => dup_stmt_break(x),
            Stmt::Continue(x) => dup_stmt_continue(x),
            Stmt::Include(x) => dup_stmt_include(x),
            Stmt::Extension(x) => dup_stmt_extension(x),
            Stmt::Input(x) => dup_stmt_input(x),
            Stmt::Output(x) => dup_stmt_output(x),
            Stmt::Provide(x) => dup_stmt_provide(x),
            Stmt::PushConstants(x) => dup_stmt_pushconstants(x),
            Stmt::Uniform(x) => dup_stmt_uniform(x),
            Stmt::Struct(x) => dup_stmt_struct(x),
            Stmt::Block(x) => dup_stmt_block(x),
            Stmt::Compound(x) => dup_stmt_compound(x),
            Stmt::Expr(x) => dup_stmt_expr(x),
            Stmt::Semi(x) => dup_stmt_semi(x),
        }
    }
}

fn dup_stmt_if(x: &IfStmt) -> (r: Stmt)
    ensures
        stmt_v(r) == stmt_v(Stmt::If(*x)),
    decreases x, 0int,
{
    {
                let else_branch = dup_opt_stmt(&x.else_branch);
                Stmt::If(IfStmt {
                    if_tkn: x.if_tkn.dup(),
                    l_paren: x.l_paren.dup(),
                    cond: x.cond.dup(),
                    r_paren: x.r_paren.dup(),
                    branch: Box::new(x.branch.dup()),
                    else_tkn: dup_opt_ctx(&x.else_tkn),
                    else_branch,
                })
            }
}

fn dup_stmt_for(x: &ForStmt) -> (r: Stmt)
    ensures
        stmt_v(r) == stmt_v(Stmt::For(*x)),
    decreases x, 0int,
{
    Stmt::For(ForStmt {
                for_tkn: x.for_tkn.dup(),
                l_paren: x.l_paren.dup(),
                start_cond: dup_opt_expr(&x.start_cond),
                semi1_tkn: x.semi1_tkn.dup(),
                cond: dup_opt_expr(&x.cond),
                semi2_tkn: x.semi2_tkn.dup(),
                after_run: dup_opt_expr(&x.after_run),
                r_paren: x.r_paren.dup(),
                block: Box::new(x.block.dup()),
                fut_scope: x.fut_scope,
            })
}

fn dup_stmt_while(x: &WhileStmt) -> (r: Stmt)
    ensures
        stmt_v(r) == stmt_v(Stmt::While(*x)),
    decreases x, 0int,
{
    Stmt::While(WhileStmt {
                while_tkn: x.while_tkn.dup(),
                l_paren: x.l_paren.dup(),
                cond: x.cond.dup(),
                r_paren: x.r_paren.dup(),
                block: Box::new(x.block.dup()),
            })
}

fn dup_stmt_methoddecl(x: &MethodDeclStmt) -> (r: Stmt)
    ensures
        stmt_v(r) == stmt_v(Stmt::MethodDecl(*x)),
    decreases x, 1int,
{
    Stmt::MethodDecl(x.dup())
}

fn dup_stmt_vardecl(x: &VarDeclStmt) -> (r: Stmt)
    ensures
        stmt_v(r) == stmt_v(Stmt::VarDecl(*x)),
    decreases x, 0int,
{
    Stmt::VarDecl(VarDeclStmt {
                kw_tkn: x.kw_tkn.dup(),
                name: x.name.dup(),
                colon_tkn: dup_opt_ctx(&x.colon_tkn),
                ty: dup_opt_type(&x.ty),
                eq_tkn: dup_opt_ctx(&x.eq_tkn),
                init: dup_opt_expr(&x.init),
                semi_tkn: x.semi_tkn.dup(),
                cnst: x.cnst,
            })
}

fn dup_stmt_return(x: &ReturnStmt) -> (r: Stmt)
    ensures
        stmt_v(r) == stmt_v(Stmt::Return(*x)),
    decreases x, 0int,
{
    Stmt::Return(ReturnStmt {
                return_tkn: x.return_tkn.dup(),
                expr: dup_opt_expr(&x.expr),
                semi_tkn: x.semi_tkn.dup(),
            })
}

fn dup_stmt_yield(x: &YieldStmt) -> (r: Stmt)
    ensures
        stmt_v(r) == stmt_v(Stmt::Yield(*x)),
    decreases x, 0int,
{
    Stmt::Yield(YieldStmt { yield_tkn: x.yield_tkn.dup(), expr: x.expr.dup(), semi_tkn: x.semi_tkn.dup() })
}

fn dup_stmt_break(x: &BreakStmt) -> (r: Stmt)
    ensures
        stmt_v(r) == stmt_v(Stmt::Break(*x)),
    decreases x, 0int,
{
    Stmt::Break(BreakStmt { break_tkn: x.break_tkn.dup() })
}

fn dup_stmt_continue(x: &ContinueStmt) -> (r: Stmt)
    ensures
        stmt_v(r) == stmt_v(Stmt::Continue(*x)),
    decreases x, 0int,
{
    Stmt::Continue(ContinueStmt { continue_tkn: x.continue_tkn.dup() })
}

fn dup_stmt_include(x: &IncludeStmt) -> (r: Stmt)
    ensures
        stmt_v(r) == stmt_v(Stmt::Include(*x)),
    decreases x, 0int,
{
    Stmt::Include(IncludeStmt { include_tkn: x.include_tkn.dup(), path: x.path.dup(), semi_tkn: x.semi_tkn.dup() })
}

fn dup_stmt_extension(x: &ExtensionStmt) -> (r: Stmt)
    ensures
        stmt_v(r) == stmt_v(Stmt::Extension(*x)),
    decreases x, 0int,
{
    Stmt::Extension(ExtensionStmt {
                mods: x.mods.dup(),
                extension: x.extension.dup(),
                semi_tkn: x.semi_tkn.dup(),
            })
}

fn dup_stmt_input(x: &InputStmt) -> (r: Stmt)
    ensures
        stmt_v(r) == stmt_v(Stmt::Input(*x)),
    decreases x, 0int,
{
    Stmt::Input(InputStmt {
                input_tkn: x.input_tkn.dup(),
                ty: x.ty.dup(),
                colon_tkn: x.colon_tkn.dup(),
                name: x.name.dup(),
                mods: x.mods.dup(),
                semi_tkn: x.semi_tkn.dup(),
            })
}

fn dup_stmt_output(x: &OutputStmt) -> (r: Stmt)
    ensures
        stmt_v(r) == stmt_v(Stmt::Output(*x)),
    decreases x, 0int,
{
    Stmt::Output(OutputStmt {
                output_tkn: x.output_tkn.dup(),
                ty: x.ty.dup(),
                name: x.name.dup(),
                semi_tkn: x.semi_tkn.dup(),
            })
}

fn dup_stmt_provide(x: &ProvideStmt) -> (r: Stmt)
    ensures
        stmt_v(r) == stmt_v(Stmt::Provide(*x)),
    decreases x, 0int,
{
    Stmt::Provide(ProvideStmt {
                provide_tkn: x.provide_tkn.dup(),
                ty: x.ty.dup(),
                colon_tkn: x.colon_tkn.dup(),
                name: x.name.dup(),
                mods: x.mods.dup(),
                semi_tkn: x.semi_tkn.dup(),
            })
}

fn dup_stmt_pushconstants(x: &PushConstantsStmt) -> (r: Stmt)
    ensures
        stmt_v(r) == stmt_v(Stmt::PushConstants(*x)),
    decreases x, 0int,
{
    Stmt::PushConstants(PushConstantsStmt {
                pc_tkn: x.pc_tkn.dup(),
                name: x.name.dup(),
                colon_tkn: x.colon_tkn.dup(),
                ty: x.ty.dup(),
                semi_tkn: x.semi_tkn.dup(),
            })
}

fn dup_stmt_uniform(x: &UniformStmt) -> (r: Stmt)
    ensures
        stmt_v(r) == stmt_v(Stmt::Uniform(*x)),
    decreases x, 0int,
{
    Stmt::Uniform(UniformStmt {
                uniform_tkn: x.uniform_tkn.dup(),
                name: x.name.dup(),
                colon_tkn: x.colon_tkn.dup(),
                ty: x.ty.dup(),
                set_tkn: x.set_tkn.dup(),
                set_eq_tkn: x.set_eq_tkn.dup(),
                set_lit_tkn: x.set_lit_tkn.dup(),
                set: x.set,
                binding_tkn: x.binding_tkn.dup(),
                binding_eq_tkn: x.binding_eq_tkn.dup(),
                binding_lit_tkn: x.binding_lit_tkn.dup(),
                binding: x.binding,
                mods: x.mods.dup(),
                uniform_type: x.uniform_type,
                semi_tkn: x.semi_tkn.dup(),
            })
}

fn dup_stmt_struct(x: &StructStmt) -> (r: Stmt)
    ensures
        stmt_v(r) == stmt_v(Stmt::Struct(*x)),
    decreases x, 1int,
{
    Stmt::Struct(x.dup())
}

fn dup_stmt_block(x: &BlockStmt) -> (r: Stmt)
    ensures
        stmt_v(r) == stmt_v(Stmt::Block(*x)),
    decreases x, 0int,
{
    {
                let stmts = dup_stmts(&x.stmts, 0);
                assert(x.stmts@.subrange(0, x.stmts@.len() as int) =~= x.stmts@);
                Stmt::Block(BlockStmt { l_brace: x.l_brace.dup(), stmts, r_brace: x.r_brace.dup(), fut_scope: x.fut_scope })
            }
}

fn dup_stmt_compound(x: &CompoundStmt) -> (r: Stmt)
    ensures
        stmt_v(r) == stmt_v(Stmt::Compound(*x)),
    decreases x, 0int,
{
    {
                let components = dup_stmts(&x.components, 0);
                assert(x.components@.subrange(0, x.components@.len() as int) =~= x.components@);
                Stmt::Compound(CompoundStmt { components })
            }
}

fn dup_stmt_expr(x: &ExprStmt) -> (r: Stmt)
    ensures
        stmt_v(r) == stmt_v(Stmt::Expr(*x)),
    decreases x, 0int,
{
    Stmt::Expr(ExprStmt { expr: x.expr.dup(), semi_tkn: x.semi_tkn.dup() })
}

fn dup_stmt_semi(x: &SemiStmt) -> (r: Stmt)
    ensures
        stmt_v(r) == stmt_v(Stmt::Semi(*x)),
    decreases x, 0int,
{
    Stmt::Semi(SemiStmt { semi_tkn: x.semi_tkn.dup() })
}

} // verus!
