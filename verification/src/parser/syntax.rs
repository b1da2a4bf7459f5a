//! The syntax tree as mathematical values: names by their characters,
//! positions left out.
use vstd::prelude::*;
use crate::token::{Operator, TokenKind, TokCtx};
use crate::parser::ast::{Ident, Type, Expr, Stmt, FieldInit, MethodParamDecl, StructField, MethodDeclStmt, StructStmt, PrimitiveType, UniformType};
use crate::parser::mods::Modifier;

verus! {

/// A type.
pub enum TypeV {
    Primitive(PrimitiveType),
    Single(Seq<char>),
    Path(Seq<Seq<char>>, Seq<char>),
    Array(Box<TypeV>, Option<Box<ExprV>>),
    StructDef(Box<StmtV>),
    Tuple(Seq<(TypeV, bool)>),
}

/// An expression; list elements carry whether a separator followed them.
pub enum ExprV {
    Unary(Operator, Box<ExprV>),
    Binary(Box<ExprV>, Operator, Box<ExprV>),
    FnCall(Seq<char>, Seq<(ExprV, bool)>),
    Access(Box<ExprV>, Seq<char>),
    Variable(Seq<char>),
    Literal(TokenKind),
    Index(Box<ExprV>, Box<ExprV>),
    Ternary(Box<ExprV>, Box<ExprV>, Box<ExprV>),
    PreFix(Operator, Box<ExprV>),
    PostFix(Operator, Box<ExprV>),
    Tuple(Seq<(ExprV, bool)>),
    Array(Seq<(ExprV, bool)>),
    Block(Seq<StmtV>),
    Assign(Box<ExprV>, Box<ExprV>),
    Nonuniform(Box<ExprV>),
    TupleAccess(Box<ExprV>, u32),
    AccessFnCall(Box<ExprV>, Seq<char>, Seq<(ExprV, bool)>),
    This,
    As(Box<ExprV>, TypeV),
    Construct(Seq<char>, Seq<(Seq<char>, ExprV, bool)>),
}

/// A statement. A method lists its parameters with their types and
/// whether a comma followed; a structure lists its fields and its methods.
pub enum StmtV {
    If(ExprV, Box<StmtV>, Option<Box<StmtV>>),
    For(Option<ExprV>, Option<ExprV>, Option<ExprV>, Box<StmtV>),
    While(ExprV, Box<StmtV>),
    MethodDecl(Seq<char>, Seq<(Seq<char>, TypeV, bool)>, Option<TypeV>, Box<StmtV>),
    VarDecl(Seq<char>, Option<TypeV>, Option<ExprV>, bool),
    Return(Option<ExprV>),
    Yield(ExprV),
    Break,
    Continue,
    Include(TypeV),
    Extension(Map<Seq<char>, Modifier>, Seq<char>),
    Input(TypeV, Seq<char>, Map<Seq<char>, Modifier>),
    Output(TypeV, Seq<char>),
    Provide(TypeV, Seq<char>, Map<Seq<char>, Modifier>),
    PushConstants(Seq<char>, TypeV),
    Uniform(Seq<char>, TypeV, u32, u32, Map<Seq<char>, Modifier>, UniformType),
    Struct(Seq<char>, Seq<(Seq<char>, TypeV)>, Seq<StmtV>),
    Block(Seq<StmtV>),
    Compound(Seq<StmtV>),
    Expr(ExprV),
    Semi,
}

pub open spec fn idents_v(s: Seq<Ident>) -> Seq<Seq<char>> {
    s.map_values(|i: Ident| i.val@)
}

pub open spec fn type_v(t: Type) -> TypeV
    decreases t,
{
    match t {
        Type::Primitive(p, _) => TypeV::Primitive(p),
        Type::SingleType(s) => TypeV::Single(s.name@),
        Type::PathType(p) => TypeV::Path(idents_v(p.path_parts@), p.name.val@),
        Type::ArrayOf(a) => TypeV::Array(
            Box::new(type_v(*a.component)),
            match a.dimension {
                Some(d) => Some(Box::new(expr_v(*d))),
                None => None,
            },
        ),
        Type::StructDef(s) => TypeV::StructDef(Box::new(struct_v(*s.inner))),
        Type::TupleOf(tt) => TypeV::Tuple(type_list_v(tt.types@)),
    }
}

pub open spec fn type_list_v(s: Seq<(Type, Option<TokCtx>)>) -> Seq<(TypeV, bool)>
    decreases s,
{
    if s.len() == 0 {
        seq![]
    } else {
        seq![(type_v(s[0].0), s[0].1 is Some)] + type_list_v(s.drop_first())
    }
}

pub open spec fn opt_type_v(t: Option<Type>) -> Option<TypeV>
    decreases t,
{
    match t {
        Some(x) => Some(type_v(x)),
        None => None,
    }
}

pub open spec fn expr_list_v(s: Seq<(Expr, Option<TokCtx>)>) -> Seq<(ExprV, bool)>
    decreases s,
{
    if s.len() == 0 {
        seq![]
    } else {
        seq![(expr_v(s[0].0), s[0].1 is Some)] + expr_list_v(s.drop_first())
    }
}

pub open spec fn field_list_v(s: Seq<(FieldInit, Option<TokCtx>)>) -> Seq<(Seq<char>, ExprV, bool)>
    decreases s,
{
    if s.len() == 0 {
        seq![]
    } else {
        seq![(s[0].0.name.val@, expr_v(*s[0].0.expr), s[0].1 is Some)] + field_list_v(s.drop_first())
    }
}

pub open spec fn opt_expr_v(e: Option<Expr>) -> Option<ExprV>
    decreases e,
{
    match e {
        Some(x) => Some(expr_v(x)),
        None => None,
    }
}

pub open spec fn expr_v(e: Expr) -> ExprV
    decreases e,
{
    match e {
        Expr::Unary(x) => ExprV::Unary(x.op, Box::new(expr_v(*x.expr))),
        Expr::Binary(x) => ExprV::Binary(Box::new(expr_v(*x.lhs)), x.op, Box::new(expr_v(*x.rhs))),
        Expr::FnCall(x) => ExprV::FnCall(x.ident.val@, expr_list_v(x.args@)),
        Expr::Access(x) => ExprV::Access(Box::new(expr_v(*x.parent)), x.child.val@),
        Expr::Variable(x) => ExprV::Variable(x.ident.val@),
        Expr::Literal(x) => ExprV::Literal(crate::token::TokenType::Literal(x.lit)@),
        Expr::Index(x) => ExprV::Index(Box::new(expr_v(*x.array)), Box::new(expr_v(*x.index))),
        Expr::Ternary(x) => ExprV::Ternary(
            Box::new(expr_v(*x.cond)),
            Box::new(expr_v(*x.yes)),
            Box::new(expr_v(*x.no)),
        ),
        Expr::PreFix(x) => ExprV::PreFix(x.op, Box::new(expr_v(*x.expr))),
        Expr::PostFix(x) => ExprV::PostFix(x.op, Box::new(expr_v(*x.expr))),
        Expr::Tuple(x) => ExprV::Tuple(expr_list_v(x.args@)),
        Expr::Array(x) => ExprV::Array(expr_list_v(x.args@)),
        Expr::Block(x) => ExprV::Block(stmts_v(x.block@)),
        Expr::Assign(x) => ExprV::Assign(Box::new(expr_v(*x.lhs)), Box::new(expr_v(*x.rhs))),
        Expr::Nonuniform(x) => ExprV::Nonuniform(Box::new(expr_v(*x.expr))),
        Expr::TupleAccess(x) => ExprV::TupleAccess(Box::new(expr_v(*x.tuple)), x.component),
        Expr::AccessFnCall(x) => ExprV::AccessFnCall(
            Box::new(expr_v(*x.parent)),
            x.ident.val@,
            expr_list_v(x.args@),
        ),
        Expr::This(_) => ExprV::This,
        Expr::As(x) => ExprV::As(Box::new(expr_v(*x.expr)), type_v(x.ty)),
        Expr::Construct(x) => ExprV::Construct(x.name.val@, field_list_v(x.fields@)),
    }
}

pub open spec fn stmts_v(s: Seq<Stmt>) -> Seq<StmtV>
    decreases s,
{
    if s.len() == 0 {
        seq![]
    } else {
        seq![stmt_v(s[0])] + stmts_v(s.drop_first())
    }
}

pub open spec fn params_v(s: Seq<MethodParamDecl>) -> Seq<(Seq<char>, TypeV, bool)>
    decreases s,
{
    if s.len() == 0 {
        seq![]
    } else {
        seq![(s[0].name.val@, type_v(s[0].ty), s[0].comma_tkn is Some)] + params_v(s.drop_first())
    }
}

pub open spec fn fields_v(s: Seq<StructField>) -> Seq<(Seq<char>, TypeV)>
    decreases s,
{
    if s.len() == 0 {
        seq![]
    } else {
        seq![(s[0].name.val@, type_v(s[0].ty))] + fields_v(s.drop_first())
    }
}

pub open spec fn method_v(m: MethodDeclStmt) -> StmtV
    decreases m,
{
    StmtV::MethodDecl(m.name.val@, params_v(m.params@), opt_type_v(m.return_type), Box::new(stmt_v(*m.block)))
}

pub open spec fn methods_v(s: Seq<MethodDeclStmt>) -> Seq<StmtV>
    decreases s,
{
    if s.len() == 0 {
        seq![]
    } else {
        seq![method_v(s[0])] + methods_v(s.drop_first())
    }
}

pub open spec fn struct_v(s: StructStmt) -> StmtV
    decreases s,
{
    StmtV::Struct(s.name.val@, fields_v(s.fields@), methods_v(s.methods@))
}

pub open spec fn opt_stmt_v(s: Option<Box<Stmt>>) -> Option<Box<StmtV>>
    decreases s,
{
    match s {
        Some(b) => Some(Box::new(stmt_v(*b))),
        None => None,
    }
}

pub open spec fn stmt_v(s: Stmt) -> StmtV
    decreases s,
{
    match s {
        Stmt::If(x) => StmtV::If(expr_v(x.cond), Box::new(stmt_v(*x.branch)), opt_stmt_v(x.else_branch)),
        Stmt::For(x) => StmtV::For(
            opt_expr_v(x.start_cond),
            opt_expr_v(x.cond),
            opt_expr_v(x.after_run),
            Box::new(stmt_v(*x.block)),
        ),
        Stmt::While(x) => StmtV::While(expr_v(x.cond), Box::new(stmt_v(*x.block))),
        Stmt::MethodDecl(x) => method_v(x),
        Stmt::VarDecl(x) => StmtV::VarDecl(x.name.val@, opt_type_v(x.ty), opt_expr_v(x.init), x.cnst),
        Stmt::Return(x) => StmtV::Return(opt_expr_v(x.expr)),
        Stmt::Yield(x) => StmtV::Yield(expr_v(x.expr)),
        Stmt::Break(_) => StmtV::Break,
        Stmt::Continue(_) => StmtV::Continue,
        Stmt::Include(x) => StmtV::Include(type_v(x.path)),
        Stmt::Extension(x) => StmtV::Extension(x.mods.found_map(), x.extension.val@),
        Stmt::Input(x) => StmtV::Input(type_v(x.ty), x.name.val@, x.mods.found_map()),
        Stmt::Output(x) => StmtV::Output(type_v(x.ty), x.name.val@),
        Stmt::Provide(x) => StmtV::Provide(type_v(x.ty), x.name.val@, x.mods.found_map()),
        Stmt::PushConstants(x) => StmtV::PushConstants(x.name.val@, type_v(x.ty)),
        Stmt::Uniform(x) => StmtV::Uniform(x.name.val@, type_v(x.ty), x.set, x.binding, x.mods.found_map(), x.uniform_type),
        Stmt::Struct(x) => struct_v(x),
        Stmt::Block(x) => StmtV::Block(stmts_v(x.stmts@)),
        Stmt::Compound(x) => StmtV::Compound(stmts_v(x.components@)),
        Stmt::Expr(x) => StmtV::Expr(expr_v(x.expr)),
        Stmt::Semi(_) => StmtV::Semi,
    }
}

} // verus!
