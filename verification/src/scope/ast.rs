//! The parts of the resolved syntax tree that refer to symbols.
use vstd::prelude::*;
use crate::token::TokCtx;
use crate::parser::ast::{PrimitiveType, SymbolId, ScopeId, UniformType};
use crate::token::{Literal, Operator};
use crate::parser::mods::ResMods;
use crate::scope::SymbolName;

verus! {

/// A name together with the symbol it was resolved to.
#[derive(Clone, Debug)]
pub struct Ident {
    pub val: String,
    pub tkn: TokCtx,
    pub symbol: SymbolId,
}

impl Ident {
    /// The name `old`, resolved to `symbol`.
    pub fn convert(old: crate::parser::ast::Ident, symbol: SymbolId) -> (r: Self)
        ensures
            r.val == old.val,
            r.tkn == old.tkn,
            r.symbol == symbol,
    {
        Ident { val: old.val, tkn: old.tkn, symbol }
    }

    /// The name `old`, which refers to no symbol (the largest id marks that).
    pub fn plain(old: crate::parser::ast::Ident) -> (r: Self)
        ensures
            r.val == old.val,
            r.tkn == old.tkn,
            r.symbol == u64::MAX,
    {
        Ident { val: old.val, tkn: old.tkn, symbol: u64::MAX }
    }
}

impl SymbolName for crate::parser::ast::Ident {
    open spec fn name_view(&self) -> Seq<char> {
        self.val@
    }

    fn get_name(&self) -> (r: &String) {
        &self.val
    }

    open spec fn error_pos(&self) -> (u32, u32, u32) {
        (self.tkn.line, self.tkn.start_pos, self.tkn.end_pos)
    }

    fn get_error_token(&self) -> (r: TokCtx) {
        self.tkn.dup()
    }
}

/// A built-in type, where it was written. Two are equal when the types are.
#[derive(Clone, Debug)]
pub struct PrimitiveRef {
    pub ty: PrimitiveType,
    pub tkn: TokCtx,
}

impl PartialEq for PrimitiveRef {
    fn eq(&self, other: &Self) -> (r: bool) {
        self.ty == other.ty
    }
}

impl vstd::std_specs::cmp::PartialEqSpecImpl for PrimitiveRef {
    open spec fn obeys_eq_spec() -> bool {
        true
    }

    open spec fn eq_spec(&self, other: &Self) -> bool {
        self.ty == other.ty
    }
}

/// A use of a declared structure type. Two are equal when they name the
/// same symbol.
#[derive(Clone, Debug)]
pub struct StructRef {
    pub sym: SymbolId,
    pub name_tkn: TokCtx,
}

impl PartialEq for StructRef {
    fn eq(&self, other: &Self) -> (r: bool) {
        self.sym == other.sym
    }
}

impl vstd::std_specs::cmp::PartialEqSpecImpl for StructRef {
    open spec fn obeys_eq_spec() -> bool {
        true
    }

    open spec fn eq_spec(&self, other: &Self) -> bool {
        self.sym == other.sym
    }
}

/// A structure declared where a type is expected. Two are equal when they
/// declare the same symbol.
#[derive(Clone, Debug)]
pub struct StructDef {
    pub sym: SymbolId,
    pub struct_tkn: TokCtx,
    pub name_tkn: TokCtx,
    pub brace1_tkn: TokCtx,
    pub brace2_tkn: TokCtx,
}

impl PartialEq for StructDef {
    fn eq(&self, other: &Self) -> (r: bool) {
        self.sym == other.sym
    }
}

impl vstd::std_specs::cmp::PartialEqSpecImpl for StructDef {
    open spec fn obeys_eq_spec() -> bool {
        true
    }

    open spec fn eq_spec(&self, other: &Self) -> bool {
        self.sym == other.sym
    }
}

#[derive(Clone, Debug)]
pub struct BreakStmt {
    pub break_tkn: TokCtx,
}

#[derive(Clone, Debug)]
pub struct ContinueStmt {
    pub continue_tkn: TokCtx,
}

/// A constant declaration, by the symbol it declares.
#[derive(Clone, Debug)]
pub struct ConstDeclStmt {
    pub symbol: SymbolId,
}

/// A variable declaration, by the symbol it declares.
#[derive(Clone, Debug)]
pub struct VarDeclStmt {
    pub symbol: SymbolId,
}

#[derive(Clone, Debug)]
pub struct ExtensionStmt {
    pub mods: ResMods,
    pub extension: Ident,
    pub semi_tkn: TokCtx,
}

#[derive(Clone, Debug)]
pub struct SemiStmt {
    pub semi_tkn: TokCtx,
}

impl SymbolName for crate::parser::ast::SingleType {
    open spec fn name_view(&self) -> Seq<char> {
        self.name@
    }

    fn get_name(&self) -> (r: &String) {
        &self.name
    }

    open spec fn error_pos(&self) -> (u32, u32, u32) {
        (self.tkn.line, self.tkn.start_pos, self.tkn.end_pos)
    }

    fn get_error_token(&self) -> (r: TokCtx) {
        self.tkn.dup()
    }
}

/// A type whose names were resolved.
#[derive(Debug)]
pub enum Type {
    Primitive(PrimitiveRef),
    StructRef(StructRef),
    ArrayOf(ArrayType),
    Tuple(TupleDef),
    StructDef(StructDef),
}

/// An array of a component type, with its length expression if written.
#[derive(Debug)]
pub struct ArrayType {
    pub component: Box<Type>,
    pub brack1_tkn: TokCtx,
    pub dimension: Option<Box<Expr>>,
    pub brack2_tkn: TokCtx,
}

/// A tuple of types.
#[derive(Debug)]
pub struct TupleDef {
    pub paren1_tok: TokCtx,
    pub types: Vec<(Type, Option<TokCtx>)>,
    pub paren2_tok: TokCtx,
}

/// An expression whose names were resolved.
#[derive(Debug)]
pub enum Expr {
    Unary(UnaryExpr),
    Binary(BinExpr),
    FnCall(FnCallExpr),
    Constructor(FnCallExpr),
    Access(AccessExpr),
    Variable(VarExpr),
    Literal(LitExpr),
    Index(IndexExpr),
    Ternary(TernaryExpr),
    PreFix(UnaryExpr),
    PostFix(UnaryExpr),
    Tuple(TupleExpr),
    Array(TupleExpr),
    Block(BlockExpr),
    Assign(AssignExpr),
    Nonuniform(NonuniformExpr),
    TupleAccess(TupleAccessExpr),
    AccessFnCall(AccessFnCallExpr),
    This(ThisExpr),
    As(AsExpr),
    Construct(ConstructExpr),
}

/// An operator applied to one operand (also the prefix and postfix forms).
#[derive(Debug)]
pub struct UnaryExpr {
    pub op: Operator,
    pub op_tkn: TokCtx,
    pub expr: Box<Expr>,
}

#[derive(Debug)]
pub struct BinExpr {
    pub op: Operator,
    pub op_tkn: TokCtx,
    pub lhs: Box<Expr>,
    pub rhs: Box<Expr>,
}

/// A call of a function, or of a structure's name to build one.
#[derive(Debug)]
pub struct FnCallExpr {
    pub ident: Ident,
    pub open_tkn: TokCtx,
    pub args: Vec<(Expr, Option<TokCtx>)>,
    pub close_tkn: TokCtx,
}

#[derive(Debug)]
pub struct AccessExpr {
    pub parent: Box<Expr>,
    pub dot_tkn: TokCtx,
    pub child: Ident,
}

#[derive(Debug)]
pub struct VarExpr {
    pub ident: Ident,
}

#[derive(Debug)]
pub struct LitExpr {
    pub lit: Literal,
    pub lit_tkn: TokCtx,
}

#[derive(Debug)]
pub struct IndexExpr {
    pub array: Box<Expr>,
    pub open_tkn: TokCtx,
    pub index: Box<Expr>,
    pub close_tkn: TokCtx,
}

#[derive(Debug)]
pub struct TernaryExpr {
    pub cond: Box<Expr>,
    pub question_tkn: TokCtx,
    pub yes: Box<Expr>,
    pub colon_tkn: TokCtx,
    pub no: Box<Expr>,
}

/// A tuple or array of values.
#[derive(Debug)]
pub struct TupleExpr {
    pub open_tkn: TokCtx,
    pub args: Vec<(Expr, Option<TokCtx>)>,
    pub close_tkn: TokCtx,
}

/// A block of statements in its own scope.
#[derive(Debug)]
pub struct BlockExpr {
    pub open_tkn: TokCtx,
    pub scope: ScopeId,
    pub block: Vec<Stmt>,
    pub close_tkn: TokCtx,
}

#[derive(Debug)]
pub struct AssignExpr {
    pub lhs: Box<Expr>,
    pub eq_tkn: TokCtx,
    pub rhs: Box<Expr>,
}

#[derive(Debug)]
pub struct NonuniformExpr {
    pub nonuniform_tkn: TokCtx,
    pub expr: Box<Expr>,
}

#[derive(Debug)]
pub struct TupleAccessExpr {
    pub tuple: Box<Expr>,
    pub component: u32,
}

#[derive(Debug)]
pub struct AccessFnCallExpr {
    pub parent: Box<Expr>,
    pub ident: Ident,
    pub open_tkn: TokCtx,
    pub args: Vec<(Expr, Option<TokCtx>)>,
    pub close_tkn: TokCtx,
}

#[derive(Debug)]
pub struct ThisExpr {
    pub this_tkn: TokCtx,
}

#[derive(Debug)]
pub struct AsExpr {
    pub expr: Box<Expr>,
    pub as_tkn: TokCtx,
    pub target_ty: Type,
}

/// A structure built from named values, `S { a: 1 }`.
#[derive(Debug)]
pub struct ConstructExpr {
    pub name: Ident,
    pub brace1_tkn: TokCtx,
    pub fields: Vec<(FieldInit, Option<TokCtx>)>,
    pub brace2_tkn: TokCtx,
}

#[derive(Debug)]
pub struct FieldInit {
    pub name: Ident,
    pub colon_tkn: TokCtx,
    pub expr: Box<Expr>,
}

/// A statement whose names were resolved; declarations keep only the symbol
/// they declare, whose details are recorded with the scopes.
#[derive(Debug)]
pub enum Stmt {
    If(IfStmt),
    For(ForStmt),
    While(WhileStmt),
    MethodDecl(MethodDeclStmt),
    VarDecl(VarDeclStmt),
    ConstDecl(ConstDeclStmt),
    Return(ReturnStmt),
    Yield(YieldStmt),
    Break(BreakStmt),
    Continue(ContinueStmt),
    Extension(ExtensionStmt),
    Input(DeclStmt),
    Output(DeclStmt),
    Provide(DeclStmt),
    PushConstants(DeclStmt),
    Uniform(DeclStmt),
    Struct(StructStmt),
    Block(BlockStmt),
    Compound(CompoundStmt),
    Expr(ExprStmt),
    Semi(SemiStmt),
}

#[derive(Debug)]
pub struct IfStmt {
    pub if_tkn: TokCtx,
    pub l_paren: TokCtx,
    pub cond: Expr,
    pub r_paren: TokCtx,
    pub branch: Box<Stmt>,
    pub else_tkn: Option<TokCtx>,
    pub else_branch: Option<Box<Stmt>>,
}

#[derive(Debug)]
pub struct ForStmt {
    pub for_tkn: TokCtx,
    pub l_paren: TokCtx,
    pub start_cond: Option<Expr>,
    pub semi1_tkn: TokCtx,
    pub cond: Option<Expr>,
    pub semi2_tkn: TokCtx,
    pub after_run: Option<Expr>,
    pub r_paren: TokCtx,
    pub block: Box<Stmt>,
    pub scope: ScopeId,
}

#[derive(Debug)]
pub struct WhileStmt {
    pub while_tkn: TokCtx,
    pub l_paren: TokCtx,
    pub cond: Expr,
    pub r_paren: TokCtx,
    pub block: Box<Stmt>,
}

/// A function declaration: its symbol, its scope and its body.
#[derive(Debug)]
pub struct MethodDeclStmt {
    pub symbol: SymbolId,
    pub scope: ScopeId,
    pub block: Box<Stmt>,
}

#[derive(Debug)]
pub struct ReturnStmt {
    pub return_tkn: TokCtx,
    pub expr: Option<Expr>,
    pub semi_tkn: TokCtx,
}

#[derive(Debug)]
pub struct YieldStmt {
    pub yield_tkn: TokCtx,
    pub expr: Expr,
    pub semi_tkn: TokCtx,
}

/// An input, output, provided value, push constant or uniform, by the symbol it declares.
#[derive(Debug)]
pub struct DeclStmt {
    pub symbol: SymbolId,
}

/// A structure declaration: its symbol and its scope.
#[derive(Debug)]
pub struct StructStmt {
    pub symbol: SymbolId,
    pub scope: ScopeId,
}

#[derive(Debug)]
pub struct BlockStmt {
    pub l_brace: TokCtx,
    pub stmts: Vec<Stmt>,
    pub r_brace: TokCtx,
    pub scope: ScopeId,
}

#[derive(Debug)]
pub struct CompoundStmt {
    pub components: Vec<Stmt>,
}

#[derive(Debug)]
pub struct ExprStmt {
    pub expr: Expr,
    pub semi_tkn: TokCtx,
}

/// What a declared symbol is, with its resolved parts.
#[derive(Debug)]
pub enum Symbol {
    Variable(VarSym),
    Function(FnSym),
    FnParam(FnParamSym),
    Struct(StructSym),
    Field(FieldSym),
    Uniform(UniformSym),
    PushConstant(VarSym),
    Input(VarSym),
}

/// A variable, or an input, output, provided value or push constant.
#[derive(Debug)]
pub struct VarSym {
    pub id: SymbolId,
    pub kw_tkn: TokCtx,
    pub name: Ident,
    pub colon_tkn: Option<TokCtx>,
    pub ty: Option<Type>,
    pub eq_tkn: Option<TokCtx>,
    pub init: Option<Expr>,
    pub mods: ResMods,
    pub semi_tkn: TokCtx,
    pub cnst: bool,
}

#[derive(Debug)]
pub struct FnSym {
    pub id: SymbolId,
    pub fn_tkn: TokCtx,
    pub name: Ident,
    pub l_paren: TokCtx,
    pub params: Vec<SymbolId>,
    pub r_paren: TokCtx,
    pub arrow_tkn: Option<TokCtx>,
    pub return_type: Option<Type>,
    pub scope: ScopeId,
}

#[derive(Debug)]
pub struct FnParamSym {
    pub id: SymbolId,
    pub name: Ident,
    pub colon_tkn: TokCtx,
    pub ty: Type,
    pub comma_tkn: Option<TokCtx>,
}

#[derive(Debug)]
pub struct StructSym {
    pub id: SymbolId,
    pub internal_scope: ScopeId,
    pub name: Ident,
    pub brace1_tkn: TokCtx,
    pub fields: Vec<SymbolId>,
    pub methods: Vec<SymbolId>,
    pub brace2_tkn: TokCtx,
}

#[derive(Debug)]
pub struct FieldSym {
    pub name: Ident,
    pub colon_tkn: TokCtx,
    pub ty: Type,
    pub semi_tkn: TokCtx,
}

#[derive(Debug)]
pub struct UniformSym {
    pub uniform_tkn: TokCtx,
    pub name: Ident,
    pub ty: Type,
    pub set_tkn: TokCtx,
    pub set_eq_tkn: TokCtx,
    pub set_lit_tkn: TokCtx,
    pub set: u32,
    pub binding_tkn: TokCtx,
    pub binding_eq_tkn: TokCtx,
    pub binding_lit_tkn: TokCtx,
    pub binding: u32,
    pub mods: ResMods,
    pub uniform_type: UniformType,
    pub semi_tkn: TokCtx,
}

} // verus!
