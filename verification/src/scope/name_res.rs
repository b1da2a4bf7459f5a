//! The second pass over a program: every name is resolved to the symbol it
//! refers to, and every declaration gets its symbol, recorded with its
//! resolved parts.
use vstd::prelude::*;
use crate::parser::ast::{ScopeId, SymbolId};
use crate::parser::ast::Expr as PExpr;
use crate::parser::ast::Stmt as PStmt;
use crate::parser::ast::Type as PType;
use crate::parser::ast::Ident as PIdent;
use crate::parser::ast::FieldInit as PFieldInit;
use crate::parser::err::{ParseErr, ParseErrType, ErrV};
use crate::parser::mods::ResMods;
use crate::token::TokCtx;
use crate::scope::{Scopes, SymbolKind, SymbolSpecies, SymbolName, binding_of, is_closest, closest_hint, scores_fit, scope_of_struct, holds_members, lemma_scope_of_struct_prefix, lemma_scope_of_struct_holds};
use crate::scope::ast::{Ident, Expr, Stmt, Type, Symbol, VarSym, FnSym, FnParamSym, StructSym, FieldSym, UniformSym, UnaryExpr, BinExpr, FnCallExpr, AccessExpr, VarExpr, LitExpr, IndexExpr, TernaryExpr, TupleExpr, BlockExpr, AssignExpr, NonuniformExpr, TupleAccessExpr, AccessFnCallExpr, ThisExpr, AsExpr, ConstructExpr, FieldInit, PrimitiveRef, StructRef, StructDef, ArrayType, TupleDef, IfStmt, ForStmt, WhileStmt, MethodDeclStmt, VarDeclStmt, ConstDeclStmt, ReturnStmt, YieldStmt, BreakStmt, ContinueStmt, ExtensionStmt, DeclStmt, StructStmt, BlockStmt, CompoundStmt, ExprStmt, SemiStmt};
use crate::scope::struct_res::{next_id, COUNTER_ID};

verus! {

/// Declares a new symbol `id` of the given kind named by `ident` in `scope`:
/// the name is bound to it there (replacing an earlier binding of the name),
/// and its kind is recorded.
pub fn make_symbol(ident: PIdent, scope: ScopeId, kind: SymbolKind, id: SymbolId, scopes: &mut Scopes)
    requires
        old(scopes).wf(),
        scope < old(scopes).count(),
    ensures
        final(scopes).wf(),
        final(scopes).count() == old(scopes).count(),
        forall|n: Seq<char>| #[trigger] binding_of(final(scopes).bindings(scope), n) == (if n == ident.val@ {
            Some(id)
        } else {
            binding_of(old(scopes).bindings(scope), n)
        }),
        forall|t: ScopeId| t < old(scopes).count() ==> final(scopes).parent(t) == old(scopes).parent(t),
        forall|t: ScopeId| t < old(scopes).count() && t != scope ==> final(scopes).bindings(t) == old(scopes).bindings(t),
        final(scopes).table() == old(scopes).table().push((id, kind)),
        final(scopes).struct_scopes() == old(scopes).struct_scopes(),
        final(scopes).records() == old(scopes).records(),
{
    scopes.bind(scope, ident.val, id);
    scopes.insert_symbol(id, kind);
}

/// The name `old` resolved in `scope` as a `species`: the same name with the
/// symbol it refers to, or the error of `Scopes::resolve_symbol_id`.
pub fn resolve_ident(old: PIdent, scope: ScopeId, species: SymbolSpecies, scopes: &Scopes) -> (r: Result<Ident, ParseErr>)
    requires
        scopes.wf(),
        scope < scopes.count(),
    ensures
        match scopes.resolve(scope, old.val@) {
            Some(id) => r matches Ok(i) && i.symbol == id && i.val == old.val && i.tkn == old.tkn,
            None => r matches Err(e) && {
                let known = scopes.visible_names(scopes.root(scope), species);
                &&& e.ty@ == (if species == SymbolSpecies::Type {
                    ErrV::UnknownType(old.val@)
                } else {
                    ErrV::UnknownIdent(old.val@)
                })
                &&& (e.ctx.line, e.ctx.start_pos, e.ctx.end_pos) == (old.tkn.line, old.tkn.start_pos, old.tkn.end_pos)
                &&& (e.hint is None <==> (known.len() == 0 || !scores_fit(known, old.val@)))
                &&& e.hint matches Some(h) ==> exists|i: int| is_closest(known, old.val@, i) && h@ == closest_hint(
                    #[trigger] known[i],
                )
            },
        },
{
    let id = scopes.resolve_symbol_id(scope, &old, species)?;
    Ok(Ident::convert(old, id))
}

// ---------------------------------------------------------------------------
// What the pass may change
// ---------------------------------------------------------------------------

/// From `a` to `b` the scopes stay, the bindings of the scopes up to `upto`
/// and of those holding a recorded structure's members stay, and structures
/// and symbol details are only added to their records.
pub open spec fn kept(a: Scopes, b: Scopes, upto: int) -> bool {
    &&& b.wf()
    &&& records_grow(a, b)
    &&& b.count() == a.count()
    &&& forall|t: ScopeId| t < a.count() ==> #[trigger] b.parent(t) == a.parent(t)
    &&& forall|t: ScopeId|
        t < a.count() && (t <= upto || holds_members(a.struct_scopes(), t)) ==> #[trigger] b.bindings(t)
            == a.bindings(t)
    &&& a.struct_scopes().len() <= b.struct_scopes().len()
    &&& b.struct_scopes().subrange(0, a.struct_scopes().len() as int) == a.struct_scopes()
}

/// The details recorded in `a` stay, in their order, at the front of those of `b`.
pub open spec fn records_grow(a: Scopes, b: Scopes) -> bool {
    &&& a.records().len() <= b.records().len()
    &&& b.records().subrange(0, a.records().len() as int) == a.records()
}

pub proof fn lemma_kept_refl(a: Scopes, upto: int)
    requires
        a.wf(),
    ensures
        kept(a, a, upto),
{
    assert(a.records().subrange(0, a.records().len() as int) =~= a.records());
    assert(a.struct_scopes().subrange(0, a.struct_scopes().len() as int) =~= a.struct_scopes());
}

pub proof fn lemma_kept_trans(a: Scopes, b: Scopes, c: Scopes, upto: int)
    requires
        kept(a, b, upto),
        kept(b, c, upto),
    ensures
        kept(a, c, upto),
{
    let la = a.struct_scopes().len() as int;
    assert(c.struct_scopes().subrange(0, la) =~= c.struct_scopes().subrange(0, b.struct_scopes().len() as int).subrange(0, la));
    let ra = a.records().len() as int;
    assert(c.records().subrange(0, ra) =~= c.records().subrange(0, b.records().len() as int).subrange(0, ra));
    assert forall|t: ScopeId| t < a.count() && (t <= upto || holds_members(a.struct_scopes(), t)) implies #[trigger] c.bindings(t)
        == a.bindings(t) by {
        if holds_members(a.struct_scopes(), t) {
            let i = choose|i: int| 0 <= i < a.struct_scopes().len() && #[trigger] a.struct_scopes()[i].1 == t;
            assert(b.struct_scopes()[i] == a.struct_scopes()[i]);
            assert(holds_members(b.struct_scopes(), t));
        }
    }
}

pub proof fn lemma_kept_weaken(a: Scopes, b: Scopes, u1: int, u2: int)
    requires
        kept(a, b, u1),
        u2 <= u1,
    ensures
        kept(a, b, u2),
{
}

/// A lookup that only reads kept scopes gives the same symbol.
pub proof fn lemma_kept_resolve(a: Scopes, b: Scopes, upto: int, sc: ScopeId, n: Seq<char>)
    requires
        a.wf(),
        kept(a, b, upto),
        sc <= upto,
        sc < a.count(),
    ensures
        b.resolve(sc, n) == a.resolve(sc, n),
    decreases sc,
{
    reveal_with_fuel(Scopes::resolve, 2);
    assert(b.bindings(sc) == a.bindings(sc));
    if let Some(p) = a.parent(sc) {
        if p < sc {
            lemma_kept_resolve(a, b, upto, p, n);
        }
    }
}

/// A lookup in a recorded structure's scope, whose enclosing scope is kept,
/// gives the same symbol.
pub proof fn lemma_kept_resolve_member(a: Scopes, b: Scopes, upto: int, ss: ScopeId, n: Seq<char>)
    requires
        a.wf(),
        kept(a, b, upto),
        ss < a.count(),
        holds_members(a.struct_scopes(), ss),
        a.parent(ss) matches Some(d) && d <= upto,
    ensures
        b.resolve(ss, n) == a.resolve(ss, n),
{
    assert(b.bindings(ss) == a.bindings(ss));
    let d = a.parent(ss)->Some_0;
    if d < ss {
        lemma_kept_resolve(a, b, upto, d, n);
    }
}

/// A structure recorded in `a` is recorded, with the same scope, in `b`.
pub proof fn lemma_kept_struct(a: Scopes, b: Scopes, upto: int, id: SymbolId)
    requires
        kept(a, b, upto),
        scope_of_struct(a.struct_scopes(), id) is Some,
    ensures
        scope_of_struct(b.struct_scopes(), id) == scope_of_struct(a.struct_scopes(), id),
{
    let la = a.struct_scopes().len() as int;
    let u = b.struct_scopes().skip(la);
    assert(b.struct_scopes() =~= a.struct_scopes() + u);
    lemma_scope_of_struct_prefix(a.struct_scopes(), u, id);
}

// ---------------------------------------------------------------------------
// What a resolved tree says
// ---------------------------------------------------------------------------

/// `x` is the name `p` resolved in `sc`.
pub open spec fn name_ok(p: PIdent, x: Ident, sc: ScopeId, s: Scopes) -> bool {
    &&& x.val == p.val
    &&& x.tkn == p.tkn
    &&& s.resolve(sc, p.val@) == Some(x.symbol)
}

/// `x` is the resolved form of the statement `p`: the same kind of
/// statement, variable and constant declarations told apart.
pub open spec fn same_kind(p: PStmt, x: Stmt) -> bool {
    match p {
        PStmt::If(_) => x is If,
        PStmt::For(_) => x is For,
        PStmt::While(_) => x is While,
        PStmt::MethodDecl(_) => x is MethodDecl,
        PStmt::VarDecl(s) => if s.cnst { x is ConstDecl } else { x is VarDecl },
        PStmt::Return(_) => x is Return,
        PStmt::Yield(_) => x is Yield,
        PStmt::Break(_) => x is Break,
        PStmt::Continue(_) => x is Continue,
        PStmt::Include(_) => false,
        PStmt::Extension(_) => x is Extension,
        PStmt::Input(_) => x is Input,
        PStmt::Output(_) => x is Output,
        PStmt::Provide(_) => x is Provide,
        PStmt::PushConstants(_) => x is PushConstants,
        PStmt::Uniform(_) => x is Uniform,
        PStmt::Struct(_) => x is Struct,
        PStmt::Block(_) => x is Block,
        PStmt::Compound(_) => x is Compound,
        PStmt::Expr(_) => x is Expr,
        PStmt::Semi(_) => x is Semi,
    }
}

/// Each statement of `xs` is the resolved form of the one of `ps` at its place.
pub open spec fn same_kinds(ps: Seq<PStmt>, xs: Seq<Stmt>) -> bool {
    ps.len() == xs.len() && forall|j: int| 0 <= j < ps.len() ==> same_kind(#[trigger] ps[j], xs[j])
}

/// `x` is the expression `p` with its names resolved in `sc`: variables,
/// members after `.` and called names to what they refer to there; a called
/// name becomes a construction call; a structure built from named values to
/// the structure, and each value's name to a member of it. Blocks keep the
/// scope the first pass gave them and their number of statements.
pub open spec fn rexpr_ok(p: PExpr, x: Expr, sc: ScopeId, s: Scopes) -> bool
    decreases p,
{
    match p {
        PExpr::Unary(a) => x matches Expr::Unary(b) && b.op == a.op && rexpr_ok(*a.expr, *b.expr, sc, s),
        PExpr::Binary(a) => x matches Expr::Binary(b) && b.op == a.op && rexpr_ok(*a.lhs, *b.lhs, sc, s) && rexpr_ok(
            *a.rhs,
            *b.rhs,
            sc,
            s,
        ),
        PExpr::FnCall(a) => x matches Expr::Constructor(b) && name_ok(a.ident, b.ident, sc, s) && rargs_ok(
            a.args@,
            b.args@,
            sc,
            s,
        ),
        PExpr::Access(a) => x matches Expr::Access(b) && rexpr_ok(*a.parent, *b.parent, sc, s) && name_ok(
            a.child,
            b.child,
            sc,
            s,
        ),
        PExpr::Variable(a) => x matches Expr::Variable(b) && name_ok(a.ident, b.ident, sc, s),
        PExpr::Literal(a) => x matches Expr::Literal(b) && b.lit == a.lit,
        PExpr::Index(a) => x matches Expr::Index(b) && rexpr_ok(*a.array, *b.array, sc, s) && rexpr_ok(
            *a.index,
            *b.index,
            sc,
            s,
        ),
        PExpr::Ternary(a) => x matches Expr::Ternary(b) && rexpr_ok(*a.cond, *b.cond, sc, s) && rexpr_ok(
            *a.yes,
            *b.yes,
            sc,
            s,
        ) && rexpr_ok(*a.no, *b.no, sc, s),
        PExpr::PreFix(a) => x matches Expr::PreFix(b) && b.op == a.op && rexpr_ok(*a.expr, *b.expr, sc, s),
        PExpr::PostFix(a) => x matches Expr::PostFix(b) && b.op == a.op && rexpr_ok(*a.expr, *b.expr, sc, s),
        PExpr::Tuple(a) => x matches Expr::Tuple(b) && rargs_ok(a.args@, b.args@, sc, s),
        PExpr::Array(a) => x matches Expr::Array(b) && rargs_ok(a.args@, b.args@, sc, s),
        PExpr::Block(a) => x matches Expr::Block(b) && a.fut_scope == Some(b.scope) && sc < b.scope < s.count()
            && same_kinds(a.block@, b.block@),
        PExpr::Assign(a) => x matches Expr::Assign(b) && rexpr_ok(*a.lhs, *b.lhs, sc, s) && rexpr_ok(
            *a.rhs,
            *b.rhs,
            sc,
            s,
        ),
        PExpr::Nonuniform(a) => x matches Expr::Nonuniform(b) && rexpr_ok(*a.expr, *b.expr, sc, s),
        PExpr::TupleAccess(a) => x matches Expr::TupleAccess(b) && b.component == a.component && rexpr_ok(
            *a.tuple,
            *b.tuple,
            sc,
            s,
        ),
        PExpr::AccessFnCall(a) => x matches Expr::AccessFnCall(b) && rexpr_ok(*a.parent, *b.parent, sc, s)
            && name_ok(a.ident, b.ident, sc, s) && rargs_ok(a.args@, b.args@, sc, s),
        PExpr::This(_) => x is This,
        PExpr::As(a) => x matches Expr::As(b) && rexpr_ok(*a.expr, *b.expr, sc, s) && rtype_ok(
            a.ty,
            b.target_ty,
            sc,
            s,
        ),
        PExpr::Construct(a) => x matches Expr::Construct(b) && name_ok(a.name, b.name, sc, s) && (scope_of_struct(
            s.struct_scopes(),
            b.name.symbol,
        ) matches Some(ss) && ss < s.count() && (s.parent(ss) matches Some(d) && d <= sc) && rfields_ok(
            a.fields@,
            b.fields@,
            ss,
            sc,
            s,
        )),
    }
}

/// The values of a list, each resolved in `sc`.
pub open spec fn rargs_ok(ps: Seq<(PExpr, Option<TokCtx>)>, xs: Seq<(Expr, Option<TokCtx>)>, sc: ScopeId, s: Scopes) -> bool
    decreases ps,
{
    if ps.len() == 0 {
        xs.len() == 0
    } else {
        &&& xs.len() > 0
        &&& xs[0].1 == ps[0].1
        &&& rexpr_ok(ps[0].0, xs[0].0, sc, s)
        &&& rargs_ok(ps.drop_first(), xs.drop_first(), sc, s)
    }
}

/// The named values of a construction: each name resolved in the
/// structure's scope `ss`, each value in `sc`.
pub open spec fn rfields_ok(
    ps: Seq<(PFieldInit, Option<TokCtx>)>,
    xs: Seq<(FieldInit, Option<TokCtx>)>,
    ss: ScopeId,
    sc: ScopeId,
    s: Scopes,
) -> bool
    decreases ps,
{
    if ps.len() == 0 {
        xs.len() == 0
    } else {
        &&& xs.len() > 0
        &&& xs[0].1 == ps[0].1
        &&& name_ok(ps[0].0.name, xs[0].0.name, ss, s)
        &&& rexpr_ok(*ps[0].0.expr, *xs[0].0.expr, sc, s)
        &&& rfields_ok(ps.drop_first(), xs.drop_first(), ss, sc, s)
    }
}

/// `x` is the type `p` with its names resolved in `sc`: a named type to the
/// structure it names; a structure declared in place to its symbol.
pub open spec fn rtype_ok(p: PType, x: Type, sc: ScopeId, s: Scopes) -> bool
    decreases p,
{
    match p {
        PType::Primitive(t, _) => x matches Type::Primitive(r) && r.ty == t,
        PType::SingleType(a) => x matches Type::StructRef(r) && s.resolve(sc, a.name@) == Some(r.sym),
        PType::PathType(_) => false,
        PType::ArrayOf(a) => x matches Type::ArrayOf(b) && rtype_ok(*a.component, *b.component, sc, s) && match a.dimension {
            None => b.dimension is None,
            Some(d) => (b.dimension matches Some(e) && rexpr_ok(*d, *e, sc, s)),
        },
        PType::StructDef(a) => x matches Type::StructDef(b) && a.inner.symbol_id == Some(b.sym),
        PType::TupleOf(a) => x matches Type::Tuple(b) && rtypes_ok(a.types@, b.types@, sc, s),
    }
}

/// The types of a tuple, each resolved in `sc`.
pub open spec fn rtypes_ok(ps: Seq<(PType, Option<TokCtx>)>, xs: Seq<(Type, Option<TokCtx>)>, sc: ScopeId, s: Scopes) -> bool
    decreases ps,
{
    if ps.len() == 0 {
        xs.len() == 0
    } else {
        &&& xs.len() > 0
        &&& xs[0].1 == ps[0].1
        &&& rtype_ok(ps[0].0, xs[0].0, sc, s)
        &&& rtypes_ok(ps.drop_first(), xs.drop_first(), sc, s)
    }
}

/// Every name of the expression `p` refers to something from `sc` in `s`,
/// and it holds no block or construction (whose success depends on more).
pub open spec fn plain_resolvable(p: PExpr, sc: ScopeId, s: Scopes) -> bool
    decreases p,
{
    match p {
        PExpr::Unary(a) => plain_resolvable(*a.expr, sc, s),
        PExpr::Binary(a) => plain_resolvable(*a.lhs, sc, s) && plain_resolvable(*a.rhs, sc, s),
        PExpr::FnCall(a) => s.resolve(sc, a.ident.val@) is Some && args_resolvable(a.args@, sc, s),
        PExpr::Access(a) => plain_resolvable(*a.parent, sc, s) && s.resolve(sc, a.child.val@) is Some,
        PExpr::Variable(a) => s.resolve(sc, a.ident.val@) is Some,
        PExpr::Literal(_) => true,
        PExpr::Index(a) => plain_resolvable(*a.array, sc, s) && plain_resolvable(*a.index, sc, s),
        PExpr::Ternary(a) => plain_resolvable(*a.cond, sc, s) && plain_resolvable(*a.yes, sc, s) && plain_resolvable(
            *a.no,
            sc,
            s,
        ),
        PExpr::PreFix(a) => plain_resolvable(*a.expr, sc, s),
        PExpr::PostFix(a) => plain_resolvable(*a.expr, sc, s),
        PExpr::Tuple(a) => args_resolvable(a.args@, sc, s),
        PExpr::Array(a) => args_resolvable(a.args@, sc, s),
        PExpr::Block(_) => false,
        PExpr::Assign(a) => plain_resolvable(*a.lhs, sc, s) && plain_resolvable(*a.rhs, sc, s),
        PExpr::Nonuniform(a) => plain_resolvable(*a.expr, sc, s),
        PExpr::TupleAccess(a) => plain_resolvable(*a.tuple, sc, s),
        PExpr::AccessFnCall(a) => plain_resolvable(*a.parent, sc, s) && s.resolve(sc, a.ident.val@) is Some
            && args_resolvable(a.args@, sc, s),
        PExpr::This(_) => true,
        PExpr::As(a) => plain_resolvable(*a.expr, sc, s) && type_resolvable(a.ty, sc, s),
        PExpr::Construct(_) => false,
    }
}

pub open spec fn args_resolvable(ps: Seq<(PExpr, Option<TokCtx>)>, sc: ScopeId, s: Scopes) -> bool
    decreases ps,
{
    ps.len() == 0 || (plain_resolvable(ps[0].0, sc, s) && args_resolvable(ps.drop_first(), sc, s))
}

/// Every name of the type `p` refers to something from `sc` in `s`; it is
/// not a dotted path, and a structure declared in it has its symbol.
pub open spec fn type_resolvable(p: PType, sc: ScopeId, s: Scopes) -> bool
    decreases p,
{
    match p {
        PType::Primitive(_, _) => true,
        PType::SingleType(a) => s.resolve(sc, a.name@) is Some,
        PType::PathType(_) => false,
        PType::ArrayOf(a) => type_resolvable(*a.component, sc, s) && match a.dimension {
            Some(d) => plain_resolvable(*d, sc, s),
            None => true,
        },
        PType::StructDef(a) => a.inner.symbol_id is Some,
        PType::TupleOf(a) => types_resolvable(a.types@, sc, s),
    }
}

pub open spec fn types_resolvable(ps: Seq<(PType, Option<TokCtx>)>, sc: ScopeId, s: Scopes) -> bool
    decreases ps,
{
    ps.len() == 0 || (type_resolvable(ps[0].0, sc, s) && types_resolvable(ps.drop_first(), sc, s))
}

pub proof fn lemma_resolvable_stable(p: PExpr, sc: ScopeId, a: Scopes, b: Scopes)
    requires
        a.wf(),
        sc < a.count(),
        kept(a, b, sc as int),
        plain_resolvable(p, sc, a),
    ensures
        plain_resolvable(p, sc, b),
    decreases p,
{
    match p {
        PExpr::Unary(e) => lemma_resolvable_stable(*e.expr, sc, a, b),
        PExpr::Binary(e) => {
            lemma_resolvable_stable(*e.lhs, sc, a, b);
            lemma_resolvable_stable(*e.rhs, sc, a, b);
        },
        PExpr::FnCall(e) => {
            lemma_kept_resolve(a, b, sc as int, sc, e.ident.val@);
            lemma_args_resolvable_stable(e.args@, sc, a, b);
        },
        PExpr::Access(e) => {
            lemma_kept_resolve(a, b, sc as int, sc, e.child.val@);
            lemma_resolvable_stable(*e.parent, sc, a, b);
        },
        PExpr::Variable(e) => lemma_kept_resolve(a, b, sc as int, sc, e.ident.val@),
        PExpr::Index(e) => {
            lemma_resolvable_stable(*e.array, sc, a, b);
            lemma_resolvable_stable(*e.index, sc, a, b);
        },
        PExpr::Ternary(e) => {
            lemma_resolvable_stable(*e.cond, sc, a, b);
            lemma_resolvable_stable(*e.yes, sc, a, b);
            lemma_resolvable_stable(*e.no, sc, a, b);
        },
        PExpr::PreFix(e) => lemma_resolvable_stable(*e.expr, sc, a, b),
        PExpr::PostFix(e) => lemma_resolvable_stable(*e.expr, sc, a, b),
        PExpr::Tuple(e) => lemma_args_resolvable_stable(e.args@, sc, a, b),
        PExpr::Array(e) => lemma_args_resolvable_stable(e.args@, sc, a, b),
        PExpr::Assign(e) => {
            lemma_resolvable_stable(*e.lhs, sc, a, b);
            lemma_resolvable_stable(*e.rhs, sc, a, b);
        },
        PExpr::Nonuniform(e) => lemma_resolvable_stable(*e.expr, sc, a, b),
        PExpr::TupleAccess(e) => lemma_resolvable_stable(*e.tuple, sc, a, b),
        PExpr::AccessFnCall(e) => {
            lemma_kept_resolve(a, b, sc as int, sc, e.ident.val@);
            lemma_resolvable_stable(*e.parent, sc, a, b);
            lemma_args_resolvable_stable(e.args@, sc, a, b);
        },
        PExpr::As(e) => {
            lemma_resolvable_stable(*e.expr, sc, a, b);
            lemma_type_resolvable_stable(e.ty, sc, a, b);
        },
        _ => {},
    }
}

pub proof fn lemma_args_resolvable_stable(ps: Seq<(PExpr, Option<TokCtx>)>, sc: ScopeId, a: Scopes, b: Scopes)
    requires
        a.wf(),
        sc < a.count(),
        kept(a, b, sc as int),
        args_resolvable(ps, sc, a),
    ensures
        args_resolvable(ps, sc, b),
    decreases ps,
{
    if ps.len() > 0 {
        lemma_resolvable_stable(ps[0].0, sc, a, b);
        lemma_args_resolvable_stable(ps.drop_first(), sc, a, b);
    }
}

pub proof fn lemma_type_resolvable_stable(p: PType, sc: ScopeId, a: Scopes, b: Scopes)
    requires
        a.wf(),
        sc < a.count(),
        kept(a, b, sc as int),
        type_resolvable(p, sc, a),
    ensures
        type_resolvable(p, sc, b),
    decreases p,
{
    match p {
        PType::SingleType(t) => lemma_kept_resolve(a, b, sc as int, sc, t.name@),
        PType::ArrayOf(t) => {
            lemma_type_resolvable_stable(*t.component, sc, a, b);
            match t.dimension {
                Some(d) => lemma_resolvable_stable(*d, sc, a, b),
                None => {},
            }
        },
        PType::TupleOf(t) => lemma_types_resolvable_stable(t.types@, sc, a, b),
        _ => {},
    }
}

pub proof fn lemma_types_resolvable_stable(ps: Seq<(PType, Option<TokCtx>)>, sc: ScopeId, a: Scopes, b: Scopes)
    requires
        a.wf(),
        sc < a.count(),
        kept(a, b, sc as int),
        types_resolvable(ps, sc, a),
    ensures
        types_resolvable(ps, sc, b),
    decreases ps,
{
    if ps.len() > 0 {
        lemma_type_resolvable_stable(ps[0].0, sc, a, b);
        lemma_types_resolvable_stable(ps.drop_first(), sc, a, b);
    }
}

/// What is resolved in `sc` stays resolved while the scopes up to `sc` are kept.
pub proof fn lemma_rexpr_stable(p: PExpr, x: Expr, sc: ScopeId, a: Scopes, b: Scopes)
    requires
        a.wf(),
        sc < a.count(),
        kept(a, b, sc as int),
        rexpr_ok(p, x, sc, a),
    ensures
        rexpr_ok(p, x, sc, b),
    decreases p,
{
    match p {
        PExpr::Unary(e) => lemma_rexpr_stable(*e.expr, *x->Unary_0.expr, sc, a, b),
        PExpr::Binary(e) => {
            lemma_rexpr_stable(*e.lhs, *x->Binary_0.lhs, sc, a, b);
            lemma_rexpr_stable(*e.rhs, *x->Binary_0.rhs, sc, a, b);
        },
        PExpr::FnCall(e) => {
            lemma_kept_resolve(a, b, sc as int, sc, e.ident.val@);
            lemma_rargs_stable(e.args@, x->Constructor_0.args@, sc, a, b);
        },
        PExpr::Access(e) => {
            lemma_kept_resolve(a, b, sc as int, sc, e.child.val@);
            lemma_rexpr_stable(*e.parent, *x->Access_0.parent, sc, a, b);
        },
        PExpr::Variable(e) => lemma_kept_resolve(a, b, sc as int, sc, e.ident.val@),
        PExpr::Index(e) => {
            lemma_rexpr_stable(*e.array, *x->Index_0.array, sc, a, b);
            lemma_rexpr_stable(*e.index, *x->Index_0.index, sc, a, b);
        },
        PExpr::Ternary(e) => {
            lemma_rexpr_stable(*e.cond, *x->Ternary_0.cond, sc, a, b);
            lemma_rexpr_stable(*e.yes, *x->Ternary_0.yes, sc, a, b);
            lemma_rexpr_stable(*e.no, *x->Ternary_0.no, sc, a, b);
        },
        PExpr::PreFix(e) => lemma_rexpr_stable(*e.expr, *x->PreFix_0.expr, sc, a, b),
        PExpr::PostFix(e) => lemma_rexpr_stable(*e.expr, *x->PostFix_0.expr, sc, a, b),
        PExpr::Tuple(e) => lemma_rargs_stable(e.args@, x->Tuple_0.args@, sc, a, b),
        PExpr::Array(e) => lemma_rargs_stable(e.args@, x->Array_0.args@, sc, a, b),
        PExpr::Assign(e) => {
            lemma_rexpr_stable(*e.lhs, *x->Assign_0.lhs, sc, a, b);
            lemma_rexpr_stable(*e.rhs, *x->Assign_0.rhs, sc, a, b);
        },
        PExpr::Nonuniform(e) => lemma_rexpr_stable(*e.expr, *x->Nonuniform_0.expr, sc, a, b),
        PExpr::TupleAccess(e) => lemma_rexpr_stable(*e.tuple, *x->TupleAccess_0.tuple, sc, a, b),
        PExpr::AccessFnCall(e) => {
            lemma_kept_resolve(a, b, sc as int, sc, e.ident.val@);
            lemma_rexpr_stable(*e.parent, *x->AccessFnCall_0.parent, sc, a, b);
            lemma_rargs_stable(e.args@, x->AccessFnCall_0.args@, sc, a, b);
        },
        PExpr::As(e) => {
            lemma_rexpr_stable(*e.expr, *x->As_0.expr, sc, a, b);
            lemma_rtype_stable(e.ty, x->As_0.target_ty, sc, a, b);
        },
        PExpr::Construct(e) => {
            let y = x->Construct_0;
            lemma_kept_resolve(a, b, sc as int, sc, e.name.val@);
            lemma_kept_struct(a, b, sc as int, y.name.symbol);
            let ss = scope_of_struct(a.struct_scopes(), y.name.symbol)->Some_0;
            lemma_scope_of_struct_holds(a.struct_scopes(), y.name.symbol);
            lemma_rfields_stable(e.fields@, y.fields@, ss, sc, a, b);
        },
        _ => {},
    }
}

pub proof fn lemma_rargs_stable(ps: Seq<(PExpr, Option<TokCtx>)>, xs: Seq<(Expr, Option<TokCtx>)>, sc: ScopeId, a: Scopes, b: Scopes)
    requires
        a.wf(),
        sc < a.count(),
        kept(a, b, sc as int),
        rargs_ok(ps, xs, sc, a),
    ensures
        rargs_ok(ps, xs, sc, b),
    decreases ps,
{
    if ps.len() > 0 {
        lemma_rexpr_stable(ps[0].0, xs[0].0, sc, a, b);
        lemma_rargs_stable(ps.drop_first(), xs.drop_first(), sc, a, b);
    }
}

pub proof fn lemma_rfields_stable(
    ps: Seq<(PFieldInit, Option<TokCtx>)>,
    xs: Seq<(FieldInit, Option<TokCtx>)>,
    ss: ScopeId,
    sc: ScopeId,
    a: Scopes,
    b: Scopes,
)
    requires
        a.wf(),
        sc < a.count(),
        ss < a.count(),
        holds_members(a.struct_scopes(), ss),
        a.parent(ss) matches Some(d) && d <= sc,
        kept(a, b, sc as int),
        rfields_ok(ps, xs, ss, sc, a),
    ensures
        rfields_ok(ps, xs, ss, sc, b),
    decreases ps,
{
    if ps.len() > 0 {
        lemma_kept_resolve_member(a, b, sc as int, ss, ps[0].0.name.val@);
        lemma_rexpr_stable(*ps[0].0.expr, *xs[0].0.expr, sc, a, b);
        lemma_rfields_stable(ps.drop_first(), xs.drop_first(), ss, sc, a, b);
    }
}

pub proof fn lemma_rtype_stable(p: PType, x: Type, sc: ScopeId, a: Scopes, b: Scopes)
    requires
        a.wf(),
        sc < a.count(),
        kept(a, b, sc as int),
        rtype_ok(p, x, sc, a),
    ensures
        rtype_ok(p, x, sc, b),
    decreases p,
{
    match p {
        PType::SingleType(t) => lemma_kept_resolve(a, b, sc as int, sc, t.name@),
        PType::ArrayOf(t) => {
            let y = x->ArrayOf_0;
            lemma_rtype_stable(*t.component, *y.component, sc, a, b);
            match t.dimension {
                Some(d) => lemma_rexpr_stable(*d, *y.dimension->Some_0, sc, a, b),
                None => {},
            }
        },
        PType::TupleOf(t) => lemma_rtypes_stable(t.types@, x->Tuple_0.types@, sc, a, b),
        _ => {},
    }
}

pub proof fn lemma_rtypes_stable(ps: Seq<(PType, Option<TokCtx>)>, xs: Seq<(Type, Option<TokCtx>)>, sc: ScopeId, a: Scopes, b: Scopes)
    requires
        a.wf(),
        sc < a.count(),
        kept(a, b, sc as int),
        rtypes_ok(ps, xs, sc, a),
    ensures
        rtypes_ok(ps, xs, sc, b),
    decreases ps,
{
    if ps.len() > 0 {
        lemma_rtype_stable(ps[0].0, xs[0].0, sc, a, b);
        lemma_rtypes_stable(ps.drop_first(), xs.drop_first(), sc, a, b);
    }
}


/// Recording more structures keeps the scopes already holding members.
pub proof fn lemma_kept_members(a: Scopes, b: Scopes, upto: int, t: ScopeId)
    requires
        kept(a, b, upto),
        holds_members(a.struct_scopes(), t),
    ensures
        holds_members(b.struct_scopes(), t),
{
    let i = choose|i: int| 0 <= i < a.struct_scopes().len() && #[trigger] a.struct_scopes()[i].1 == t;
    assert(b.struct_scopes()[i] == a.struct_scopes()[i]);
}

/// Two steps that each keep the scopes up to `u` keep them.
pub proof fn lemma_kept_chain(a: Scopes, b: Scopes, c: Scopes, u1: int, u2: int, u: int)
    requires
        kept(a, b, u1),
        kept(b, c, u2),
        u <= u1,
        u <= u2,
    ensures
        kept(a, c, u),
{
    lemma_kept_trans(a, b, c, u);
}

/// A step that changes no binding and only adds structures keeps everything.
pub proof fn lemma_kept_grow(a: Scopes, b: Scopes, u: int)
    requires
        b.wf(),
        b.count() == a.count(),
        forall|t: ScopeId| t < a.count() ==> b.parent(t) == a.parent(t) && b.bindings(t) == a.bindings(t),
        a.struct_scopes().len() <= b.struct_scopes().len(),
        b.struct_scopes().subrange(0, a.struct_scopes().len() as int) == a.struct_scopes(),
        records_grow(a, b),
    ensures
        kept(a, b, u),
{
}

/// A structure not yet recorded is found where it is recorded next.
pub proof fn lemma_scope_of_struct_absent(t: Seq<(SymbolId, ScopeId)>, id: SymbolId, ss: ScopeId)
    requires
        scope_of_struct(t, id) is None,
    ensures
        scope_of_struct(t.push((id, ss)), id) == Some(ss),
    decreases t.len(),
{
    if t.len() > 0 {
        assert(t.push((id, ss)).drop_first() =~= t.drop_first().push((id, ss)));
        lemma_scope_of_struct_absent(t.drop_first(), id, ss);
    }
}

/// Declaring in `sc` alone, which holds no structure's members, keeps the scopes below it.
pub proof fn lemma_kept_bind(a: Scopes, b: Scopes, sc: ScopeId)
    requires
        b.wf(),
        b.count() == a.count(),
        forall|t: ScopeId| t < a.count() ==> b.parent(t) == a.parent(t),
        forall|t: ScopeId| t < a.count() && t != sc ==> b.bindings(t) == a.bindings(t),
        b.struct_scopes() == a.struct_scopes(),
        !holds_members(a.struct_scopes(), sc),
        records_grow(a, b),
    ensures
        kept(a, b, sc - 1),
{
    assert(b.struct_scopes().subrange(0, a.struct_scopes().len() as int) =~= a.struct_scopes());
}

/// The latest kind recorded for `id` is `k`.
pub open spec fn kind_recorded(s: Scopes, id: SymbolId, k: SymbolKind) -> bool {
    s.table().len() > 0 && s.table().last() == (id, k)
}

/// The errors of the second pass: a name that refers to nothing, or a
/// tree the first pass did not prepare.
pub open spec fn pass_error(e: ParseErr) -> bool {
    e.ty@ is UnknownIdent || e.ty@ is UnknownType || e.ty@ is InternalErr
}

/// An error for a tree the first pass did not prepare as this pass needs.
fn internal(ctx: TokCtx) -> (r: ParseErr)
    ensures
        r.ty@ == ErrV::InternalErr,
{
    ParseErr { ty: ParseErrType::InternalErr, ctx, tail: String::new(), hint: None }
}

/// The pass over a type, in `sc`.
pub fn conv_type(ty: PType, sc: ScopeId, scopes: &mut Scopes) -> (r: Result<Type, ParseErr>)
    requires
        old(scopes).wf(),
        sc < old(scopes).count(),
    ensures
        final(scopes).wf(),
        r matches Err(e) ==> pass_error(e),
        type_resolvable(ty, sc, *old(scopes)) ==> r is Ok,
        r matches Ok(x) ==> kept(*old(scopes), *final(scopes), sc as int) && rtype_ok(ty, x, sc, *final(scopes)),
    decreases ty,
{
    let ghost s0 = *scopes;
    let ghost pty = ty;
    proof {
        lemma_kept_refl(s0, sc as int);
    }
    match ty {
        PType::Primitive(t, tkn) => Ok(Type::Primitive(PrimitiveRef { ty: t, tkn })),
        PType::SingleType(st) => {
            let id = scopes.resolve_symbol_id(sc, &st, SymbolSpecies::Type)?;
            Ok(Type::StructRef(StructRef { sym: id, name_tkn: st.tkn }))
        },
        PType::PathType(p) => Err(internal(p.name.tkn)),
        PType::ArrayOf(a) => {
            let ghost pc = *a.component;
            let component = conv_type(*a.component, sc, scopes)?;
            let ghost s1 = *scopes;
            proof {
                if type_resolvable(pty, sc, s0) {
                    lemma_type_resolvable_stable(pty, sc, s0, s1);
                }
            }
            let dimension = match a.dimension {
                Some(d) => {
                    let e = conv_expr(*d, sc, scopes)?;
                    proof {
                        lemma_rtype_stable(pc, component, sc, s1, *scopes);
                        lemma_kept_trans(s0, s1, *scopes, sc as int);
                    }
                    Some(Box::new(e))
                },
                None => None,
            };
            Ok(Type::ArrayOf(ArrayType { component: Box::new(component), brack1_tkn: a.brack1_tkn, dimension, brack2_tkn: a.brack2_tkn }))
        },
        PType::StructDef(d) => {
            let inner = *d.inner;
            match inner.symbol_id {
                Some(id) => Ok(Type::StructDef(StructDef {
                    sym: id,
                    struct_tkn: inner.struct_tkn,
                    name_tkn: inner.name.tkn,
                    brace1_tkn: inner.brace1_tkn,
                    brace2_tkn: inner.brace2_tkn,
                })),
                None => Err(internal(inner.struct_tkn)),
            }
        },
        PType::TupleOf(t) => {
            let types = conv_types(t.types, sc, scopes)?;
            Ok(Type::Tuple(TupleDef { paren1_tok: t.paren1_tok, types, paren2_tok: t.paren2_tok }))
        },
    }
}

/// The pass over the types of a tuple, in order.
fn conv_types(ts: Vec<(PType, Option<TokCtx>)>, sc: ScopeId, scopes: &mut Scopes) -> (r: Result<Vec<(Type, Option<TokCtx>)>, ParseErr>)
    requires
        old(scopes).wf(),
        sc < old(scopes).count(),
    ensures
        final(scopes).wf(),
        r matches Err(e) ==> pass_error(e),
        types_resolvable(ts@, sc, *old(scopes)) ==> r is Ok,
        r matches Ok(x) ==> kept(*old(scopes), *final(scopes), sc as int) && rtypes_ok(ts@, x@, sc, *final(scopes)),
    decreases ts@,
{
    let ghost s0 = *scopes;
    let ghost pt = ts@;
    let mut ts = ts;
    if ts.len() == 0 {
        proof {
            lemma_kept_refl(s0, sc as int);
        }
        return Ok(Vec::new());
    }
    let (t, tok) = ts.remove(0);
    proof {
        assert(ts@ =~= pt.subrange(1, pt.len() as int));
        assert(decreases_to!(pt => pt[0]));
        assert(decreases_to!(pt => pt[0].0));
    }
    let x = conv_type(t, sc, scopes)?;
    let ghost s1 = *scopes;
    proof {
        if types_resolvable(pt, sc, s0) {
            lemma_types_resolvable_stable(pt.drop_first(), sc, s0, s1);
            assert(ts@ =~= pt.drop_first());
        }
    }
    let mut rest = conv_types(ts, sc, scopes)?;
    proof {
        lemma_rtype_stable(pt[0].0, x, sc, s1, *scopes);
        lemma_kept_trans(s0, s1, *scopes, sc as int);
    }
    let ghost rv = rest@;
    rest.insert(0, (x, tok));
    proof {
        assert(rest@.drop_first() =~= rv);
        assert(pt.drop_first() =~= pt.subrange(1, pt.len() as int));
    }
    Ok(rest)
}

/// The pass over the values of a list, in order, in `sc`.
fn conv_args(args: Vec<(PExpr, Option<TokCtx>)>, sc: ScopeId, scopes: &mut Scopes) -> (r: Result<Vec<(Expr, Option<TokCtx>)>, ParseErr>)
    requires
        old(scopes).wf(),
        sc < old(scopes).count(),
    ensures
        final(scopes).wf(),
        r matches Err(e) ==> pass_error(e),
        args_resolvable(args@, sc, *old(scopes)) ==> r is Ok,
        r matches Ok(x) ==> kept(*old(scopes), *final(scopes), sc as int) && rargs_ok(args@, x@, sc, *final(scopes)),
    decreases args@,
{
    let ghost s0 = *scopes;
    let ghost pa = args@;
    let mut args = args;
    if args.len() == 0 {
        proof {
            lemma_kept_refl(s0, sc as int);
        }
        return Ok(Vec::new());
    }
    let (e, tok) = args.remove(0);
    proof {
        assert(args@ =~= pa.subrange(1, pa.len() as int));
        assert(decreases_to!(pa => pa[0]));
        assert(decreases_to!(pa => pa[0].0));
    }
    let x = conv_expr(e, sc, scopes)?;
    let ghost s1 = *scopes;
    proof {
        if args_resolvable(pa, sc, s0) {
            lemma_args_resolvable_stable(pa.drop_first(), sc, s0, s1);
            assert(args@ =~= pa.drop_first());
        }
    }
    let mut rest = conv_args(args, sc, scopes)?;
    proof {
        lemma_rexpr_stable(pa[0].0, x, sc, s1, *scopes);
        lemma_kept_trans(s0, s1, *scopes, sc as int);
    }
    let ghost rv = rest@;
    rest.insert(0, (x, tok));
    proof {
        assert(rest@.drop_first() =~= rv);
        assert(pa.drop_first() =~= pa.subrange(1, pa.len() as int));
    }
    Ok(rest)
}

/// The pass over the named values of a construction: each name is resolved
/// in the structure's scope `ss`, each value in `sc`.
fn conv_fields(fs: Vec<(PFieldInit, Option<TokCtx>)>, ss: ScopeId, sc: ScopeId, scopes: &mut Scopes) -> (r: Result<Vec<(FieldInit, Option<TokCtx>)>, ParseErr>)
    requires
        old(scopes).wf(),
        sc < old(scopes).count(),
        ss < old(scopes).count(),
        holds_members(old(scopes).struct_scopes(), ss),
        old(scopes).parent(ss) matches Some(d) && d <= sc,
    ensures
        final(scopes).wf(),
        r matches Err(e) ==> pass_error(e),
        r matches Ok(x) ==> kept(*old(scopes), *final(scopes), sc as int) && rfields_ok(fs@, x@, ss, sc, *final(scopes)),
    decreases fs@,
{
    let ghost s0 = *scopes;
    let ghost pf = fs@;
    let mut fs = fs;
    if fs.len() == 0 {
        proof {
            lemma_kept_refl(s0, sc as int);
        }
        return Ok(Vec::new());
    }
    let (f, tok) = fs.remove(0);
    proof {
        assert(fs@ =~= pf.subrange(1, pf.len() as int));
        assert(decreases_to!(pf => pf[0]));
        assert(decreases_to!(pf => pf[0].0));
        assert(decreases_to!(pf => *pf[0].0.expr));
    }
    let name = resolve_ident(f.name, ss, SymbolSpecies::Ident, scopes)?;
    let e = conv_expr(*f.expr, sc, scopes)?;
    let ghost s1 = *scopes;
    proof {
        lemma_kept_members(s0, s1, sc as int, ss);
    }
    let mut rest = conv_fields(fs, ss, sc, scopes)?;
    proof {
        lemma_rexpr_stable(*pf[0].0.expr, e, sc, s1, *scopes);
        lemma_kept_trans(s0, s1, *scopes, sc as int);
        lemma_kept_resolve_member(s0, *scopes, sc as int, ss, pf[0].0.name.val@);
    }
    let ghost rv = rest@;
    rest.insert(0, (FieldInit { name, colon_tkn: f.colon_tkn, expr: Box::new(e) }, tok));
    proof {
        assert(rest@.drop_first() =~= rv);
        assert(pf.drop_first() =~= pf.subrange(1, pf.len() as int));
    }
    Ok(rest)
}

/// The pass over an expression, in `sc`: its names are resolved there,
/// and the statements of its blocks in the blocks' own scopes.
pub fn conv_expr(expr: PExpr, sc: ScopeId, scopes: &mut Scopes) -> (r: Result<Expr, ParseErr>)
    requires
        old(scopes).wf(),
        sc < old(scopes).count(),
    ensures
        final(scopes).wf(),
        r matches Err(e) ==> pass_error(e),
        plain_resolvable(expr, sc, *old(scopes)) ==> r is Ok,
        r matches Ok(x) ==> kept(*old(scopes), *final(scopes), sc as int) && rexpr_ok(expr, x, sc, *final(scopes)),
    decreases expr,
{
    let ghost s0 = *scopes;
    let ghost whole = expr;
    proof {
        lemma_kept_refl(s0, sc as int);
    }
    match expr {
        PExpr::Unary(e) => {
            let x = conv_expr(*e.expr, sc, scopes)?;
            Ok(Expr::Unary(UnaryExpr { op: e.op, op_tkn: e.op_tkn, expr: Box::new(x) }))
        },
        PExpr::Binary(e) => {
            let ghost pl = *e.lhs;
            let l = conv_expr(*e.lhs, sc, scopes)?;
            let ghost s1 = *scopes;
            proof {
                if plain_resolvable(whole, sc, s0) {
                    lemma_resolvable_stable(whole, sc, s0, *scopes);
                }
            }
            let r = conv_expr(*e.rhs, sc, scopes)?;
            proof {
                lemma_rexpr_stable(pl, l, sc, s1, *scopes);
                lemma_kept_trans(s0, s1, *scopes, sc as int);
            }
            Ok(Expr::Binary(BinExpr { op: e.op, op_tkn: e.op_tkn, lhs: Box::new(l), rhs: Box::new(r) }))
        },
        PExpr::FnCall(f) => {
            let args = conv_args(f.args, sc, scopes)?;
            proof {
                if plain_resolvable(whole, sc, s0) {
                    lemma_resolvable_stable(whole, sc, s0, *scopes);
                }
            }
            match scopes.resolve_symbol_id(sc, &f.ident, SymbolSpecies::Type) {
                Ok(id) => Ok(Expr::Constructor(FnCallExpr {
                    ident: Ident::convert(f.ident, id),
                    open_tkn: f.open_tkn,
                    args,
                    close_tkn: f.close_tkn,
                })),
                Err(_) => match resolve_ident(f.ident, sc, SymbolSpecies::Fn, scopes) {
                    Ok(i) => Err(internal(i.tkn)),
                    Err(e) => Err(e),
                },
            }
        },
        PExpr::Access(a) => {
            let parent = conv_expr(*a.parent, sc, scopes)?;
            proof {
                if plain_resolvable(whole, sc, s0) {
                    lemma_resolvable_stable(whole, sc, s0, *scopes);
                }
            }
            let child = resolve_ident(a.child, sc, SymbolSpecies::Ident, scopes)?;
            Ok(Expr::Access(AccessExpr { parent: Box::new(parent), dot_tkn: a.dot_tkn, child }))
        },
        PExpr::Variable(v) => {
            let ident = resolve_ident(v.ident, sc, SymbolSpecies::Ident, scopes)?;
            Ok(Expr::Variable(VarExpr { ident }))
        },
        PExpr::Literal(l) => Ok(Expr::Literal(LitExpr { lit: l.lit, lit_tkn: l.lit_tkn })),
        PExpr::Index(e) => {
            let ghost pa = *e.array;
            let array = conv_expr(*e.array, sc, scopes)?;
            let ghost s1 = *scopes;
            proof {
                if plain_resolvable(whole, sc, s0) {
                    lemma_resolvable_stable(whole, sc, s0, *scopes);
                }
            }
            let index = conv_expr(*e.index, sc, scopes)?;
            proof {
                lemma_rexpr_stable(pa, array, sc, s1, *scopes);
                lemma_kept_trans(s0, s1, *scopes, sc as int);
            }
            Ok(Expr::Index(IndexExpr { array: Box::new(array), open_tkn: e.open_tkn, index: Box::new(index), close_tkn: e.close_tkn }))
        },
        PExpr::Ternary(e) => {
            let ghost pc = *e.cond;
            let ghost py = *e.yes;
            let cond = conv_expr(*e.cond, sc, scopes)?;
            let ghost s1 = *scopes;
            proof {
                if plain_resolvable(whole, sc, s0) {
                    lemma_resolvable_stable(whole, sc, s0, *scopes);
                }
            }
            let yes = conv_expr(*e.yes, sc, scopes)?;
            let ghost s2 = *scopes;
            proof {
                if plain_resolvable(whole, sc, s0) {
                    lemma_resolvable_stable(whole, sc, s1, *scopes);
                }
            }
            let no = conv_expr(*e.no, sc, scopes)?;
            proof {
                lemma_kept_trans(s1, s2, *scopes, sc as int);
                lemma_rexpr_stable(pc, cond, sc, s1, *scopes);
                lemma_rexpr_stable(py, yes, sc, s2, *scopes);
                lemma_kept_trans(s0, s1, *scopes, sc as int);
            }
            Ok(Expr::Ternary(TernaryExpr {
                cond: Box::new(cond),
                question_tkn: e.question_tkn,
                yes: Box::new(yes),
                colon_tkn: e.colon_tkn,
                no: Box::new(no),
            }))
        },
        PExpr::PreFix(e) => {
            let x = conv_expr(*e.expr, sc, scopes)?;
            Ok(Expr::PreFix(UnaryExpr { op: e.op, op_tkn: e.op_tkn, expr: Box::new(x) }))
        },
        PExpr::PostFix(e) => {
            let x = conv_expr(*e.expr, sc, scopes)?;
            Ok(Expr::PostFix(UnaryExpr { op: e.op, op_tkn: e.op_tkn, expr: Box::new(x) }))
        },
        PExpr::Tuple(t) => {
            let args = conv_args(t.args, sc, scopes)?;
            Ok(Expr::Tuple(TupleExpr { open_tkn: t.open_tkn, args, close_tkn: t.close_tkn }))
        },
        PExpr::Array(t) => {
            let args = conv_args(t.args, sc, scopes)?;
            Ok(Expr::Array(TupleExpr { open_tkn: t.open_tkn, args, close_tkn: t.close_tkn }))
        },
        PExpr::Block(b) => {
            let ns = match b.fut_scope {
                Some(ns) => ns,
                None => {
                    return Err(internal(b.open_tkn));
                },
            };
            if !(sc < ns && ns < scopes.scope_count()) {
                return Err(internal(b.open_tkn));
            }
            let block = conv_stmts(b.block, ns, scopes)?;
            proof {
                lemma_kept_weaken(s0, *scopes, ns - 1, sc as int);
                lemma_shallow_kinds(b.block@, block@, ns);
            }
            Ok(Expr::Block(BlockExpr { open_tkn: b.open_tkn, scope: ns, block, close_tkn: b.close_tkn }))
        },
        PExpr::Assign(e) => {
            let ghost pl = *e.lhs;
            let l = conv_expr(*e.lhs, sc, scopes)?;
            let ghost s1 = *scopes;
            proof {
                if plain_resolvable(whole, sc, s0) {
                    lemma_resolvable_stable(whole, sc, s0, *scopes);
                }
            }
            let r = conv_expr(*e.rhs, sc, scopes)?;
            proof {
                lemma_rexpr_stable(pl, l, sc, s1, *scopes);
                lemma_kept_trans(s0, s1, *scopes, sc as int);
            }
            Ok(Expr::Assign(AssignExpr { lhs: Box::new(l), eq_tkn: e.eq_tkn, rhs: Box::new(r) }))
        },
        PExpr::Nonuniform(e) => {
            let x = conv_expr(*e.expr, sc, scopes)?;
            Ok(Expr::Nonuniform(NonuniformExpr { nonuniform_tkn: e.nonuniform_tkn, expr: Box::new(x) }))
        },
        PExpr::TupleAccess(e) => {
            let x = conv_expr(*e.tuple, sc, scopes)?;
            Ok(Expr::TupleAccess(TupleAccessExpr { tuple: Box::new(x), component: e.component }))
        },
        PExpr::AccessFnCall(e) => {
            let ghost pa = e.args@;
            let args = conv_args(e.args, sc, scopes)?;
            let ghost s1 = *scopes;
            proof {
                if plain_resolvable(whole, sc, s0) {
                    lemma_resolvable_stable(whole, sc, s0, *scopes);
                }
            }
            let parent = conv_expr(*e.parent, sc, scopes)?;
            proof {
                if plain_resolvable(whole, sc, s0) {
                    lemma_resolvable_stable(whole, sc, s1, *scopes);
                }
            }
            let ident = resolve_ident(e.ident, sc, SymbolSpecies::Fn, scopes)?;
            proof {
                lemma_rargs_stable(pa, args@, sc, s1, *scopes);
                lemma_kept_trans(s0, s1, *scopes, sc as int);
            }
            Ok(Expr::AccessFnCall(AccessFnCallExpr { parent: Box::new(parent), ident, open_tkn: e.open_tkn, args, close_tkn: e.close_tkn }))
        },
        PExpr::This(t) => Ok(Expr::This(ThisExpr { this_tkn: t.this_tkn })),
        PExpr::As(a) => {
            let ghost pt = a.ty;
            let ghost pe = *a.expr;
            let x = conv_expr(*a.expr, sc, scopes)?;
            let ghost s1 = *scopes;
            proof {
                if plain_resolvable(whole, sc, s0) {
                    assert(type_resolvable(pt, sc, s0));
                    lemma_type_resolvable_stable(pt, sc, s0, *scopes);
                }
            }
            let t = conv_type(a.ty, sc, scopes)?;
            proof {
                lemma_rexpr_stable(pe, x, sc, s1, *scopes);
                lemma_kept_trans(s0, s1, *scopes, sc as int);
            }
            Ok(Expr::As(AsExpr { expr: Box::new(x), as_tkn: a.as_tkn, target_ty: t }))
        },
        PExpr::Construct(c) => {
            let id = scopes.resolve_symbol_id(sc, &c.name, SymbolSpecies::Type)?;
            let ss = match scopes.struct_scope(id) {
                Some(ss) => ss,
                None => {
                    return Err(internal(c.brace1_tkn));
                },
            };
            if ss >= scopes.scope_count() {
                return Err(internal(c.brace1_tkn));
            }
            match scopes.parent_of(ss) {
                Some(d) => {
                    if d > sc {
                        return Err(internal(c.brace1_tkn));
                    }
                },
                None => {
                    return Err(internal(c.brace1_tkn));
                },
            }
            proof {
                lemma_scope_of_struct_holds(s0.struct_scopes(), id);
            }
            let fields = conv_fields(c.fields, ss, sc, scopes)?;
            let name = resolve_ident(c.name, sc, SymbolSpecies::Type, scopes)?;
            proof {
                lemma_kept_resolve(s0, *scopes, sc as int, sc, c.name.val@);
                lemma_kept_struct(s0, *scopes, sc as int, id);
            }
            Ok(Expr::Construct(ConstructExpr { name, brace1_tkn: c.brace1_tkn, fields, brace2_tkn: c.brace2_tkn }))
        },
    }
}

/// The pass over a list of statements, in order, in `sc`.
pub fn conv_stmts(ss: Vec<PStmt>, sc: ScopeId, scopes: &mut Scopes) -> (r: Result<Vec<Stmt>, ParseErr>)
    requires
        old(scopes).wf(),
        sc < old(scopes).count(),
    ensures
        final(scopes).wf(),
        r matches Err(e) ==> pass_error(e),
        r matches Ok(x) ==> kept(*old(scopes), *final(scopes), sc - 1) && shallow_all(ss@, x@, sc),
    decreases ss@,
{
    let ghost s0 = *scopes;
    let ghost ps = ss@;
    let mut ss = ss;
    if ss.len() == 0 {
        proof {
            lemma_kept_refl(s0, sc - 1);
        }
        let v: Vec<Stmt> = Vec::new();
        return Ok(v);
    }
    let st = ss.remove(0);
    proof {
        assert(ss@ =~= ps.subrange(1, ps.len() as int));
        assert(decreases_to!(ps => ps[0]));
    }
    let x = conv_stmt(st, sc, scopes)?;
    let ghost s1 = *scopes;
    proof {
        lemma_shallow(ps[0], x, sc, s0, s1);
    }
    let mut rest = conv_stmts(ss, sc, scopes)?;
    proof {
        lemma_kept_trans(s0, s1, *scopes, sc - 1);
    }
    let ghost rv = rest@;
    rest.insert(0, x);
    proof {
        assert forall|j: int| 0 <= j < ps.len() implies shallow_ok(#[trigger] ps[j], rest@[j], sc) by {
            if j > 0 {
                assert(ps[j] == ps.subrange(1, ps.len() as int)[j - 1]);
                assert(rest@[j] == rv[j - 1]);
            }
        }
    }
    Ok(rest)
}

} // verus!

verus! {

/// The pass over an optional expression, in `sc`.
fn conv_expr_opt(e: Option<PExpr>, sc: ScopeId, scopes: &mut Scopes) -> (r: Result<Option<Expr>, ParseErr>)
    requires
        old(scopes).wf(),
        sc < old(scopes).count(),
    ensures
        final(scopes).wf(),
        r matches Err(e) ==> pass_error(e),
        r matches Ok(x) ==> kept(*old(scopes), *final(scopes), sc as int) && match e {
            Some(p) => (x matches Some(y) && rexpr_ok(p, y, sc, *final(scopes))),
            None => x is None,
        },
    decreases e,
{
    match e {
        Some(p) => {
            let x = conv_expr(p, sc, scopes)?;
            Ok(Some(x))
        },
        None => {
            proof {
                lemma_kept_refl(*scopes, sc as int);
            }
            Ok(None)
        },
    }
}

/// The pass over an optional type, in `sc`.
fn conv_type_opt(t: Option<PType>, sc: ScopeId, scopes: &mut Scopes) -> (r: Result<Option<Type>, ParseErr>)
    requires
        old(scopes).wf(),
        sc < old(scopes).count(),
    ensures
        final(scopes).wf(),
        r matches Err(e) ==> pass_error(e),
        r matches Ok(x) ==> kept(*old(scopes), *final(scopes), sc as int) && match t {
            Some(p) => (x matches Some(y) && rtype_ok(p, y, sc, *final(scopes))),
            None => x is None,
        },
    decreases t,
{
    match t {
        Some(p) => {
            let x = conv_type(p, sc, scopes)?;
            Ok(Some(x))
        },
        None => {
            proof {
                lemma_kept_refl(*scopes, sc as int);
            }
            Ok(None)
        },
    }
}

/// Declares `name` in `sc`, which must hold no structure's members, as the
/// symbol `id` of kind `kind` described by `sym`.
fn declare(name: PIdent, sc: ScopeId, kind: SymbolKind, id: SymbolId, sym: Symbol, scopes: &mut Scopes) -> (r: Result<(), ParseErr>)
    requires
        old(scopes).wf(),
        sc < old(scopes).count(),
    ensures
        final(scopes).wf(),
        r matches Err(e) ==> pass_error(e),
        r is Ok ==> {
            &&& kept(*old(scopes), *final(scopes), sc - 1)
            &&& !holds_members(old(scopes).struct_scopes(), sc)
            &&& forall|n: Seq<char>| #[trigger] binding_of(final(scopes).bindings(sc), n) == (if n == name.val@ {
                Some(id)
            } else {
                binding_of(old(scopes).bindings(sc), n)
            })
            &&& final(scopes).table() == old(scopes).table().push((id, kind))
            &&& final(scopes).records() == old(scopes).records().push((id, sym))
        },
{
    if scopes.is_member_scope(sc) {
        return Err(internal(name.tkn));
    }
    let ghost s0 = *scopes;
    let ghost nv = name.val@;
    make_symbol(name, sc, kind, id, scopes);
    let ghost s1 = *scopes;
    scopes.add_record(id, sym);
    proof {
        assert(scopes.bindings(sc) == s1.bindings(sc));
        assert forall|t: ScopeId| t < s0.count() && t != sc implies scopes.bindings(t) == s0.bindings(t) by {
            assert(scopes.bindings(t) == s1.bindings(t));
        }
        assert forall|t: ScopeId| t < s0.count() implies scopes.parent(t) == s0.parent(t) by {
            assert(scopes.parent(t) == s1.parent(t));
        }
        assert(scopes.records().subrange(0, s0.records().len() as int) =~= s0.records());
        lemma_kept_bind(s0, *scopes, sc);
    }
    Ok(())
}

/// The pass over a variable declaration: its type and value are resolved in
/// `sc`, then its name is declared there.
fn make_var(stmt: crate::parser::ast::VarDeclStmt, sc: ScopeId, scopes: &mut Scopes) -> (r: Result<SymbolId, ParseErr>)
    requires
        old(scopes).wf(),
        sc < old(scopes).count(),
    ensures
        final(scopes).wf(),
        r matches Err(e) ==> pass_error(e),
        r matches Ok(id) ==> kept(*old(scopes), *final(scopes), sc - 1) && binding_of(
            final(scopes).bindings(sc),
            stmt.name.val@,
        ) == Some(id) && kind_recorded(*final(scopes), id, SymbolKind::Variable) && final(scopes).records().len() > 0
            && exists|m: Scopes| #[trigger] kept(*old(scopes), m, sc as int) && var_record_ok(
            stmt,
            final(scopes).records().last().1,
            id,
            sc,
            m,
        ),
    decreases stmt,
{
    let ghost s0 = *scopes;
    let ghost pstmt = stmt;
    let id = next_id(COUNTER_ID);
    let ty = conv_type_opt(stmt.ty, sc, scopes)?;
    let ghost s1 = *scopes;
    let ghost ty_g = ty;
    let init = conv_expr_opt(stmt.init, sc, scopes)?;
    let ghost s2 = *scopes;
    let name = stmt.name;
    let key = PIdent { val: name.val.clone(), tkn: name.tkn.clone() };
    let sym = Symbol::Variable(VarSym {
        id,
        kw_tkn: stmt.kw_tkn,
        name: Ident::convert(name, id),
        colon_tkn: stmt.colon_tkn,
        ty,
        eq_tkn: stmt.eq_tkn,
        init,
        mods: ResMods::empty(),
        semi_tkn: stmt.semi_tkn,
        cnst: false,
    });
    declare(key, sc, SymbolKind::Variable, id, sym, scopes)?;
    proof {
        lemma_kept_trans(s0, s1, s2, sc as int);
        lemma_kept_chain(s0, s2, *scopes, sc as int, sc - 1, sc - 1);
        match pstmt.ty {
            Some(t) => {
                lemma_rtype_stable(t, ty_g->Some_0, sc, s1, s2);
            },
            None => {},
        }
        assert(kept(s0, s2, sc as int));
        assert(var_record_ok(pstmt, scopes.records().last().1, id, sc, s2));
    }
    Ok(id)
}

} // verus!

verus! {

/// Declares an input, output, provided value or push constant, whose type
/// `t` was resolved, as symbol `id` in `sc`.
fn make_io(
    kw_tkn: TokCtx,
    name: PIdent,
    colon_tkn: Option<TokCtx>,
    t: Type,
    mods: ResMods,
    semi_tkn: TokCtx,
    push_const: bool,
    id: SymbolId,
    sc: ScopeId,
    scopes: &mut Scopes,
) -> (r: Result<SymbolId, ParseErr>)
    requires
        old(scopes).wf(),
        sc < old(scopes).count(),
    ensures
        final(scopes).wf(),
        r matches Err(e) ==> pass_error(e),
        r matches Ok(x) ==> x == id && kept(*old(scopes), *final(scopes), sc - 1) && binding_of(final(scopes).bindings(sc), name.val@)
            == Some(id) && kind_recorded(
            *final(scopes),
            id,
            if push_const { SymbolKind::PushConstant } else { SymbolKind::Input },
        ) && final(scopes).records().len() > 0 && match final(scopes).records().last().1 {
            Symbol::Input(v) => !push_const && v.id == id && v.name.symbol == id && v.ty == Some(t),
            Symbol::PushConstant(v) => push_const && v.id == id && v.name.symbol == id && v.ty == Some(t),
            _ => false,
        },
{
    let key = PIdent { val: name.val.clone(), tkn: name.tkn.clone() };
    let v = VarSym {
        id,
        kw_tkn,
        name: Ident::convert(name, id),
        colon_tkn,
        ty: Some(t),
        eq_tkn: None,
        init: None,
        mods,
        semi_tkn,
        cnst: false,
    };
    let (kind, sym) = if push_const {
        (SymbolKind::PushConstant, Symbol::PushConstant(v))
    } else {
        (SymbolKind::Input, Symbol::Input(v))
    };
    declare(key, sc, kind, id, sym, scopes)?;
    Ok(id)
}

/// The pass over a uniform: its type is resolved in `sc`, then its name is
/// declared there.
fn make_uniform(stmt: crate::parser::ast::UniformStmt, sc: ScopeId, scopes: &mut Scopes) -> (r: Result<SymbolId, ParseErr>)
    requires
        old(scopes).wf(),
        sc < old(scopes).count(),
    ensures
        final(scopes).wf(),
        r matches Err(e) ==> pass_error(e),
        r matches Ok(id) ==> kept(*old(scopes), *final(scopes), sc - 1) && binding_of(
            final(scopes).bindings(sc),
            stmt.name.val@,
        ) == Some(id) && kind_recorded(*final(scopes), id, SymbolKind::Uniform) && final(scopes).records().len() > 0
            && exists|m: Scopes| #[trigger] kept(*old(scopes), m, sc as int) && io_record_ok(
            stmt.ty,
            final(scopes).records().last().1,
            id,
            sc,
            m,
        ),
    decreases stmt,
{
    let ghost s0 = *scopes;
    let id = next_id(COUNTER_ID);
    let ghost pty = stmt.ty;
    let t = conv_type(stmt.ty, sc, scopes)?;
    let ghost s1 = *scopes;
    proof {
        assert(kept(s0, s1, sc as int));
    }
    let name = stmt.name;
    let key = PIdent { val: name.val.clone(), tkn: name.tkn.clone() };
    let sym = Symbol::Uniform(UniformSym {
        uniform_tkn: stmt.uniform_tkn,
        name: Ident::convert(name, id),
        ty: t,
        set_tkn: stmt.set_tkn,
        set_eq_tkn: stmt.set_eq_tkn,
        set_lit_tkn: stmt.set_lit_tkn,
        set: stmt.set,
        binding_tkn: stmt.binding_tkn,
        binding_eq_tkn: stmt.binding_eq_tkn,
        binding_lit_tkn: stmt.binding_lit_tkn,
        binding: stmt.binding,
        mods: stmt.mods,
        uniform_type: stmt.uniform_type,
        semi_tkn: stmt.semi_tkn,
    });
    declare(key, sc, SymbolKind::Uniform, id, sym, scopes)?;
    proof {
        lemma_kept_chain(s0, s1, *scopes, sc as int, sc - 1, sc - 1);
    }
    Ok(id)
}

/// The parameters of a function: each type is resolved in `sc`, each name
/// declared in the function's scope `fs`.
fn make_params(ps: Vec<crate::parser::ast::MethodParamDecl>, fs: ScopeId, sc: ScopeId, scopes: &mut Scopes) -> (r: Result<Vec<SymbolId>, ParseErr>)
    requires
        old(scopes).wf(),
        sc < fs < old(scopes).count(),
    ensures
        final(scopes).wf(),
        r matches Err(e) ==> pass_error(e),
        r matches Ok(ids) ==> kept(*old(scopes), *final(scopes), sc as int) && params_recorded(*final(scopes), ids@, ps@),
    decreases ps@,
{
    let ghost s0 = *scopes;
    let ghost pp = ps@;
    let mut ps = ps;
    if ps.len() == 0 {
        proof {
            lemma_kept_refl(s0, sc as int);
        }
        return Ok(Vec::new());
    }
    let p = ps.remove(0);
    proof {
        assert(ps@ =~= pp.subrange(1, pp.len() as int));
        assert(decreases_to!(pp => pp[0]));
    }
    let id = next_id(COUNTER_ID);
    let t = conv_type(p.ty, sc, scopes)?;
    let ghost s1 = *scopes;
    let key = PIdent { val: p.name.val.clone(), tkn: p.name.tkn.clone() };
    let ghost pname = p.name.val@;
    let sym = Symbol::FnParam(FnParamSym { id, name: Ident::convert(p.name, id), colon_tkn: p.colon_tkn, ty: t, comma_tkn: p.comma_tkn });
    declare(key, fs, SymbolKind::FnParam, id, sym, scopes)?;
    let ghost s2 = *scopes;
    proof {
        let j = s1.records().len() as int;
        assert(s2.records()[j] == (id, sym));
        assert(param_recorded(s2, id, pname));
    }
    let ghost rv = ps@;
    let mut rest = make_params(ps, fs, sc, scopes)?;
    proof {
        lemma_kept_chain(s0, s1, s2, sc as int, fs - 1, sc as int);
        lemma_kept_chain(s0, s2, *scopes, sc as int, sc as int, sc as int);
        lemma_recorded_stays(s2, *scopes);
    }
    let ghost tail = rest@;
    rest.insert(0, id);
    proof {
        assert forall|i: int| 0 <= i < pp.len() implies param_recorded(*scopes, #[trigger] rest@[i], pp[i].name.val@) by {
            if i > 0 {
                assert(rest@[i] == tail[i - 1]);
                assert(pp[i] == rv[i - 1]);
            }
        }
    }
    Ok(rest)
}

/// The pass over a function declaration in `sc`: its parameters are
/// declared in its own scope, its body is gone over there, and its symbol is
/// recorded with its resolved return type. Gives its scope and its body.
pub fn make_fn(symbol: SymbolId, sc: ScopeId, stmt: crate::parser::ast::MethodDeclStmt, scopes: &mut Scopes) -> (r: Result<(ScopeId, Stmt), ParseErr>)
    requires
        old(scopes).wf(),
        sc < old(scopes).count(),
    ensures
        final(scopes).wf(),
        r matches Err(e) ==> pass_error(e),
        r matches Ok(x) ==> {
            &&& kept(*old(scopes), *final(scopes), sc - 1)
            &&& stmt.fut_scope == Some(x.0)
            &&& sc < x.0 < final(scopes).count()
            &&& binding_of(old(scopes).bindings(sc), stmt.name.val@) is Some
            &&& kind_recorded(*final(scopes), symbol, SymbolKind::Function)
            &&& final(scopes).records().len() > 0
            &&& exists|m: Scopes| #[trigger] kept(*old(scopes), m, sc as int) && fn_record_ok(
                stmt,
                final(scopes).records().last().1,
                symbol,
                sc,
                m,
            )
            &&& fn_params_ok(stmt, final(scopes).records().last().1, *final(scopes))
            &&& shallow_ok(*stmt.block, x.1, x.0)
        },
    decreases stmt,
{
    let ghost s0 = *scopes;
    let ghost pstmt = stmt;
    let fs = match stmt.fut_scope {
        Some(f) => f,
        None => {
            return Err(internal(stmt.fn_tkn));
        },
    };
    if !(sc < fs && fs < scopes.scope_count()) {
        return Err(internal(stmt.fn_tkn));
    }
    if scopes.local(sc, &stmt.name.val).is_none() {
        return Err(internal(stmt.fn_tkn));
    }
    proof {
        assert(decreases_to!(stmt => stmt.params@));
    }
    let params = make_params(stmt.params, fs, sc, scopes)?;
    let ghost s1 = *scopes;
    let ghost pblock = *stmt.block;
    let block = conv_stmt(*stmt.block, fs, scopes)?;
    let ghost s2 = *scopes;
    proof {
        lemma_shallow(pblock, block, fs, s1, s2);
    }
    let return_type = conv_type_opt(stmt.return_type, sc, scopes)?;
    let ghost s3 = *scopes;
    proof {
        lemma_kept_chain(s0, s1, s2, sc as int, fs - 1, sc as int);
        lemma_kept_chain(s0, s2, s3, sc as int, sc as int, sc as int);
        assert(kept(s0, s3, sc as int));
    }
    let sym = Symbol::Function(FnSym {
        id: symbol,
        fn_tkn: stmt.fn_tkn,
        name: Ident::convert(stmt.name, symbol),
        l_paren: stmt.l_paren,
        params,
        r_paren: stmt.r_paren,
        arrow_tkn: stmt.arrow_tkn,
        return_type,
        scope: fs,
    });
    scopes.insert_symbol(symbol, SymbolKind::Function);
    scopes.add_record(symbol, sym);
    proof {
        assert(scopes.struct_scopes().subrange(0, s3.struct_scopes().len() as int) =~= s3.struct_scopes());
        assert(scopes.records().subrange(0, s3.records().len() as int) =~= s3.records());
        lemma_kept_grow(s3, *scopes, sc - 1);
        lemma_recorded_stays(s1, s2);
        lemma_recorded_stays(s2, s3);
        lemma_recorded_stays(s3, *scopes);
        assert(scopes.records().last() == (symbol, sym));
        assert forall|i: int| 0 <= i < pstmt.params@.len() implies param_recorded(*scopes, #[trigger] params@[i], pstmt.params@[i].name.val@) by {
            assert(param_recorded(s1, params@[i], pstmt.params@[i].name.val@));
            assert(param_recorded(s2, params@[i], pstmt.params@[i].name.val@));
            assert(param_recorded(s3, params@[i], pstmt.params@[i].name.val@));
        }
        lemma_kept_chain(s0, s1, s2, sc as int, fs - 1, sc - 1);
        lemma_kept_chain(s0, s2, s3, sc - 1, sc as int, sc - 1);
        lemma_kept_chain(s0, s3, *scopes, sc - 1, sc - 1, sc - 1);
    }
    Ok((fs, block))
}

/// The fields of a structure: each type is resolved, and each name
/// declared, in the structure's scope `ss`.
fn make_fields(fs: Vec<crate::parser::ast::StructField>, ss: ScopeId, scopes: &mut Scopes) -> (r: Result<Vec<SymbolId>, ParseErr>)
    requires
        old(scopes).wf(),
        ss < old(scopes).count(),
    ensures
        final(scopes).wf(),
        r matches Err(e) ==> pass_error(e),
        r matches Ok(ids) ==> kept(*old(scopes), *final(scopes), ss - 1) && fields_recorded(*final(scopes), ids@, fs@),
    decreases fs@,
{
    let ghost s0 = *scopes;
    let ghost pf = fs@;
    let mut fs = fs;
    if fs.len() == 0 {
        proof {
            lemma_kept_refl(s0, ss - 1);
        }
        return Ok(Vec::new());
    }
    let f = fs.remove(0);
    proof {
        assert(fs@ =~= pf.subrange(1, pf.len() as int));
        assert(decreases_to!(pf => pf[0]));
    }
    let id = next_id(COUNTER_ID);
    let t = conv_type(f.ty, ss, scopes)?;
    let ghost s1 = *scopes;
    let key = PIdent { val: f.name.val.clone(), tkn: f.name.tkn.clone() };
    let ghost fname = f.name.val@;
    let sym = Symbol::Field(FieldSym { name: Ident::convert(f.name, id), colon_tkn: f.colon_tkn, ty: t, semi_tkn: f.semi_tkn });
    declare(key, ss, SymbolKind::Field, id, sym, scopes)?;
    let ghost s2 = *scopes;
    proof {
        let j = s1.records().len() as int;
        assert(s2.records()[j] == (id, sym));
        assert(field_recorded(s2, id, fname));
    }
    let ghost rv = fs@;
    let mut rest = make_fields(fs, ss, scopes)?;
    proof {
        lemma_kept_chain(s0, s1, s2, ss as int, ss - 1, ss - 1);
        lemma_kept_chain(s0, s2, *scopes, ss - 1, ss - 1, ss - 1);
        lemma_recorded_stays(s2, *scopes);
    }
    let ghost tail = rest@;
    rest.insert(0, id);
    proof {
        assert forall|i: int| 0 <= i < pf.len() implies field_recorded(*scopes, #[trigger] rest@[i], pf[i].name.val@) by {
            if i > 0 {
                assert(rest@[i] == tail[i - 1]);
                assert(pf[i] == rv[i - 1]);
            }
        }
    }
    Ok(rest)
}

/// The methods of a structure, declared in its scope `ss`.
fn make_methods(ms: Vec<crate::parser::ast::MethodDeclStmt>, ss: ScopeId, scopes: &mut Scopes) -> (r: Result<Vec<SymbolId>, ParseErr>)
    requires
        old(scopes).wf(),
        ss < old(scopes).count(),
    ensures
        final(scopes).wf(),
        r matches Err(e) ==> pass_error(e),
        r matches Ok(ids) ==> kept(*old(scopes), *final(scopes), ss - 1) && ids@.len() == ms@.len() && forall|i: int|
            0 <= i < ms@.len() ==> #[trigger] ms@[i].symbol_id == Some(ids@[i]),
    decreases ms@,
{
    let ghost s0 = *scopes;
    let ghost pm = ms@;
    let mut ms = ms;
    if ms.len() == 0 {
        proof {
            lemma_kept_refl(s0, ss - 1);
        }
        return Ok(Vec::new());
    }
    let m = ms.remove(0);
    proof {
        assert(ms@ =~= pm.subrange(1, pm.len() as int));
        assert(decreases_to!(pm => pm[0]));
    }
    let id = match m.symbol_id {
        Some(id) => id,
        None => {
            return Err(internal(m.fn_tkn));
        },
    };
    let _ = make_fn(id, ss, m, scopes)?;
    let ghost s1 = *scopes;
    let ghost rv = ms@;
    let mut rest = make_methods(ms, ss, scopes)?;
    proof {
        lemma_kept_chain(s0, s1, *scopes, ss - 1, ss - 1, ss - 1);
    }
    let ghost tail = rest@;
    rest.insert(0, id);
    proof {
        assert forall|i: int| 0 <= i < pm.len() implies #[trigger] pm[i].symbol_id == Some(rest@[i]) by {
            if i > 0 {
                assert(rest@[i] == tail[i - 1]);
                assert(pm[i] == rv[i - 1]);
            }
        }
    }
    Ok(rest)
}

/// The pass over a structure declaration in `sc`: its fields and methods
/// are declared in its own scope, and its symbol is recorded together with
/// that scope. Gives the scope.
pub fn make_struct(symbol: SymbolId, sc: ScopeId, stmt: crate::parser::ast::StructStmt, scopes: &mut Scopes) -> (r: Result<ScopeId, ParseErr>)
    requires
        old(scopes).wf(),
        sc < old(scopes).count(),
    ensures
        final(scopes).wf(),
        r matches Err(e) ==> pass_error(e),
        r matches Ok(ss) ==> {
            &&& kept(*old(scopes), *final(scopes), sc - 1)
            &&& stmt.fut_scope == Some(ss)
            &&& sc < ss < final(scopes).count()
            &&& scope_of_struct(final(scopes).struct_scopes(), symbol) == Some(ss)
            &&& binding_of(old(scopes).bindings(sc), stmt.name.val@) is Some
            &&& kind_recorded(*final(scopes), symbol, SymbolKind::Struct)
            &&& final(scopes).records().len() > 0
            &&& struct_record_ok(stmt, final(scopes).records().last().1, symbol, ss, *final(scopes))
        },
    decreases stmt,
{
    let ghost s0 = *scopes;
    let ss = match stmt.fut_scope {
        Some(f) => f,
        None => {
            return Err(internal(stmt.struct_tkn));
        },
    };
    if !(sc < ss && ss < scopes.scope_count()) || scopes.is_member_scope(ss) || scopes.struct_scope(symbol).is_some() {
        return Err(internal(stmt.struct_tkn));
    }
    if scopes.local(sc, &stmt.name.val).is_none() {
        return Err(internal(stmt.struct_tkn));
    }
    proof {
        assert(decreases_to!(stmt => stmt.fields@));
        assert(decreases_to!(stmt => stmt.methods@));
    }
    let fields = make_fields(stmt.fields, ss, scopes)?;
    let ghost s1 = *scopes;
    let methods = make_methods(stmt.methods, ss, scopes)?;
    let ghost s2 = *scopes;
    let sym = Symbol::Struct(StructSym {
        id: symbol,
        internal_scope: ss,
        name: Ident::convert(stmt.name, symbol),
        brace1_tkn: stmt.brace1_tkn,
        fields,
        methods,
        brace2_tkn: stmt.brace2_tkn,
    });
    let found = scopes.struct_scope(symbol);
    if found.is_some() {
        return Err(internal(stmt.struct_tkn));
    }
    scopes.record_struct(symbol, ss);
    let ghost s3 = *scopes;
    scopes.insert_symbol(symbol, SymbolKind::Struct);
    scopes.add_record(symbol, sym);
    proof {
        assert(s3.struct_scopes().subrange(0, s2.struct_scopes().len() as int) =~= s2.struct_scopes());
        assert(s3.records().subrange(0, s2.records().len() as int) =~= s2.records());
        lemma_kept_grow(s2, s3, sc - 1);
        assert(scopes.struct_scopes().subrange(0, s3.struct_scopes().len() as int) =~= s3.struct_scopes());
        assert(scopes.records().subrange(0, s3.records().len() as int) =~= s3.records());
        lemma_kept_grow(s3, *scopes, sc - 1);
        lemma_recorded_stays(s1, s2);
        lemma_recorded_stays(s2, s3);
        lemma_recorded_stays(s3, *scopes);
        assert(scopes.records().last() == (symbol, sym));
        assert forall|i: int| 0 <= i < stmt.fields@.len() implies field_recorded(*scopes, #[trigger] fields@[i], stmt.fields@[i].name.val@) by {
            assert(field_recorded(s1, fields@[i], stmt.fields@[i].name.val@));
            assert(field_recorded(s2, fields@[i], stmt.fields@[i].name.val@));
            assert(field_recorded(s3, fields@[i], stmt.fields@[i].name.val@));
        }
        lemma_kept_chain(s0, s1, s2, ss - 1, ss - 1, sc - 1);
        lemma_kept_chain(s0, s2, s3, sc - 1, sc - 1, sc - 1);
        lemma_kept_chain(s0, s3, *scopes, sc - 1, sc - 1, sc - 1);
        lemma_scope_of_struct_absent(s2.struct_scopes(), symbol, ss);
    }
    Ok(ss)
}

/// An optional expression resolved in `sc`.
pub open spec fn opt_rexpr_ok(p: Option<PExpr>, x: Option<Expr>, sc: ScopeId, s: Scopes) -> bool {
    match p {
        Some(e) => (x matches Some(y) && rexpr_ok(e, y, sc, s)),
        None => x is None,
    }
}

/// An optional type resolved in `sc`.
pub open spec fn opt_rtype_ok(p: Option<PType>, x: Option<Type>, sc: ScopeId, s: Scopes) -> bool {
    match p {
        Some(t) => (x matches Some(y) && rtype_ok(t, y, sc, s)),
        None => x is None,
    }
}

/// `sym` records the variable declared by `p` as symbol `id`, its type and
/// value resolved in `sc` in the scopes `s`.
pub open spec fn var_record_ok(p: crate::parser::ast::VarDeclStmt, sym: Symbol, id: SymbolId, sc: ScopeId, s: Scopes) -> bool {
    sym matches Symbol::Variable(v) && v.id == id && v.name.val == p.name.val && v.name.symbol == id
        && opt_rtype_ok(p.ty, v.ty, sc, s) && opt_rexpr_ok(p.init, v.init, sc, s)
}

/// `sym` records an input, output, provided value or push constant as
/// symbol `id`, its type `p` resolved in `sc` in the scopes `s`.
pub open spec fn io_record_ok(p: PType, sym: Symbol, id: SymbolId, sc: ScopeId, s: Scopes) -> bool {
    match sym {
        Symbol::Input(v) => v.id == id && v.name.symbol == id && (v.ty matches Some(t) && rtype_ok(p, t, sc, s)),
        Symbol::PushConstant(v) => v.id == id && v.name.symbol == id && (v.ty matches Some(t) && rtype_ok(
            p,
            t,
            sc,
            s,
        )),
        Symbol::Uniform(v) => v.name.symbol == id && rtype_ok(p, v.ty, sc, s),
        _ => false,
    }
}

/// Among the details recorded in `s` is that of `id`: a function parameter
/// named `n`.
pub open spec fn param_recorded(s: Scopes, id: SymbolId, n: Seq<char>) -> bool {
    exists|j: int|
        #![trigger s.records()[j]]
        0 <= j < s.records().len() && s.records()[j].0 == id && (s.records()[j].1 matches Symbol::FnParam(v) && v.id == id
            && v.name.symbol == id && v.name.val@ == n)
}

/// Among the details recorded in `s` is that of `id`: a structure's field
/// named `n`.
pub open spec fn field_recorded(s: Scopes, id: SymbolId, n: Seq<char>) -> bool {
    exists|j: int|
        #![trigger s.records()[j]]
        0 <= j < s.records().len() && s.records()[j].0 == id && (s.records()[j].1 matches Symbol::Field(v) && v.name.symbol
            == id && v.name.val@ == n)
}

/// The `i`-th id of `ids` is recorded as the parameter declared `i`-th in `ps`.
pub open spec fn params_recorded(s: Scopes, ids: Seq<SymbolId>, ps: Seq<crate::parser::ast::MethodParamDecl>) -> bool {
    ids.len() == ps.len() && forall|i: int| 0 <= i < ps.len() ==> param_recorded(s, #[trigger] ids[i], ps[i].name.val@)
}

/// The `i`-th id of `ids` is recorded as the field declared `i`-th in `fs`.
pub open spec fn fields_recorded(s: Scopes, ids: Seq<SymbolId>, fs: Seq<crate::parser::ast::StructField>) -> bool {
    ids.len() == fs.len() && forall|i: int| 0 <= i < fs.len() ==> field_recorded(s, #[trigger] ids[i], fs[i].name.val@)
}

/// What is recorded stays recorded as more is recorded.
pub proof fn lemma_recorded_stays(a: Scopes, b: Scopes)
    requires
        records_grow(a, b),
    ensures
        forall|id: SymbolId, n: Seq<char>| #[trigger] param_recorded(a, id, n) ==> param_recorded(b, id, n),
        forall|id: SymbolId, n: Seq<char>| #[trigger] field_recorded(a, id, n) ==> field_recorded(b, id, n),
{
    assert forall|id: SymbolId, n: Seq<char>| #[trigger] param_recorded(a, id, n) implies param_recorded(b, id, n) by {
        let j = choose|j: int|
            #![trigger a.records()[j]]
            0 <= j < a.records().len() && a.records()[j].0 == id && (a.records()[j].1 matches Symbol::FnParam(v) && v.id == id
                && v.name.symbol == id && v.name.val@ == n);
        assert(b.records().subrange(0, a.records().len() as int)[j] == b.records()[j]);
    }
    assert forall|id: SymbolId, n: Seq<char>| #[trigger] field_recorded(a, id, n) implies field_recorded(b, id, n) by {
        let j = choose|j: int|
            #![trigger a.records()[j]]
            0 <= j < a.records().len() && a.records()[j].0 == id && (a.records()[j].1 matches Symbol::Field(v)
                && v.name.symbol == id && v.name.val@ == n);
        assert(b.records().subrange(0, a.records().len() as int)[j] == b.records()[j]);
    }
}

/// `sym` records a function whose `i`-th parameter, as recorded in `s`, is
/// the `i`-th declared by `p`.
pub open spec fn fn_params_ok(p: crate::parser::ast::MethodDeclStmt, sym: Symbol, s: Scopes) -> bool {
    sym matches Symbol::Function(f) && params_recorded(s, f.params@, p.params@)
}

/// `sym` records the structure declared by `p` as symbol `id` with its
/// members in scope `ss`: the `i`-th field recorded is the `i`-th declared, and
/// the `i`-th method is the `i`-th declared.
pub open spec fn struct_record_ok(p: crate::parser::ast::StructStmt, sym: Symbol, id: SymbolId, ss: ScopeId, s: Scopes) -> bool {
    sym matches Symbol::Struct(t) && t.id == id && t.name.symbol == id && t.internal_scope == ss && fields_recorded(
        s,
        t.fields@,
        p.fields@,
    ) && t.methods@.len() == p.methods@.len() && forall|i: int|
        0 <= i < p.methods@.len() ==> #[trigger] p.methods@[i].symbol_id == Some(t.methods@[i])
}

/// `sym` records the function declared by `p` as symbol `id`, with one
/// parameter per declared parameter and its return type resolved in `sc` in
/// the scopes `s`.
pub open spec fn fn_record_ok(p: crate::parser::ast::MethodDeclStmt, sym: Symbol, id: SymbolId, sc: ScopeId, s: Scopes) -> bool {
    sym matches Symbol::Function(f) && f.id == id && f.name.symbol == id && f.params@.len() == p.params@.len()
        && opt_rtype_ok(p.return_type, f.return_type, sc, s)
}

/// The latest record, going from `a` to `b`, is of the declaration `id`
/// whose type `p` was resolved in `sc` while the scopes up to `sc` were as in `a`.
pub open spec fn io_declared(p: PType, id: SymbolId, sc: ScopeId, a: Scopes, b: Scopes) -> bool {
    b.records().len() > 0 && exists|m: Scopes| #[trigger] kept(a, m, sc as int) && io_record_ok(p, b.records().last().1, id, sc, m)
}

/// `id` is bound to `name` in `sc` and was last recorded with kind `k`.
pub open spec fn declared_in(s: Scopes, sc: ScopeId, name: Seq<char>, id: SymbolId, k: SymbolKind) -> bool {
    binding_of(s.bindings(sc), name) == Some(id) && kind_recorded(s, id, k)
}

/// `x` is the statement `p` resolved in `sc`, as far as that shows without
/// the scopes: the same kind of statement; blocks, loops, functions and
/// structures with the scope and symbol the first pass gave them, a block
/// with as many statements of the same kinds; expressions resolved.
pub open spec fn shallow_ok(p: PStmt, x: Stmt, sc: ScopeId) -> bool {
    &&& same_kind(p, x)
    &&& match p {
        PStmt::Block(s) => x matches Stmt::Block(y) && s.fut_scope == Some(y.scope) && same_kinds(s.stmts@, y.stmts@),
        PStmt::For(s) => x matches Stmt::For(y) && s.fut_scope == Some(y.scope),
        PStmt::MethodDecl(s) => x matches Stmt::MethodDecl(y) && s.symbol_id == Some(y.symbol) && s.fut_scope == Some(y.scope),
        PStmt::Struct(s) => x matches Stmt::Struct(y) && s.symbol_id == Some(y.symbol) && s.fut_scope == Some(y.scope),
        PStmt::Expr(s) => x matches Stmt::Expr(y) && exists|m: Scopes| #[trigger] rexpr_ok(s.expr, y.expr, sc, m),
        PStmt::Yield(s) => x matches Stmt::Yield(y) && exists|m: Scopes| #[trigger] rexpr_ok(s.expr, y.expr, sc, m),
        PStmt::Return(s) => x matches Stmt::Return(y) && match s.expr {
            Some(e) => (y.expr matches Some(f) && exists|m: Scopes| #[trigger] rexpr_ok(e, f, sc, m)),
            None => y.expr is None,
        },
        PStmt::Extension(s) => x matches Stmt::Extension(y) && y.extension.val == s.extension.val,
        _ => true,
    }
}

/// Each statement of `xs` is the one of `ps` at its place, resolved in `sc`
/// as far as that shows without the scopes.
pub open spec fn shallow_all(ps: Seq<PStmt>, xs: Seq<Stmt>, sc: ScopeId) -> bool {
    ps.len() == xs.len() && forall|j: int| 0 <= j < ps.len() ==> shallow_ok(#[trigger] ps[j], xs[j], sc)
}

/// Statements resolved one by one keep their kinds.
pub proof fn lemma_shallow_kinds(ps: Seq<PStmt>, xs: Seq<Stmt>, sc: ScopeId)
    requires
        shallow_all(ps, xs, sc),
    ensures
        same_kinds(ps, xs),
{
    assert forall|j: int| 0 <= j < ps.len() implies same_kind(#[trigger] ps[j], xs[j]) by {
        assert(shallow_ok(ps[j], xs[j], sc));
    }
}

/// A statement resolved in `sc` is so as far as that shows without the scopes.
pub proof fn lemma_shallow(p: PStmt, x: Stmt, sc: ScopeId, a: Scopes, b: Scopes)
    requires
        rstmt_ok(p, x, sc, a, b),
    ensures
        shallow_ok(p, x, sc),
{
    match p {
        PStmt::Expr(s) => {
            assert(rexpr_ok(s.expr, x->Expr_0.expr, sc, b));
        },
        PStmt::Yield(s) => {
            assert(rexpr_ok(s.expr, x->Yield_0.expr, sc, b));
        },
        PStmt::Return(s) => {
            if let Some(e) = s.expr {
                assert(rexpr_ok(e, x->Return_0.expr->Some_0, sc, b));
            }
        },
        _ => {},
    }
}

/// What `x` says of the statement `p` gone over in `sc`, the scopes going
/// from `a` to `b`: a declaration binds its name in `sc` to the symbol it
/// gives, recorded with its kind (inputs, outputs and provided values all as
/// inputs); functions and structures keep the symbol and scope the first
/// pass gave them, a structure's scope is recorded as holding its members;
/// loops and blocks keep their scopes; the expressions of expression, return
/// and yield statements are resolved in `sc`.
pub open spec fn rstmt_ok(p: PStmt, x: Stmt, sc: ScopeId, a: Scopes, b: Scopes) -> bool {
    match p {
        PStmt::If(s) => x matches Stmt::If(y) && (exists|m: Scopes| #[trigger] kept(a, m, sc as int) && rexpr_ok(
            s.cond,
            y.cond,
            sc,
            m,
        )) && shallow_ok(*s.branch, *y.branch, sc) && match s.else_branch {
            Some(e) => (y.else_branch matches Some(f) && shallow_ok(*e, *f, sc)),
            None => y.else_branch is None,
        },
        PStmt::For(s) => x matches Stmt::For(y) && s.fut_scope == Some(y.scope) && sc < y.scope < b.count()
            && opt_rexpr_ok(s.start_cond, y.start_cond, y.scope, b) && opt_rexpr_ok(s.cond, y.cond, y.scope, b)
            && opt_rexpr_ok(s.after_run, y.after_run, y.scope, b) && shallow_ok(*s.block, *y.block, y.scope),
        PStmt::While(s) => x matches Stmt::While(y) && (exists|m: Scopes| #[trigger] kept(a, m, sc as int) && rexpr_ok(
            s.cond,
            y.cond,
            sc,
            m,
        )) && shallow_ok(*s.block, *y.block, sc),
        PStmt::MethodDecl(s) => x matches Stmt::MethodDecl(y) && shallow_ok(*s.block, *y.block, y.scope) && fn_params_ok(s, b.records().last().1, b) && s.symbol_id == Some(y.symbol) && s.fut_scope == Some(
            y.scope,
        ) && sc < y.scope < b.count() && binding_of(a.bindings(sc), s.name.val@) is Some && kind_recorded(
            b,
            y.symbol,
            SymbolKind::Function,
        ) && b.records().len() > 0 && exists|m: Scopes| #[trigger] kept(a, m, sc as int) && fn_record_ok(
            s,
            b.records().last().1,
            y.symbol,
            sc,
            m,
        ),
        PStmt::VarDecl(s) => {
            let id = if s.cnst { x->ConstDecl_0.symbol } else { x->VarDecl_0.symbol };
            &&& if s.cnst { x is ConstDecl } else { x is VarDecl }
            &&& declared_in(b, sc, s.name.val@, id, SymbolKind::Variable)
            &&& b.records().len() > 0
            &&& exists|m: Scopes| #[trigger] kept(a, m, sc as int) && var_record_ok(s, b.records().last().1, id, sc, m)
        },
        PStmt::Return(s) => x matches Stmt::Return(y) && match s.expr {
            Some(e) => (y.expr matches Some(f) && rexpr_ok(e, f, sc, b)),
            None => y.expr is None,
        },
        PStmt::Yield(s) => x matches Stmt::Yield(y) && rexpr_ok(s.expr, y.expr, sc, b),
        PStmt::Break(_) => x is Break,
        PStmt::Continue(_) => x is Continue,
        PStmt::Include(_) => false,
        PStmt::Extension(s) => x matches Stmt::Extension(y) && y.extension.val == s.extension.val,
        PStmt::Input(s) => x matches Stmt::Input(y) && declared_in(b, sc, s.name.val@, y.symbol, SymbolKind::Input)
            && io_declared(s.ty, y.symbol, sc, a, b),
        PStmt::Output(s) => x matches Stmt::Output(y) && declared_in(b, sc, s.name.val@, y.symbol, SymbolKind::Input)
            && io_declared(s.ty, y.symbol, sc, a, b),
        PStmt::Provide(s) => x matches Stmt::Provide(y) && declared_in(b, sc, s.name.val@, y.symbol, SymbolKind::Input)
            && io_declared(s.ty, y.symbol, sc, a, b),
        PStmt::PushConstants(s) => x matches Stmt::PushConstants(y) && declared_in(
            b,
            sc,
            s.name.val@,
            y.symbol,
            SymbolKind::PushConstant,
        ) && io_declared(s.ty, y.symbol, sc, a, b),
        PStmt::Uniform(s) => x matches Stmt::Uniform(y) && declared_in(b, sc, s.name.val@, y.symbol, SymbolKind::Uniform)
            && io_declared(s.ty, y.symbol, sc, a, b),
        PStmt::Struct(s) => x matches Stmt::Struct(y) && s.symbol_id == Some(y.symbol) && s.fut_scope == Some(y.scope)
            && sc < y.scope < b.count() && scope_of_struct(b.struct_scopes(), y.symbol) == Some(y.scope) && binding_of(
            a.bindings(sc),
            s.name.val@,
        ) is Some && kind_recorded(b, y.symbol, SymbolKind::Struct) && b.records().len() > 0 && struct_record_ok(
            s,
            b.records().last().1,
            y.symbol,
            y.scope,
            b,
        ),
        PStmt::Block(s) => x matches Stmt::Block(y) && s.fut_scope == Some(y.scope) && sc < y.scope < b.count()
            && shallow_all(s.stmts@, y.stmts@, y.scope),
        PStmt::Compound(s) => x matches Stmt::Compound(y) && shallow_all(s.components@, y.components@, sc),
        PStmt::Expr(s) => x matches Stmt::Expr(y) && rexpr_ok(s.expr, y.expr, sc, b),
        PStmt::Semi(_) => x is Semi,
    }
}

/// The pass over a statement, in `sc`: its names are resolved, and what it
/// declares is bound in `sc` and recorded with its resolved parts.
pub fn conv_stmt(stmt: PStmt, sc: ScopeId, scopes: &mut Scopes) -> (r: Result<Stmt, ParseErr>)
    requires
        old(scopes).wf(),
        sc < old(scopes).count(),
    ensures
        final(scopes).wf(),
        r matches Err(e) ==> pass_error(e),
        r matches Ok(x) ==> kept(*old(scopes), *final(scopes), sc - 1) && rstmt_ok(stmt, x, sc, *old(scopes), *final(scopes)),
    decreases stmt,
{
    let ghost s0 = *scopes;
    let ghost pstmt = stmt;
    proof {
        lemma_kept_refl(s0, sc - 1);
    }
    match stmt {
        PStmt::If(s) => {
            let cond = conv_expr(s.cond, sc, scopes)?;
            let ghost s1 = *scopes;
            proof {
                assert(kept(s0, s1, sc as int));
            }
            let ghost pb = *s.branch;
            let branch = conv_stmt(*s.branch, sc, scopes)?;
            let ghost s2 = *scopes;
            proof {
                lemma_kept_chain(s0, s1, s2, sc as int, sc - 1, sc - 1);
                lemma_shallow(pb, branch, sc, s1, s2);
            }
            let ghost pel = s.else_branch;
            let ghost gb = branch;
            let ghost mut gel: (Stmt, Scopes) = (branch, s2);
            let else_branch = match s.else_branch {
                Some(b) => {
                    let ghost pe = *b;
                    let x = conv_stmt(*b, sc, scopes)?;
                    proof {
                        lemma_kept_trans(s0, s2, *scopes, sc - 1);
                        lemma_shallow(pe, x, sc, s2, *scopes);
                        gel = (x, *scopes);
                    }
                    Some(Box::new(x))
                },
                None => None,
            };
            let res = Stmt::If(IfStmt {
                if_tkn: s.if_tkn,
                l_paren: s.l_paren,
                cond,
                r_paren: s.r_paren,
                branch: Box::new(branch),
                else_tkn: s.else_tkn,
                else_branch,
            });
            proof {
                assert(*res->If_0.branch == gb);
                if let Some(e) = pel {
                    assert(*res->If_0.else_branch->Some_0 == gel.0);
                }
            }
            Ok(res)
        },
        PStmt::For(s) => {
            let fs = match s.fut_scope {
                Some(f) => f,
                None => {
                    return Err(internal(s.for_tkn));
                },
            };
            if !(sc < fs && fs < scopes.scope_count()) {
                return Err(internal(s.for_tkn));
            }
            let ghost pblock = *s.block;
            let block = conv_stmt(*s.block, fs, scopes)?;
            let ghost s1 = *scopes;
            proof {
                lemma_shallow(pblock, block, fs, s0, s1);
            }
            let ghost p1 = s.start_cond;
            let ghost p2 = s.cond;
            let start_cond = conv_expr_opt(s.start_cond, fs, scopes)?;
            let ghost s2 = *scopes;
            let cond = conv_expr_opt(s.cond, fs, scopes)?;
            let ghost s3 = *scopes;
            let after_run = conv_expr_opt(s.after_run, fs, scopes)?;
            proof {
                lemma_kept_trans(s2, s3, *scopes, fs as int);
                if let Some(e) = p1 {
                    lemma_rexpr_stable(e, start_cond->Some_0, fs, s2, *scopes);
                }
                if let Some(e) = p2 {
                    lemma_rexpr_stable(e, cond->Some_0, fs, s3, *scopes);
                }
                lemma_kept_chain(s0, s1, s2, fs - 1, fs as int, sc - 1);
                lemma_kept_chain(s0, s2, s3, sc - 1, fs as int, sc - 1);
                lemma_kept_chain(s0, s3, *scopes, sc - 1, fs as int, sc - 1);
            }
            let ghost gb = block;
            let res = Stmt::For(ForStmt {
                for_tkn: s.for_tkn,
                l_paren: s.l_paren,
                start_cond,
                semi1_tkn: s.semi1_tkn,
                cond,
                semi2_tkn: s.semi2_tkn,
                after_run,
                r_paren: s.r_paren,
                block: Box::new(block),
                scope: fs,
            });
            proof {
                assert(*res->For_0.block == gb);
                assert(rstmt_ok(pstmt, res, sc, s0, *scopes));
            }
            Ok(res)
        },
        PStmt::While(s) => {
            let cond = conv_expr(s.cond, sc, scopes)?;
            let ghost s1 = *scopes;
            proof {
                assert(kept(s0, s1, sc as int));
            }
            let ghost pblock = *s.block;
            let block = conv_stmt(*s.block, sc, scopes)?;
            proof {
                lemma_shallow(pblock, block, sc, s1, *scopes);
                lemma_kept_chain(s0, s1, *scopes, sc as int, sc - 1, sc - 1);
            }
            let ghost gb = block;
            let res = Stmt::While(WhileStmt { while_tkn: s.while_tkn, l_paren: s.l_paren, cond, r_paren: s.r_paren, block: Box::new(block) });
            proof {
                assert(*res->While_0.block == gb);
                assert(rstmt_ok(pstmt, res, sc, s0, *scopes));
            }
            Ok(res)
        },
        PStmt::MethodDecl(s) => {
            let symbol = match s.symbol_id {
                Some(id) => id,
                None => {
                    return Err(internal(s.fn_tkn));
                },
            };
            let ghost pblock = *s.block;
            let made = make_fn(symbol, sc, s, scopes)?;
            let ghost gm = made;
            let (scope, block) = made;
            let res = Stmt::MethodDecl(MethodDeclStmt { symbol, scope, block: Box::new(block) });
            proof {
                assert(*res->MethodDecl_0.block == gm.1 && res->MethodDecl_0.scope == gm.0);
                assert(rstmt_ok(pstmt, res, sc, s0, *scopes));
            }
            Ok(res)
        },
        PStmt::VarDecl(s) => {
            let cnst = s.cnst;
            let symbol = make_var(s, sc, scopes)?;
            if cnst {
                Ok(Stmt::ConstDecl(ConstDeclStmt { symbol }))
            } else {
                Ok(Stmt::VarDecl(VarDeclStmt { symbol }))
            }
        },
        PStmt::Return(s) => {
            let expr = conv_expr_opt(s.expr, sc, scopes)?;
            proof {
                lemma_kept_weaken(s0, *scopes, sc as int, sc - 1);
            }
            Ok(Stmt::Return(ReturnStmt { return_tkn: s.return_tkn, expr, semi_tkn: s.semi_tkn }))
        },
        PStmt::Yield(s) => {
            let expr = conv_expr(s.expr, sc, scopes)?;
            proof {
                lemma_kept_weaken(s0, *scopes, sc as int, sc - 1);
            }
            Ok(Stmt::Yield(YieldStmt { yield_tkn: s.yield_tkn, expr, semi_tkn: s.semi_tkn }))
        },
        PStmt::Break(s) => Ok(Stmt::Break(BreakStmt { break_tkn: s.break_tkn })),
        PStmt::Continue(s) => Ok(Stmt::Continue(ContinueStmt { continue_tkn: s.continue_tkn })),
        PStmt::Include(s) => Err(internal(s.include_tkn)),
        PStmt::Extension(s) => Ok(Stmt::Extension(ExtensionStmt { mods: s.mods, extension: Ident::plain(s.extension), semi_tkn: s.semi_tkn })),
        PStmt::Input(s) => {
            let id = next_id(COUNTER_ID);
            let ghost pty = s.ty;
            let t = conv_type(s.ty, sc, scopes)?;
            let ghost s1 = *scopes;
            proof {
                assert(kept(s0, s1, sc as int));
            }
            let symbol = make_io(s.input_tkn, s.name, Some(s.colon_tkn), t, s.mods, s.semi_tkn, false, id, sc, scopes)?;
            proof {
                lemma_kept_chain(s0, s1, *scopes, sc as int, sc - 1, sc - 1);
            }
            Ok(Stmt::Input(DeclStmt { symbol }))
        },
        PStmt::Output(s) => {
            let id = next_id(COUNTER_ID);
            let ghost pty = s.ty;
            let t = conv_type(s.ty, sc, scopes)?;
            let ghost s1 = *scopes;
            proof {
                assert(kept(s0, s1, sc as int));
            }
            let symbol = make_io(s.output_tkn, s.name, None, t, ResMods::empty(), s.semi_tkn, false, id, sc, scopes)?;
            proof {
                lemma_kept_chain(s0, s1, *scopes, sc as int, sc - 1, sc - 1);
            }
            Ok(Stmt::Output(DeclStmt { symbol }))
        },
        PStmt::Provide(s) => {
            let id = next_id(COUNTER_ID);
            let ghost pty = s.ty;
            let t = conv_type(s.ty, sc, scopes)?;
            let ghost s1 = *scopes;
            proof {
                assert(kept(s0, s1, sc as int));
            }
            let symbol = make_io(s.provide_tkn, s.name, Some(s.colon_tkn), t, s.mods, s.semi_tkn, false, id, sc, scopes)?;
            proof {
                lemma_kept_chain(s0, s1, *scopes, sc as int, sc - 1, sc - 1);
            }
            Ok(Stmt::Provide(DeclStmt { symbol }))
        },
        PStmt::PushConstants(s) => {
            let id = next_id(COUNTER_ID);
            let ghost pty = s.ty;
            let t = conv_type(s.ty, sc, scopes)?;
            let ghost s1 = *scopes;
            proof {
                assert(kept(s0, s1, sc as int));
            }
            let symbol = make_io(s.pc_tkn, s.name, Some(s.colon_tkn), t, ResMods::empty(), s.semi_tkn, true, id, sc, scopes)?;
            proof {
                lemma_kept_chain(s0, s1, *scopes, sc as int, sc - 1, sc - 1);
            }
            Ok(Stmt::PushConstants(DeclStmt { symbol }))
        },
        PStmt::Uniform(s) => {
            let symbol = make_uniform(s, sc, scopes)?;
            Ok(Stmt::Uniform(DeclStmt { symbol }))
        },
        PStmt::Struct(s) => {
            let symbol = match s.symbol_id {
                Some(id) => id,
                None => {
                    return Err(internal(s.struct_tkn));
                },
            };
            let scope = make_struct(symbol, sc, s, scopes)?;
            Ok(Stmt::Struct(StructStmt { symbol, scope }))
        },
        PStmt::Block(b) => {
            let ns = match b.fut_scope {
                Some(ns) => ns,
                None => {
                    return Err(internal(b.l_brace));
                },
            };
            if !(sc < ns && ns < scopes.scope_count()) {
                return Err(internal(b.l_brace));
            }
            let stmts = conv_stmts(b.stmts, ns, scopes)?;
            proof {
                lemma_kept_weaken(s0, *scopes, ns - 1, sc - 1);
            }
            Ok(Stmt::Block(BlockStmt { l_brace: b.l_brace, stmts, r_brace: b.r_brace, scope: ns }))
        },
        PStmt::Compound(c) => {
            let components = conv_stmts(c.components, sc, scopes)?;
            Ok(Stmt::Compound(CompoundStmt { components }))
        },
        PStmt::Expr(e) => {
            let expr = conv_expr(e.expr, sc, scopes)?;
            proof {
                lemma_kept_weaken(s0, *scopes, sc as int, sc - 1);
            }
            Ok(Stmt::Expr(ExprStmt { expr, semi_tkn: e.semi_tkn }))
        },
        PStmt::Semi(s) => Ok(Stmt::Semi(SemiStmt { semi_tkn: s.semi_tkn })),
    }
}

/// The second pass over a whole program, in the global scope 0 of the
/// scopes the first pass built.
pub fn conv_ast(ast: Vec<PStmt>, scopes: &mut Scopes) -> (r: Result<Vec<Stmt>, ParseErr>)
    requires
        old(scopes).wf(),
        old(scopes).count() >= 1,
    ensures
        final(scopes).wf(),
        r matches Err(e) ==> pass_error(e),
        r matches Ok(x) ==> kept(*old(scopes), *final(scopes), -1) && shallow_all(ast@, x@, 0),
{
    conv_stmts(ast, 0, scopes)
}

} // verus!
