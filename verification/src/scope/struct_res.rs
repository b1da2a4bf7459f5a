//! The first pass over a parsed program: gives every block, loop, function
//! and structure its scope, and declares structure and function names in
//! the scope they are written in, refusing a name declared twice there.
use vstd::prelude::*;
use crate::text::{push_lit, extend_chars, string_chars, string_from_chars};
use crate::parser::ast::{Stmt, Expr, Type, StructStmt, MethodDeclStmt, IfStmt, ScopeId, SymbolId};
use crate::parser::err::{ParseErr, ParseErrType, ErrV};
use crate::parser::syntax::{StmtV, ExprV, TypeV, stmt_v, stmts_v, expr_v, type_v, type_list_v, expr_list_v, field_list_v, opt_type_v, opt_expr_v, opt_stmt_v, struct_v, method_v};
use crate::scope::{Scopes, binding_of};

verus! {

/// Why the pass stops: a name declared twice in one scope (with whether the
/// second declaration is a structure), or an include statement, which the
/// pass does not handle.
pub enum PassFail {
    Dup(Seq<char>, bool),
    Include,
}

/// The names declared in the current scope after the pass went over some
/// part of the program, or why it stopped.
pub type PassRes = Result<Seq<Seq<char>>, PassFail>;

/// Declaring `name` where `bound` are already declared.
pub open spec fn declare(bound: Seq<Seq<char>>, name: Seq<char>, is_struct: bool) -> PassRes {
    if bound.contains(name) {
        Err(PassFail::Dup(name, is_struct))
    } else {
        Ok(bound.push(name))
    }
}

/// The pass over a type: a structure declared in it is declared in the
/// current scope; array element types and tuple members are gone over.
pub open spec fn pass_type(t: TypeV, bound: Seq<Seq<char>>) -> PassRes
    decreases t,
{
    match t {
        TypeV::StructDef(s) => match *s {
            StmtV::Struct(n, _, _) => declare(bound, n, true),
            _ => Ok(bound),
        },
        TypeV::Array(c, _) => pass_type(*c, bound),
        TypeV::Tuple(ts) => pass_types(ts, bound),
        _ => Ok(bound),
    }
}

pub open spec fn pass_types(ts: Seq<(TypeV, bool)>, bound: Seq<Seq<char>>) -> PassRes
    decreases ts,
{
    if ts.len() == 0 {
        Ok(bound)
    } else {
        match pass_type(ts[0].0, bound) {
            Err(f) => Err(f),
            Ok(b) => pass_types(ts.drop_first(), b),
        }
    }
}


/// Going over a part in a scope of its own: the current scope is left as it was.
pub open spec fn inside(a: PassRes, bound: Seq<Seq<char>>) -> PassRes {
    match a {
        Err(f) => Err(f),
        Ok(_) => Ok(bound),
    }
}

/// The pass over an expression: the parts are gone over in order (a
/// conditional's branches before its condition), a block in a scope of its
/// own, and the type of a conversion.
pub open spec fn pass_expr(e: ExprV, bound: Seq<Seq<char>>) -> PassRes
    decreases e,
{
    match e {
        ExprV::Unary(_, x) => pass_expr(*x, bound),
        ExprV::Binary(l, _, r) => match pass_expr(*l, bound) {
            Err(f) => Err(f),
            Ok(b) => pass_expr(*r, b),
        },
        ExprV::FnCall(_, args) => pass_exprs(args, bound),
        ExprV::Access(p, _) => pass_expr(*p, bound),
        ExprV::Variable(_) => Ok(bound),
        ExprV::Literal(_) => Ok(bound),
        ExprV::Index(a, i) => match pass_expr(*a, bound) {
            Err(f) => Err(f),
            Ok(b) => pass_expr(*i, b),
        },
        ExprV::Ternary(c, y, n) => match pass_expr(*y, bound) {
            Err(f) => Err(f),
            Ok(b) => match pass_expr(*n, b) {
                Err(f) => Err(f),
                Ok(b2) => pass_expr(*c, b2),
            },
        },
        ExprV::PreFix(_, x) => pass_expr(*x, bound),
        ExprV::PostFix(_, x) => pass_expr(*x, bound),
        ExprV::Tuple(args) => pass_exprs(args, bound),
        ExprV::Array(args) => pass_exprs(args, bound),
        ExprV::Block(ss) => inside(pass_stmts(ss, seq![]), bound),
        ExprV::Assign(l, r) => match pass_expr(*l, bound) {
            Err(f) => Err(f),
            Ok(b) => pass_expr(*r, b),
        },
        ExprV::Nonuniform(x) => pass_expr(*x, bound),
        ExprV::TupleAccess(t, _) => pass_expr(*t, bound),
        ExprV::AccessFnCall(p, _, args) => match pass_expr(*p, bound) {
            Err(f) => Err(f),
            Ok(b) => pass_exprs(args, b),
        },
        ExprV::This => Ok(bound),
        ExprV::As(_, t) => pass_type(t, bound),
        ExprV::Construct(_, fields) => pass_fields(fields, bound),
    }
}

pub open spec fn pass_exprs(es: Seq<(ExprV, bool)>, bound: Seq<Seq<char>>) -> PassRes
    decreases es,
{
    if es.len() == 0 {
        Ok(bound)
    } else {
        match pass_expr(es[0].0, bound) {
            Err(f) => Err(f),
            Ok(b) => pass_exprs(es.drop_first(), b),
        }
    }
}

pub open spec fn pass_fields(fs: Seq<(Seq<char>, ExprV, bool)>, bound: Seq<Seq<char>>) -> PassRes
    decreases fs,
{
    if fs.len() == 0 {
        Ok(bound)
    } else {
        match pass_expr(fs[0].1, bound) {
            Err(f) => Err(f),
            Ok(b) => pass_fields(fs.drop_first(), b),
        }
    }
}

/// The pass over an optional type.
pub open spec fn pass_opt_type(t: Option<TypeV>, bound: Seq<Seq<char>>) -> PassRes {
    match t {
        Some(x) => pass_type(x, bound),
        None => Ok(bound),
    }
}

/// The pass over a statement: structures and functions are declared where
/// they are written; a loop body and a block get scopes of their own;
/// conditions, initial values and the insides of structures are not gone over.
pub open spec fn pass_stmt(s: StmtV, bound: Seq<Seq<char>>) -> PassRes
    decreases s,
{
    match s {
        StmtV::If(_, b, e) => match pass_stmt(*b, bound) {
            Err(f) => Err(f),
            Ok(b1) => match e {
                Some(x) => pass_stmt(*x, b1),
                None => Ok(b1),
            },
        },
        StmtV::For(_, _, _, b) => inside(pass_stmt(*b, seq![]), bound),
        StmtV::While(_, b) => pass_stmt(*b, bound),
        StmtV::MethodDecl(n, _, rt, b) => match declare(bound, n, false) {
            Err(f) => Err(f),
            Ok(b1) => match pass_opt_type(rt, b1) {
                Err(f) => Err(f),
                Ok(b2) => pass_stmt(*b, b2),
            },
        },
        StmtV::VarDecl(_, t, _, _) => pass_opt_type(t, bound),
        StmtV::Return(e) => match e {
            Some(x) => pass_expr(x, bound),
            None => Ok(bound),
        },
        StmtV::Yield(e) => pass_expr(e, bound),
        StmtV::Break => Ok(bound),
        StmtV::Continue => Ok(bound),
        StmtV::Include(_) => Err(PassFail::Include),
        StmtV::Extension(_, _) => Ok(bound),
        StmtV::Input(t, _, _) => pass_type(t, bound),
        StmtV::Output(t, _) => pass_type(t, bound),
        StmtV::Provide(t, _, _) => pass_type(t, bound),
        StmtV::PushConstants(_, t) => pass_type(t, bound),
        StmtV::Uniform(_, t, _, _, _, _) => pass_type(t, bound),
        StmtV::Struct(n, _, _) => declare(bound, n, true),
        StmtV::Block(ss) => inside(pass_stmts(ss, seq![]), bound),
        StmtV::Compound(ss) => pass_stmts(ss, bound),
        StmtV::Expr(e) => pass_expr(e, bound),
        StmtV::Semi => Ok(bound),
    }
}

pub open spec fn pass_stmts(ss: Seq<StmtV>, bound: Seq<Seq<char>>) -> PassRes
    decreases ss,
{
    if ss.len() == 0 {
        Ok(bound)
    } else {
        match pass_stmt(ss[0], bound) {
            Err(f) => Err(f),
            Ok(b) => pass_stmts(ss.drop_first(), b),
        }
    }
}
} // verus!

verus! {

/// The names a list of bindings binds, in order.
pub open spec fn bound_names(b: Seq<(Seq<char>, SymbolId)>) -> Seq<Seq<char>> {
    b.map_values(|e: (Seq<char>, SymbolId)| e.0)
}

proof fn lemma_bound_names(b: Seq<(Seq<char>, SymbolId)>, n: Seq<char>)
    ensures
        binding_of(b, n) is Some <==> bound_names(b).contains(n),
    decreases b.len(),
{
    if b.len() > 0 {
        lemma_bound_names(b.drop_last(), n);
        assert(bound_names(b.drop_last()) =~= bound_names(b).drop_last());
        if bound_names(b).contains(n) && b.last().0 != n {
            let i = choose|i: int| 0 <= i < bound_names(b).len() && bound_names(b)[i] == n;
            assert(i < b.len() - 1);
            assert(bound_names(b.drop_last())[i] == n);
        }
        if b.last().0 == n {
            assert(bound_names(b)[b.len() - 1] == n);
        }
    }
}

/// The hint given with a name declared twice.
pub open spec fn dup_hint(n: Seq<char>, is_struct: bool) -> Seq<char> {
    if is_struct {
        "consider removing one of the structs `"@ + n + "`"@
    } else {
        "consider removing one of the functions `"@ + n + "`"@
    }
}

/// Why the pass stopped: an error, or an include statement reached.
pub enum Halt {
    Error(ParseErr),
    Include,
}

/// The error reported for a name declared twice.
pub open spec fn dup_error(e: ParseErr, n: Seq<char>, is_struct: bool) -> bool {
    &&& if is_struct {
        e.ty matches ParseErrType::DuplicateStruct(s) && s@ == n
    } else {
        e.ty matches ParseErrType::DuplicateFn(s) && s@ == n
    }
    &&& e.hint matches Some(h) && h@ == dup_hint(n, is_struct)
    &&& e.tail@ == Seq::<char>::empty()
}

/// What the pass returns agrees with the spec outcome `p`, `after` being the
/// names declared in the current scope afterwards.
pub open spec fn agrees(p: PassRes, r: Result<(), Halt>, after: Seq<Seq<char>>) -> bool {
    match p {
        Ok(b) => r is Ok && after == b,
        Err(PassFail::Dup(n, is_struct)) => r matches Err(Halt::Error(e)) && dup_error(e, n, is_struct),
        Err(PassFail::Include) => r matches Err(Halt::Include),
    }
}

/// `new` grew from `old` by adding scopes and declaring names in `scope` or
/// in the added scopes only.
pub open spec fn grew(old: Scopes, new: Scopes, scope: ScopeId) -> bool {
    &&& new.wf()
    &&& new.count() >= old.count()
    &&& forall|t: ScopeId| t < old.count() ==> #[trigger] new.parent(t) == old.parent(t)
    &&& forall|t: ScopeId| t < old.count() && t != scope ==> #[trigger] new.bindings(t) == old.bindings(t)
    &&& forall|n: Seq<char>|
        #[trigger] binding_of(old.bindings(scope), n) is Some ==> binding_of(new.bindings(scope), n) == binding_of(
            old.bindings(scope),
            n,
        )
    &&& new.table() == old.table()
}

/// The names a pass result declares; none where it failed.
pub open spec fn pass_names(p: PassRes) -> Seq<Seq<char>> {
    match p {
        Ok(b) => b,
        Err(_) => seq![],
    }
}

/// `fut` is a scope opened inside `scope` that binds exactly `names`.
pub open spec fn opened(fut: Option<ScopeId>, scopes: Scopes, scope: ScopeId, names: Seq<Seq<char>>) -> bool {
    &&& fut matches Some(s)
    &&& scope < s < scopes.count()
    &&& scopes.parent(s) == Some(scope)
    &&& bound_names(scopes.bindings(s)) == names
}

/// `id` is the symbol `name` is bound to in `scope`.
pub open spec fn declared(symbol: Option<SymbolId>, scopes: Scopes, scope: ScopeId, name: Seq<char>) -> bool {
    symbol matches Some(id) && binding_of(scopes.bindings(scope), name) == Some(id)
}

/// What the first pass records on a statement it went over in `scope`, and
/// on the statements nested in it: loops and blocks get a new scope inside
/// `scope` holding what their body declares; structures and functions get a
/// new, empty scope inside `scope` and the symbol their name is bound to in
/// `scope`.
pub open spec fn stmt_opens(st: Stmt, scopes: Scopes, scope: ScopeId) -> bool
    decreases st,
{
    match st {
        Stmt::For(s) => opened(s.fut_scope, scopes, scope, pass_names(pass_stmt(stmt_v(*s.block), seq![])))
            && stmt_opens(*s.block, scopes, s.fut_scope.unwrap()),
        Stmt::Block(s) => opened(s.fut_scope, scopes, scope, pass_names(pass_stmts(stmts_v(s.stmts@), seq![])))
            && stmts_open(s.stmts@, scopes, s.fut_scope.unwrap()),
        Stmt::Struct(s) => opened(s.fut_scope, scopes, scope, seq![]) && declared(s.symbol_id, scopes, scope, s.name.val@),
        Stmt::MethodDecl(s) => opened(s.fut_scope, scopes, scope, seq![]) && declared(
            s.symbol_id,
            scopes,
            scope,
            s.name.val@,
        ) && stmt_opens(*s.block, scopes, scope),
        Stmt::If(s) => stmt_opens(*s.branch, scopes, scope) && match s.else_branch {
            Some(b) => stmt_opens(*b, scopes, scope),
            None => true,
        },
        Stmt::While(s) => stmt_opens(*s.block, scopes, scope),
        Stmt::Compound(s) => stmts_open(s.components@, scopes, scope),
        Stmt::Expr(s) => expr_opens(s.expr, scopes, scope),
        _ => true,
    }
}

/// `stmt_opens` of each statement of a list.
pub open spec fn stmts_open(ss: Seq<Stmt>, scopes: Scopes, scope: ScopeId) -> bool
    decreases ss,
{
    if ss.len() == 0 {
        true
    } else {
        stmt_opens(ss[0], scopes, scope) && stmts_open(ss.drop_first(), scopes, scope)
    }
}

proof fn lemma_stmts_open_all(ss: Seq<Stmt>, scopes: Scopes, scope: ScopeId)
    ensures
        stmts_open(ss, scopes, scope) <==> forall|j: int| 0 <= j < ss.len() ==> stmt_opens(#[trigger] ss[j], scopes, scope),
    decreases ss.len(),
{
    if ss.len() > 0 {
        lemma_stmts_open_all(ss.drop_first(), scopes, scope);
        if forall|j: int| 0 <= j < ss.len() ==> stmt_opens(#[trigger] ss[j], scopes, scope) {
            assert forall|j: int| 0 <= j < ss.drop_first().len() implies stmt_opens(
                #[trigger] ss.drop_first()[j],
                scopes,
                scope,
            ) by {
                assert(ss.drop_first()[j] == ss[j + 1]);
            }
        }
        if stmts_open(ss, scopes, scope) {
            assert forall|j: int| 0 <= j < ss.len() implies stmt_opens(#[trigger] ss[j], scopes, scope) by {
                if j > 0 {
                    assert(ss[j] == ss.drop_first()[j - 1]);
                }
            }
        }
    }
}

/// What the first pass records stays true while it goes on in `ex`, in
/// `scope` itself or in a scope that encloses it.
pub proof fn lemma_opens_stable(st: Stmt, a: Scopes, b: Scopes, ex: ScopeId, scope: ScopeId)
    requires
        stmt_opens(st, a, scope),
        grew(a, b, ex),
        ex <= scope,
        scope < a.count(),
    ensures
        stmt_opens(st, b, scope),
    decreases st,
{
    match st {
        Stmt::For(s) => {
            lemma_opens_stable(*s.block, a, b, ex, s.fut_scope.unwrap());
        },
        Stmt::Block(s) => {
            lemma_stmts_stable(s.stmts@, a, b, ex, s.fut_scope.unwrap());
        },
        Stmt::MethodDecl(s) => {
            lemma_opens_stable(*s.block, a, b, ex, scope);
        },
        Stmt::If(s) => {
            lemma_opens_stable(*s.branch, a, b, ex, scope);
            match s.else_branch {
                Some(e) => {
                    lemma_opens_stable(*e, a, b, ex, scope);
                },
                None => {},
            }
        },
        Stmt::While(s) => {
            lemma_opens_stable(*s.block, a, b, ex, scope);
        },
        Stmt::Compound(s) => {
            lemma_stmts_stable(s.components@, a, b, ex, scope);
        },
        Stmt::Expr(s) => {
            assert(expr_opens(s.expr, a, scope));
            match s.expr {
                Expr::Block(x) => {
                    lemma_stmts_stable(x.block@, a, b, ex, x.fut_scope.unwrap());
                },
                _ => {},
            }
            assert(expr_opens(s.expr, b, scope));
        },
        _ => {},
    }
}

proof fn lemma_stmts_stable(ss: Seq<Stmt>, a: Scopes, b: Scopes, ex: ScopeId, scope: ScopeId)
    requires
        stmts_open(ss, a, scope),
        grew(a, b, ex),
        ex <= scope,
        scope < a.count(),
    ensures
        stmts_open(ss, b, scope),
    decreases ss,
{
    if ss.len() > 0 {
        lemma_opens_stable(ss[0], a, b, ex, scope);
        lemma_stmts_stable(ss.drop_first(), a, b, ex, scope);
    }
}

/// What the first pass records on an expression: a block gets a new scope
/// inside `scope` holding what its statements declare, and its statements
/// are recorded on in that scope.
pub open spec fn expr_opens(e: Expr, scopes: Scopes, scope: ScopeId) -> bool
    decreases e,
{
    match e {
        Expr::Block(x) => opened(x.fut_scope, scopes, scope, pass_names(pass_stmts(stmts_v(x.block@), seq![])))
            && stmts_open(x.block@, scopes, x.fut_scope.unwrap()),
        _ => true,
    }
}


/// The next value of the counter named `key`: `mvutils::utils::next_id`.
/// Claims only that the value is at least 1: each counter starts at 0 and is
/// incremented before it is read (it would wrap only after 2^64 calls). The
/// counters are shared by the whole process, so which value comes, and that
/// it was not handed out before, is left unsaid.
#[verifier::external_body]
pub(crate) fn next_id(key: &str) -> (r: SymbolId)
    ensures
        r >= 1,
{
    mvutils::utils::next_id(key)
}

/// The name of the counter that symbol ids are drawn from.
pub const COUNTER_ID: &'static str = "SymbolId";

/// Declares `name` in `scope` as a structure (or function): binds it to a
/// fresh id, or refuses it when `scope` already binds it.
fn declare_name(name: &String, tkn: &crate::token::TokCtx, is_struct: bool, id: SymbolId, scope: ScopeId, scopes: &mut Scopes) -> (r: Result<(), Halt>)
    requires
        old(scopes).wf(),
        scope < old(scopes).count(),
    ensures
        grew(*old(scopes), *final(scopes), scope),
        final(scopes).count() == old(scopes).count(),
        agrees(declare(bound_names(old(scopes).bindings(scope)), name@, is_struct), r, bound_names(final(scopes).bindings(scope))),
        r is Ok ==> binding_of(final(scopes).bindings(scope), name@) == Some(id),
{
    proof {
        lemma_bound_names(scopes.bindings(scope), name@);
    }
    match scopes.local(scope, name) {
        Some(_) => {
            let mut h: Vec<char> = Vec::new();
            if is_struct {
                push_lit(&mut h, "consider removing one of the structs `");
            } else {
                push_lit(&mut h, "consider removing one of the functions `");
            }
            extend_chars(&mut h, &string_chars(name));
            push_lit(&mut h, "`");
            let ty = if is_struct {
                ParseErrType::DuplicateStruct(name.clone())
            } else {
                ParseErrType::DuplicateFn(name.clone())
            };
            Err(Halt::Error(ParseErr { ty, ctx: tkn.clone(), tail: String::new(), hint: Some(string_from_chars(&h)) }))
        },
        None => {
            let ghost before = scopes.bindings(scope);
            scopes.bind(scope, name.clone(), id);
            proof {
                assert(bound_names(before.push((name@, id))) =~= bound_names(before).push(name@));
            }
            Ok(())
        },
    }
}

/// Gives a structure its own scope inside `scope` and declares its name in `scope`.
fn handle_struct(stmt: &mut StructStmt, scope: ScopeId, scopes: &mut Scopes) -> (r: Result<(), Halt>)
    requires
        old(scopes).wf(),
        scope < old(scopes).count(),
    ensures
        grew(*old(scopes), *final(scopes), scope),
        struct_v(*final(stmt)) == struct_v(*old(stmt)),
        agrees(
            declare(bound_names(old(scopes).bindings(scope)), old(stmt).name.val@, true),
            r,
            bound_names(final(scopes).bindings(scope)),
        ),
        opened(final(stmt).fut_scope, *final(scopes), scope, seq![]),
        final(stmt).symbol_id is Some,
        r is Ok ==> declared(final(stmt).symbol_id, *final(scopes), scope, old(stmt).name.val@),
{
    let inner = scopes.with_parent(scope);
    proof {
        assert(bound_names(scopes.bindings(inner)) =~= Seq::<Seq<char>>::empty());
    }
    stmt.fut_scope = Some(inner);
    let id = next_id(COUNTER_ID);
    stmt.symbol_id = Some(id);
    declare_name(&stmt.name.val, &stmt.name.tkn, true, id, scope, scopes)
}

} // verus!

verus! {

/// Gives a function its own scope inside `scope` and declares its name in `scope`.
fn handle_fn(stmt: &mut MethodDeclStmt, scope: ScopeId, scopes: &mut Scopes) -> (r: Result<(), Halt>)
    requires
        old(scopes).wf(),
        scope < old(scopes).count(),
    ensures
        grew(*old(scopes), *final(scopes), scope),
        method_v(*final(stmt)) == method_v(*old(stmt)),
        agrees(
            declare(bound_names(old(scopes).bindings(scope)), old(stmt).name.val@, false),
            r,
            bound_names(final(scopes).bindings(scope)),
        ),
        opened(final(stmt).fut_scope, *final(scopes), scope, seq![]),
        final(stmt).symbol_id is Some,
        r is Ok ==> declared(final(stmt).symbol_id, *final(scopes), scope, old(stmt).name.val@),
        final(stmt).block == old(stmt).block,
        final(stmt).return_type == old(stmt).return_type,
{
    let inner = scopes.with_parent(scope);
    proof {
        assert(bound_names(scopes.bindings(inner)) =~= Seq::<Seq<char>>::empty());
    }
    stmt.fut_scope = Some(inner);
    let id = next_id(COUNTER_ID);
    stmt.symbol_id = Some(id);
    declare_name(&stmt.name.val, &stmt.name.tkn, false, id, scope, scopes)
}

/// The pass over a type.
fn handle_type(ty: &mut Type, scope: ScopeId, scopes: &mut Scopes) -> (r: Result<(), Halt>)
    requires
        old(scopes).wf(),
        scope < old(scopes).count(),
    ensures
        grew(*old(scopes), *final(scopes), scope),
        type_v(*final(ty)) == type_v(*old(ty)),
        agrees(pass_type(type_v(*old(ty)), bound_names(old(scopes).bindings(scope))), r, bound_names(final(scopes).bindings(scope))),
    decreases *old(ty),
{
    match ty {
        Type::StructDef(sd) => handle_struct(&mut sd.inner, scope, scopes),
        Type::ArrayOf(a) => handle_type(&mut a.component, scope, scopes),
        Type::TupleOf(t) => handle_types(&mut t.types, scope, scopes),
        _ => Ok(()),
    }
}

proof fn lemma_type_list_v(s: Seq<(Type, Option<crate::token::TokCtx>)>)
    ensures
        type_list_v(s).len() == s.len(),
        forall|i: int| 0 <= i < s.len() ==> #[trigger] type_list_v(s)[i] == (type_v(s[i].0), s[i].1 is Some),
    decreases s.len(),
{
    if s.len() > 0 {
        lemma_type_list_v(s.drop_first());
        assert forall|i: int| 0 <= i < s.len() implies #[trigger] type_list_v(s)[i] == (type_v(s[i].0), s[i].1 is Some) by {
            if i > 0 {
                assert(s.drop_first()[i - 1] == s[i]);
            }
        }
    }
}

proof fn lemma_type_list_same(s: Seq<(Type, Option<crate::token::TokCtx>)>, t: Seq<(Type, Option<crate::token::TokCtx>)>)
    requires
        s.len() == t.len(),
        forall|i: int| 0 <= i < s.len() ==> type_v(#[trigger] s[i].0) == type_v(t[i].0) && (s[i].1 is Some) == (t[i].1 is Some),
    ensures
        type_list_v(s) == type_list_v(t),
{
    lemma_type_list_v(s);
    lemma_type_list_v(t);
    assert(type_list_v(s) =~= type_list_v(t));
}

/// The pass over the member types of a tuple, in order.
fn handle_types(ts: &mut Vec<(Type, Option<crate::token::TokCtx>)>, scope: ScopeId, scopes: &mut Scopes) -> (r: Result<(), Halt>)
    requires
        old(scopes).wf(),
        scope < old(scopes).count(),
    ensures
        grew(*old(scopes), *final(scopes), scope),
        type_list_v(final(ts)@) == type_list_v(old(ts)@),
        agrees(pass_types(type_list_v(old(ts)@), bound_names(old(scopes).bindings(scope))), r, bound_names(final(scopes).bindings(scope))),
    decreases old(ts)@,
{
    let ghost l = type_list_v(old(ts)@);
    proof {
        lemma_type_list_v(old(ts)@);
        assert(l.skip(0) =~= l);
    }
    let mut i: usize = 0;
    while i < ts.len()
        invariant
            scope < scopes.count(),
            grew(*old(scopes), *scopes, scope),
            ts@.len() == old(ts)@.len(),
            l == type_list_v(old(ts)@),
            l.len() == old(ts)@.len(),
            i <= ts@.len(),
            forall|j: int| 0 <= j < i ==> type_v(#[trigger] ts@[j].0) == type_v(old(ts)@[j].0) && (ts@[j].1 is Some)
                == (old(ts)@[j].1 is Some),
            forall|j: int| i <= j < ts@.len() ==> #[trigger] ts@[j] == old(ts)@[j],
            pass_types(l, bound_names(old(scopes).bindings(scope))) == pass_types(l.skip(i as int), bound_names(scopes.bindings(scope))),
        decreases ts@.len() - i,
    {
        let ghost before = *scopes;
        proof {
            lemma_type_list_v(old(ts)@);
            assert(l[i as int] == (type_v(old(ts)@[i as int].0), old(ts)@[i as int].1 is Some));
            assert(l.skip(i as int).drop_first() =~= l.skip(i + 1));
            assert(l.skip(i as int)[0] == l[i as int]);
            assert(decreases_to!(old(ts)@ => old(ts)@[i as int]));
        }
        let r = handle_type(&mut ts[i].0, scope, scopes);
        i += 1;
        if r.is_err() {
            proof {
                lemma_type_list_same(ts@, old(ts)@);
            }
            return r;
        }
    }
    proof {
        lemma_type_list_same(ts@, old(ts)@);
        assert(l.skip(i as int) =~= Seq::<(TypeV, bool)>::empty());
    }
    Ok(())
}

} // verus!

verus! {

proof fn lemma_expr_list_v(s: Seq<(Expr, Option<crate::token::TokCtx>)>)
    ensures
        expr_list_v(s).len() == s.len(),
        forall|i: int| 0 <= i < s.len() ==> #[trigger] expr_list_v(s)[i] == (expr_v(s[i].0), s[i].1 is Some),
    decreases s.len(),
{
    if s.len() > 0 {
        lemma_expr_list_v(s.drop_first());
        assert forall|i: int| 0 <= i < s.len() implies #[trigger] expr_list_v(s)[i] == (expr_v(s[i].0), s[i].1 is Some) by {
            if i > 0 {
                assert(s.drop_first()[i - 1] == s[i]);
            }
        }
    }
}

proof fn lemma_field_list_v(s: Seq<(crate::parser::ast::FieldInit, Option<crate::token::TokCtx>)>)
    ensures
        field_list_v(s).len() == s.len(),
        forall|i: int| 0 <= i < s.len() ==> #[trigger] field_list_v(s)[i] == (s[i].0.name.val@, expr_v(*s[i].0.expr), s[i].1 is Some),
    decreases s.len(),
{
    if s.len() > 0 {
        lemma_field_list_v(s.drop_first());
        assert forall|i: int| 0 <= i < s.len() implies #[trigger] field_list_v(s)[i] == (s[i].0.name.val@, expr_v(*s[i].0.expr), s[i].1 is Some) by {
            if i > 0 {
                assert(s.drop_first()[i - 1] == s[i]);
            }
        }
    }
}

proof fn lemma_stmts_v(s: Seq<Stmt>)
    ensures
        stmts_v(s).len() == s.len(),
        forall|i: int| 0 <= i < s.len() ==> #[trigger] stmts_v(s)[i] == stmt_v(s[i]),
    decreases s.len(),
{
    if s.len() > 0 {
        lemma_stmts_v(s.drop_first());
        assert forall|i: int| 0 <= i < s.len() implies #[trigger] stmts_v(s)[i] == stmt_v(s[i]) by {
            if i > 0 {
                assert(s.drop_first()[i - 1] == s[i]);
            }
        }
    }
}

/// The pass over the expressions of a list, in order.
fn handle_exprs(es: &mut Vec<(Expr, Option<crate::token::TokCtx>)>, scope: ScopeId, scopes: &mut Scopes) -> (r: Result<(), Halt>)
    requires
        old(scopes).wf(),
        scope < old(scopes).count(),
    ensures
        grew(*old(scopes), *final(scopes), scope),
        expr_list_v(final(es)@) == expr_list_v(old(es)@),
        agrees(pass_exprs(expr_list_v(old(es)@), bound_names(old(scopes).bindings(scope))), r, bound_names(final(scopes).bindings(scope))),
    decreases old(es)@,
{
    let ghost l = expr_list_v(old(es)@);
    proof {
        lemma_expr_list_v(old(es)@);
        assert(l.skip(0) =~= l);
    }
    let mut i: usize = 0;
    while i < es.len()
        invariant
            scope < scopes.count(),
            grew(*old(scopes), *scopes, scope),
            es@.len() == old(es)@.len(),
            l == expr_list_v(old(es)@),
            l.len() == old(es)@.len(),
            i <= es@.len(),
            forall|j: int| 0 <= j < i ==> expr_v(#[trigger] es@[j].0) == expr_v(old(es)@[j].0) && (es@[j].1 is Some)
                == (old(es)@[j].1 is Some),
            forall|j: int| i <= j < es@.len() ==> #[trigger] es@[j] == old(es)@[j],
            pass_exprs(l, bound_names(old(scopes).bindings(scope))) == pass_exprs(l.skip(i as int), bound_names(scopes.bindings(scope))),
        decreases es@.len() - i,
    {
        proof {
            lemma_expr_list_v(old(es)@);
            assert(l.skip(i as int).drop_first() =~= l.skip(i + 1));
            assert(l.skip(i as int)[0] == l[i as int]);
            assert(decreases_to!(old(es)@ => old(es)@[i as int]));
        }
        let r = handle_expr(&mut es[i].0, scope, scopes);
        i += 1;
        if r.is_err() {
            proof {
                lemma_expr_list_v(es@);
                assert(expr_list_v(es@) =~= expr_list_v(old(es)@));
            }
            return r;
        }
    }
    proof {
        lemma_expr_list_v(es@);
        assert(expr_list_v(es@) =~= expr_list_v(old(es)@));
        assert(l.skip(i as int) =~= Seq::<(ExprV, bool)>::empty());
    }
    Ok(())
}

/// The pass over the values of a structure construction, in order.
fn handle_fields(fs: &mut Vec<(crate::parser::ast::FieldInit, Option<crate::token::TokCtx>)>, scope: ScopeId, scopes: &mut Scopes) -> (r: Result<(), Halt>)
    requires
        old(scopes).wf(),
        scope < old(scopes).count(),
    ensures
        grew(*old(scopes), *final(scopes), scope),
        field_list_v(final(fs)@) == field_list_v(old(fs)@),
        agrees(pass_fields(field_list_v(old(fs)@), bound_names(old(scopes).bindings(scope))), r, bound_names(final(scopes).bindings(scope))),
    decreases old(fs)@,
{
    let ghost l = field_list_v(old(fs)@);
    proof {
        lemma_field_list_v(old(fs)@);
        assert(l.skip(0) =~= l);
    }
    let mut i: usize = 0;
    while i < fs.len()
        invariant
            scope < scopes.count(),
            grew(*old(scopes), *scopes, scope),
            fs@.len() == old(fs)@.len(),
            l == field_list_v(old(fs)@),
            l.len() == old(fs)@.len(),
            i <= fs@.len(),
            forall|j: int| 0 <= j < i ==> expr_v(*(#[trigger] fs@[j]).0.expr) == expr_v(*old(fs)@[j].0.expr)
                && fs@[j].0.name == old(fs)@[j].0.name && (fs@[j].1 is Some) == (old(fs)@[j].1 is Some),
            forall|j: int| i <= j < fs@.len() ==> #[trigger] fs@[j] == old(fs)@[j],
            pass_fields(l, bound_names(old(scopes).bindings(scope))) == pass_fields(l.skip(i as int), bound_names(scopes.bindings(scope))),
        decreases fs@.len() - i,
    {
        proof {
            lemma_field_list_v(old(fs)@);
            assert(l.skip(i as int).drop_first() =~= l.skip(i + 1));
            assert(l.skip(i as int)[0] == l[i as int]);
            assert(decreases_to!(old(fs)@ => old(fs)@[i as int]));
        }
        let r = handle_expr(&mut fs[i].0.expr, scope, scopes);
        i += 1;
        if r.is_err() {
            proof {
                lemma_field_list_v(fs@);
                assert(field_list_v(fs@) =~= field_list_v(old(fs)@));
            }
            return r;
        }
    }
    proof {
        lemma_field_list_v(fs@);
        assert(field_list_v(fs@) =~= field_list_v(old(fs)@));
        assert(l.skip(i as int) =~= Seq::<(Seq<char>, ExprV, bool)>::empty());
    }
    Ok(())
}

/// The statements of a list, in order, in the same scope.
fn handle_stmts(ss: &mut Vec<Stmt>, scope: ScopeId, scopes: &mut Scopes) -> (r: Result<(), Halt>)
    requires
        old(scopes).wf(),
        scope < old(scopes).count(),
    ensures
        grew(*old(scopes), *final(scopes), scope),
        stmts_v(final(ss)@) == stmts_v(old(ss)@),
        agrees(pass_stmts(stmts_v(old(ss)@), bound_names(old(scopes).bindings(scope))), r, bound_names(final(scopes).bindings(scope))),
        r is Ok ==> stmts_open(final(ss)@, *final(scopes), scope),
    decreases old(ss)@,
{
    let ghost l = stmts_v(old(ss)@);
    proof {
        lemma_stmts_v(old(ss)@);
        assert(l.skip(0) =~= l);
    }
    let mut i: usize = 0;
    while i < ss.len()
        invariant
            scope < scopes.count(),
            grew(*old(scopes), *scopes, scope),
            ss@.len() == old(ss)@.len(),
            l == stmts_v(old(ss)@),
            l.len() == old(ss)@.len(),
            i <= ss@.len(),
            forall|j: int| 0 <= j < i ==> stmt_v(#[trigger] ss@[j]) == stmt_v(old(ss)@[j]),
            forall|j: int| i <= j < ss@.len() ==> #[trigger] ss@[j] == old(ss)@[j],
            pass_stmts(l, bound_names(old(scopes).bindings(scope))) == pass_stmts(l.skip(i as int), bound_names(scopes.bindings(scope))),
            forall|j: int| 0 <= j < i ==> stmt_opens(#[trigger] ss@[j], *scopes, scope),
        decreases ss@.len() - i,
    {
        proof {
            lemma_stmts_v(old(ss)@);
            assert(l.skip(i as int).drop_first() =~= l.skip(i + 1));
            assert(l.skip(i as int)[0] == l[i as int]);
            assert(decreases_to!(old(ss)@ => old(ss)@[i as int]));
        }
        let ghost before = *scopes;
        let ghost done = ss@;
        let r = handle_stmt(&mut ss[i], scope, scopes);
        proof {
            assert forall|j: int| 0 <= j < i implies stmt_opens(#[trigger] ss@[j], *scopes, scope) by {
                assert(ss@[j] == done[j]);
                lemma_opens_stable(done[j], before, *scopes, scope, scope);
            }
        }
        i += 1;
        if r.is_err() {
            proof {
                lemma_stmts_v(ss@);
                assert(stmts_v(ss@) =~= stmts_v(old(ss)@));
            }
            return r;
        }
    }
    proof {
        lemma_stmts_v(ss@);
        assert(stmts_v(ss@) =~= stmts_v(old(ss)@));
        assert(l.skip(i as int) =~= Seq::<StmtV>::empty());
        lemma_stmts_open_all(ss@, *scopes, scope);
    }
    Ok(())
}

} // verus!

verus! {

/// The pass over an expression.
#[verifier::spinoff_prover]
#[verifier::rlimit(60)]
fn handle_expr(expr: &mut Expr, scope: ScopeId, scopes: &mut Scopes) -> (r: Result<(), Halt>)
    requires
        old(scopes).wf(),
        scope < old(scopes).count(),
    ensures
        grew(*old(scopes), *final(scopes), scope),
        expr_v(*final(expr)) == expr_v(*old(expr)),
        agrees(pass_expr(expr_v(*old(expr)), bound_names(old(scopes).bindings(scope))), r, bound_names(final(scopes).bindings(scope))),
        r is Ok ==> expr_opens(*final(expr), *final(scopes), scope),
    decreases *old(expr),
{
    match expr {
        Expr::Unary(x) => handle_expr(&mut x.expr, scope, scopes),
        Expr::Binary(x) => {
            let r = handle_expr(&mut x.lhs, scope, scopes);
            if r.is_err() {
                return r;
            }
            handle_expr(&mut x.rhs, scope, scopes)
        },
        Expr::FnCall(x) => handle_exprs(&mut x.args, scope, scopes),
        Expr::Access(x) => handle_expr(&mut x.parent, scope, scopes),
        Expr::Index(x) => {
            let r = handle_expr(&mut x.array, scope, scopes);
            if r.is_err() {
                return r;
            }
            handle_expr(&mut x.index, scope, scopes)
        },
        Expr::Ternary(x) => {
            let r = handle_expr(&mut x.yes, scope, scopes);
            if r.is_err() {
                return r;
            }
            let r = handle_expr(&mut x.no, scope, scopes);
            if r.is_err() {
                return r;
            }
            handle_expr(&mut x.cond, scope, scopes)
        },
        Expr::PreFix(x) => handle_expr(&mut x.expr, scope, scopes),
        Expr::PostFix(x) => handle_expr(&mut x.expr, scope, scopes),
        Expr::Tuple(x) => handle_exprs(&mut x.args, scope, scopes),
        Expr::Array(x) => handle_exprs(&mut x.args, scope, scopes),
        Expr::Block(x) => {
            let ns = scopes.with_parent(scope);
            proof {
                assert(bound_names(scopes.bindings(ns)) =~= Seq::<Seq<char>>::empty());
            }
            let r = handle_stmts(&mut x.block, ns, scopes);
            if r.is_err() {
                return r;
            }
            x.fut_scope = Some(ns);
            Ok(())
        },
        Expr::Assign(x) => {
            let r = handle_expr(&mut x.lhs, scope, scopes);
            if r.is_err() {
                return r;
            }
            handle_expr(&mut x.rhs, scope, scopes)
        },
        Expr::Nonuniform(x) => handle_expr(&mut x.expr, scope, scopes),
        Expr::TupleAccess(x) => handle_expr(&mut x.tuple, scope, scopes),
        Expr::AccessFnCall(x) => {
            let r = handle_expr(&mut x.parent, scope, scopes);
            if r.is_err() {
                return r;
            }
            handle_exprs(&mut x.args, scope, scopes)
        },
        Expr::Construct(x) => handle_fields(&mut x.fields, scope, scopes),
        Expr::As(x) => handle_type(&mut x.ty, scope, scopes),
        Expr::This(_) => Ok(()),
        Expr::Literal(_) => Ok(()),
        Expr::Variable(_) => Ok(()),
    }
}

} // verus!

verus! {

/// The pass over a statement.
#[verifier::spinoff_prover]
#[verifier::rlimit(60)]
fn handle_stmt(stmt: &mut Stmt, scope: ScopeId, scopes: &mut Scopes) -> (r: Result<(), Halt>)
    requires
        old(scopes).wf(),
        scope < old(scopes).count(),
    ensures
        grew(*old(scopes), *final(scopes), scope),
        stmt_v(*final(stmt)) == stmt_v(*old(stmt)),
        agrees(pass_stmt(stmt_v(*old(stmt)), bound_names(old(scopes).bindings(scope))), r, bound_names(final(scopes).bindings(scope))),
        r is Ok ==> stmt_opens(*final(stmt), *final(scopes), scope),
    decreases *old(stmt),
{
    match stmt {
        Stmt::For(s) => {
            let fs = scopes.with_parent(scope);
            proof {
                assert(bound_names(scopes.bindings(fs)) =~= Seq::<Seq<char>>::empty());
            }
            let r = handle_stmt(&mut s.block, fs, scopes);
            if r.is_err() {
                return r;
            }
            s.fut_scope = Some(fs);
            Ok(())
        },
        Stmt::If(s) => handle_if(s, scope, scopes),
        Stmt::While(s) => handle_stmt(&mut s.block, scope, scopes),
        Stmt::MethodDecl(s) => handle_method(s, scope, scopes),
        Stmt::VarDecl(s) => {
            let ghost t0 = s.ty;
            match s.ty.take() {
                Some(t) => {
                    let mut t = t;
                    let r = handle_type(&mut t, scope, scopes);
                    s.ty = Some(t);
                    proof {
                        assert(opt_type_v(s.ty) == opt_type_v(t0));
                    }
                    r
                },
                None => Ok(()),
            }
        },
        Stmt::Input(s) => handle_type(&mut s.ty, scope, scopes),
        Stmt::Output(s) => handle_type(&mut s.ty, scope, scopes),
        Stmt::Provide(s) => handle_type(&mut s.ty, scope, scopes),
        Stmt::PushConstants(s) => handle_type(&mut s.ty, scope, scopes),
        Stmt::Uniform(s) => handle_type(&mut s.ty, scope, scopes),
        Stmt::Struct(s) => handle_struct(s, scope, scopes),
        Stmt::Block(s) => {
            let ns = scopes.with_parent(scope);
            proof {
                assert(bound_names(scopes.bindings(ns)) =~= Seq::<Seq<char>>::empty());
            }
            let r = handle_stmts(&mut s.stmts, ns, scopes);
            if r.is_err() {
                return r;
            }
            s.fut_scope = Some(ns);
            Ok(())
        },
        Stmt::Compound(s) => handle_stmts(&mut s.components, scope, scopes),
        Stmt::Expr(s) => handle_expr(&mut s.expr, scope, scopes),
        Stmt::Return(s) => {
            let ghost e0 = s.expr;
            match s.expr.take() {
                Some(e) => {
                    let mut e = e;
                    let r = handle_expr(&mut e, scope, scopes);
                    s.expr = Some(e);
                    proof {
                        assert(opt_expr_v(s.expr) == opt_expr_v(e0));
                    }
                    r
                },
                None => Ok(()),
            }
        },
        Stmt::Yield(s) => handle_expr(&mut s.expr, scope, scopes),
        Stmt::Include(_) => Err(Halt::Include),
        Stmt::Break(_) => Ok(()),
        Stmt::Continue(_) => Ok(()),
        Stmt::Extension(_) => Ok(()),
        Stmt::Semi(_) => Ok(()),
    }
}

} // verus!

verus! {

/// The pass over a function declaration: its name is declared, then its
/// return type and its body are gone over in the same scope.
#[verifier::spinoff_prover]
fn handle_method(s: &mut MethodDeclStmt, scope: ScopeId, scopes: &mut Scopes) -> (r: Result<(), Halt>)
    requires
        old(scopes).wf(),
        scope < old(scopes).count(),
    ensures
        grew(*old(scopes), *final(scopes), scope),
        method_v(*final(s)) == method_v(*old(s)),
        agrees(pass_stmt(method_v(*old(s)), bound_names(old(scopes).bindings(scope))), r, bound_names(final(scopes).bindings(scope))),
        r is Ok ==> stmt_opens(Stmt::MethodDecl(*final(s)), *final(scopes), scope),
    decreases *old(s),
{
    let r = handle_fn(s, scope, scopes);
    if r.is_err() {
        return r;
    }
    let r = match &mut s.return_type {
        Some(t) => handle_type(t, scope, scopes),
        None => Ok(()),
    };
    assert(opt_type_v(s.return_type) == opt_type_v(old(s).return_type));
    if r.is_err() {
        return r;
    }
    handle_stmt(&mut s.block, scope, scopes)
}

} // verus!

verus! {

/// The pass over a conditional statement: its branches, in order.
#[verifier::spinoff_prover]
fn handle_if(s: &mut IfStmt, scope: ScopeId, scopes: &mut Scopes) -> (r: Result<(), Halt>)
    requires
        old(scopes).wf(),
        scope < old(scopes).count(),
    ensures
        grew(*old(scopes), *final(scopes), scope),
        stmt_v(Stmt::If(*final(s))) == stmt_v(Stmt::If(*old(s))),
        agrees(pass_stmt(stmt_v(Stmt::If(*old(s))), bound_names(old(scopes).bindings(scope))), r, bound_names(final(scopes).bindings(scope))),
        r is Ok ==> stmt_opens(Stmt::If(*final(s)), *final(scopes), scope),
    decreases *old(s),
{
    let r = handle_stmt(&mut s.branch, scope, scopes);
    if r.is_err() {
        return r;
    }
    let ghost mid = *s;
    let ghost mid_scopes = *scopes;
    match s.else_branch.take() {
        Some(b) => {
            let ghost b0 = b;
            let mut b = b;
            let r = handle_stmt(&mut b, scope, scopes);
            s.else_branch = Some(b);
            proof {
                assert(opt_stmt_v(s.else_branch) == opt_stmt_v(mid.else_branch));
                lemma_opens_stable(*s.branch, mid_scopes, *scopes, scope, scope);
            }
            r
        },
        None => {
            s.else_branch = None;
            Ok(())
        },
    }
}

} // verus!

verus! {

/// Runs the first pass over a whole program, in a new tree of scopes whose
/// global scope is number 0. The pass does not handle include statements:
/// it must not reach one.
pub fn handle_ast(ast: &mut Vec<Stmt>) -> (r: Result<Scopes, ParseErr>)
    requires
        !(pass_stmts(stmts_v(old(ast)@), seq![]) matches Err(PassFail::Include)),
    ensures
        stmts_v(final(ast)@) == stmts_v(old(ast)@),
        match pass_stmts(stmts_v(old(ast)@), seq![]) {
            Ok(names) => r matches Ok(s) && {
                &&& s.wf()
                &&& s.count() >= 1
                &&& s.parent(0) is None
                &&& bound_names(s.bindings(0)) == names
                &&& forall|j: int| 0 <= j < final(ast)@.len() ==> stmt_opens(#[trigger] final(ast)@[j], s, 0)
            },
            Err(PassFail::Dup(n, is_struct)) => r matches Err(e) && dup_error(e, n, is_struct),
            Err(PassFail::Include) => false,
        },
{
    let mut scopes = Scopes::global();
    proof {
        assert(bound_names(scopes.bindings(0)) =~= Seq::<Seq<char>>::empty());
    }
    match handle_stmts(ast, 0, &mut scopes) {
        Ok(()) => {
            proof {
                lemma_stmts_open_all(ast@, scopes, 0);
            }
            Ok(scopes)
        },
        Err(Halt::Error(e)) => Err(e),
        Err(Halt::Include) => {
            assert(false);
            Ok(scopes)
        },
    }
}

/// Whether the first pass over `ast` would reach an include statement
/// before stopping at an error. It goes over a copy, with scopes of its own.
pub fn reaches_include(ast: &Vec<Stmt>) -> (r: bool)
    ensures
        r == (pass_stmts(stmts_v(ast@), seq![]) matches Err(PassFail::Include)),
{
    let mut copy: Vec<Stmt> = Vec::new();
    let mut i: usize = 0;
    while i < ast.len()
        invariant
            i <= ast@.len(),
            copy@.len() == i,
            forall|j: int| 0 <= j < i ==> stmt_v(#[trigger] copy@[j]) == stmt_v(ast@[j]),
        decreases ast@.len() - i,
    {
        copy.push(ast[i].dup());
        i += 1;
    }
    proof {
        lemma_stmts_v(copy@);
        lemma_stmts_v(ast@);
        assert(stmts_v(copy@) =~= stmts_v(ast@));
    }
    let mut scopes = Scopes::global();
    proof {
        assert(bound_names(scopes.bindings(0)) =~= Seq::<Seq<char>>::empty());
    }
    match handle_stmts(&mut copy, 0, &mut scopes) {
        Err(Halt::Include) => true,
        _ => false,
    }
}

} // verus!
