use vksl::parser::ast::Ident as PIdent;
use vksl::parser::ast::Stmt;
use vksl::parser::err::ParseErrType;
use vksl::parser::Parser;
use vksl::scope::ast::{Ident, PrimitiveRef, StructRef};
use vksl::scope::struct_res::{handle_ast, reaches_include};
use vksl::scope::{Scopes, SymbolKind, SymbolSpecies};
use vksl::parser::ast::PrimitiveType;
use vksl::token::history::History;
use vksl::token::tokenizer::Tokenizer;
use vksl::token::TokCtx;

fn ctx(pos: u32) -> TokCtx {
    TokCtx { line: 1, start_pos: pos, end_pos: pos, file: None, history: History::new(60) }
}

fn ident(name: &str) -> PIdent {
    PIdent { val: name.to_string(), tkn: ctx(7) }
}

#[test]
fn name_distance_scores() {
    assert_eq!(Scopes::get_score(&"abc".to_string(), &"abd".to_string()), 1);
    assert_eq!(Scopes::get_score(&"ab".to_string(), &"abcd".to_string()), 52);
    assert_eq!(Scopes::get_score(&"".to_string(), &"".to_string()), 0);
    assert_eq!(Scopes::get_score(&"b".to_string(), &"a".to_string()), 1);
}

#[test]
fn closest_match_is_the_first_best() {
    let names = vec!["colour".to_string(), "color".to_string(), "colos".to_string()];
    assert_eq!(Scopes::find_closest_match(&names, &"colo".to_string()), Some(1));
    assert_eq!(Scopes::find_closest_match(&vec![], &"x".to_string()), None);
}

#[test]
fn lookup_walks_to_enclosing_scopes() {
    let mut s = Scopes::global();
    let inner = s.with_parent(0);
    assert_eq!(inner, 1);
    s.bind(0, "light".to_string(), 10);
    s.insert_symbol(10, SymbolKind::Variable);
    s.bind(inner, "x".to_string(), 11);
    s.insert_symbol(11, SymbolKind::Variable);
    assert_eq!(s.resolve_symbol_id(inner, &ident("light"), SymbolSpecies::Ident).ok(), Some(10));
    assert_eq!(s.resolve_symbol_id(inner, &ident("x"), SymbolSpecies::Ident).ok(), Some(11));
    assert!(s.resolve_symbol_id(0, &ident("x"), SymbolSpecies::Ident).is_err());
    s.bind(inner, "light".to_string(), 12);
    assert_eq!(s.resolve_symbol_id(inner, &ident("light"), SymbolSpecies::Ident).ok(), Some(12));
    assert_eq!(s.local(0, &"light".to_string()), Some(10));
}

#[test]
fn unknown_name_gets_a_hint() {
    let mut s = Scopes::global();
    s.bind(0, "light".to_string(), 1);
    s.insert_symbol(1, SymbolKind::Variable);
    s.bind(0, "Light".to_string(), 2);
    s.insert_symbol(2, SymbolKind::Struct);
    let e = s.resolve_symbol_id(0, &ident("lihgt"), SymbolSpecies::Ident).err().unwrap();
    assert!(matches!(e.ty, ParseErrType::UnknownIdent(ref n) if n == "lihgt"));
    assert_eq!(e.hint.as_deref(), Some("did you perhaps mean `light`?"));
    assert_eq!(e.ctx.start_pos, 7);
    assert_eq!(e.tail, "");
    let e = s.resolve_symbol_id(0, &ident("Lite"), SymbolSpecies::Type).err().unwrap();
    assert!(matches!(e.ty, ParseErrType::UnknownType(ref n) if n == "Lite"));
    assert_eq!(e.hint.as_deref(), Some("did you perhaps mean `Light`?"));
    let e = s.resolve_symbol_id(0, &ident("f"), SymbolSpecies::Fn).err().unwrap();
    assert!(e.hint.is_none());
}

#[test]
fn visible_names_in_order() {
    let mut s = Scopes::global();
    let inner = s.with_parent(0);
    s.bind(0, "a".to_string(), 1);
    s.insert_symbol(1, SymbolKind::Input);
    s.bind(inner, "b".to_string(), 2);
    s.insert_symbol(2, SymbolKind::Field);
    s.bind(inner, "p".to_string(), 3);
    s.insert_symbol(3, SymbolKind::FnParam);
    s.bind(inner, "q".to_string(), 4);
    assert_eq!(s.collect_all(inner, SymbolSpecies::Ident), vec!["b".to_string(), "a".to_string()]);
    assert_eq!(s.symbol_kind(3), Some(SymbolKind::FnParam));
    assert_eq!(s.symbol_kind(4), None);
}

#[test]
fn resolved_idents() {
    let c = Ident::convert(ident("x"), 5);
    assert_eq!((c.val.as_str(), c.symbol), ("x", 5));
    let p = Ident::plain(ident("y"));
    assert_eq!(p.symbol, u64::MAX);
}

#[test]
fn type_references_compare_by_what_they_name() {
    let a = PrimitiveRef { ty: PrimitiveType::Vec3, tkn: ctx(1) };
    let b = PrimitiveRef { ty: PrimitiveType::Vec3, tkn: ctx(9) };
    let c = PrimitiveRef { ty: PrimitiveType::Vec4, tkn: ctx(1) };
    assert!(a == b);
    assert!(a != c);
    assert!(StructRef { sym: 3, name_tkn: ctx(1) } == StructRef { sym: 3, name_tkn: ctx(2) });
}

fn first_pass(src: &str) -> Result<Scopes, vksl::parser::err::ParseErr> {
    let mut ast = Parser::new(Tokenizer::from_str(src.to_string())).parse().ok().unwrap();
    assert!(!reaches_include(&ast));
    handle_ast(&mut ast)
}

#[test]
fn first_pass_declares_globals() {
    let s = first_pass("struct A { x: int; } fn main() { struct B { x: int; } } let c: struct C { x: int; };").ok().unwrap();
    assert!(s.local(0, &"A".to_string()).is_some());
    assert!(s.local(0, &"main".to_string()).is_some());
    assert!(s.local(0, &"C".to_string()).is_some());
    assert!(s.local(0, &"B".to_string()).is_none());
}

#[test]
fn first_pass_refuses_duplicate_struct() {
    let e = first_pass("struct A { x: int; } struct A { x: int; }").err().unwrap();
    assert!(matches!(e.ty, ParseErrType::DuplicateStruct(ref n) if n == "A"));
    assert_eq!(e.hint.as_deref(), Some("consider removing one of the structs `A`"));
}

#[test]
fn first_pass_refuses_duplicate_function() {
    let e = first_pass("struct f { x: int; } fn f() {}").err().unwrap();
    assert!(matches!(e.ty, ParseErrType::DuplicateFn(ref n) if n == "f"));
    assert_eq!(e.hint.as_deref(), Some("consider removing one of the functions `f`"));
}

#[test]
fn first_pass_separates_block_scopes() {
    assert!(first_pass("{ struct A { x: int; } } struct A { x: int; }").is_ok());
    assert!(first_pass("for (;;) { struct A { x: int; } } struct A { x: int; }").is_ok());
    assert!(first_pass("while (x) struct A { x: int; } struct A { x: int; }").is_err());
}

#[test]
fn name_distance_is_symmetric() {
    let pairs = [("light", "lihgt"), ("a", "abc"), ("", "xyz"), ("Zeta", "alpha")];
    for (a, b) in pairs {
        assert_eq!(
            Scopes::get_score(&a.to_string(), &b.to_string()),
            Scopes::get_score(&b.to_string(), &a.to_string())
        );
    }
}

#[test]
fn equal_names_are_at_distance_zero() {
    assert_eq!(Scopes::get_score(&"light".to_string(), &"light".to_string()), 0);
    assert!(Scopes::get_score(&"light".to_string(), &"lights".to_string()) > 0);
    assert!(Scopes::get_score(&"light".to_string(), &"Light".to_string()) > 0);
}

#[test]
fn first_pass_records_scopes_and_symbols() {
    let src = "struct A { x: int; } fn f() {} { struct B { y: int; } } for (;;) { fn g() {} }";
    let mut ast = Parser::new(Tokenizer::from_str(src.to_string())).parse().ok().unwrap();
    let s = handle_ast(&mut ast).ok().unwrap();
    match &ast[0] {
        Stmt::Struct(st) => {
            assert!(st.fut_scope.is_some() && st.fut_scope != Some(0));
            assert!(st.symbol_id.is_some());
            assert_eq!(s.local(0, &"A".to_string()), st.symbol_id);
        },
        _ => panic!("expected a structure"),
    }
    match &ast[1] {
        Stmt::MethodDecl(m) => {
            assert!(m.fut_scope.is_some() && m.fut_scope != Some(0));
            assert_eq!(s.local(0, &"f".to_string()), m.symbol_id);
        },
        _ => panic!("expected a function"),
    }
    match &ast[2] {
        Stmt::Block(b) => {
            let inner = b.fut_scope.unwrap();
            assert!(inner != 0);
            assert!(s.local(inner, &"B".to_string()).is_some());
            assert!(s.local(0, &"B".to_string()).is_none());
        },
        _ => panic!("expected a block"),
    }
    match &ast[3] {
        Stmt::For(l) => {
            let inner = l.fut_scope.unwrap();
            assert!(inner != 0);
            assert!(s.local(inner, &"g".to_string()).is_none());
            match &*l.block {
                Stmt::Block(b) => {
                    let body = b.fut_scope.unwrap();
                    assert!(body != inner);
                    assert!(s.local(body, &"g".to_string()).is_some());
                },
                _ => panic!("expected a block body"),
            }
        },
        _ => panic!("expected a loop"),
    }
}

#[test]
fn first_pass_records_nested_scopes() {
    let mut ast = Parser::new(Tokenizer::from_str("{ { struct C { x: int; } } }".to_string())).parse().ok().unwrap();
    let s = handle_ast(&mut ast).ok().unwrap();
    match &ast[0] {
        Stmt::Block(outer) => {
            let o = outer.fut_scope.unwrap();
            assert!(s.local(o, &"C".to_string()).is_none());
            match &outer.stmts[0] {
                Stmt::Block(inner) => {
                    let i = inner.fut_scope.unwrap();
                    assert!(i != o && i != 0);
                    assert!(s.local(i, &"C".to_string()).is_some());
                    match &inner.stmts[0] {
                        Stmt::Struct(st) => assert_eq!(s.local(i, &"C".to_string()), st.symbol_id),
                        _ => panic!("expected a structure"),
                    }
                },
                _ => panic!("expected an inner block"),
            }
        },
        _ => panic!("expected a block"),
    }
}

fn second_pass(src: &str) -> (Result<Vec<vksl::scope::ast::Stmt>, vksl::parser::err::ParseErr>, Scopes) {
    let mut ast = Parser::new(Tokenizer::from_str(src.to_string())).parse().ok().unwrap();
    assert!(!reaches_include(&ast));
    let mut scopes = handle_ast(&mut ast).ok().unwrap();
    let r = vksl::scope::name_res::conv_ast(ast, &mut scopes);
    (r, scopes)
}

fn var_symbol(s: &vksl::scope::ast::Stmt) -> u64 {
    match s {
        vksl::scope::ast::Stmt::VarDecl(v) => v.symbol,
        vksl::scope::ast::Stmt::Compound(c) if c.components.len() == 1 => var_symbol(&c.components[0]),
        _ => panic!("expected a variable declaration"),
    }
}

#[test]
fn second_pass_resolves_variables() {
    let (r, scopes) = second_pass("let a = 1; let b = a;");
    let stmts = r.ok().unwrap();
    assert_eq!(stmts.len(), 2);
    let a = var_symbol(&stmts[0]);
    let b = var_symbol(&stmts[1]);
    assert_eq!(scopes.local(0, &"a".to_string()), Some(a));
    assert_eq!(scopes.local(0, &"b".to_string()), Some(b));
    match scopes.symbol(b) {
        Some(vksl::scope::ast::Symbol::Variable(v)) => match &v.init {
            Some(vksl::scope::ast::Expr::Variable(x)) => assert_eq!(x.ident.symbol, a),
            _ => panic!("expected a variable as value"),
        },
        _ => panic!("expected a variable symbol"),
    }
}

#[test]
fn second_pass_refuses_unknown_names() {
    let (r, _) = second_pass("let b = c;");
    let e = r.err().unwrap();
    assert!(matches!(e.ty, ParseErrType::UnknownIdent(ref n) if n == "c"));
    let (r, _) = second_pass("{ let a = 1; } let b = a;");
    assert!(matches!(r.err().unwrap().ty, ParseErrType::UnknownIdent(ref n) if n == "a"));
}

#[test]
fn second_pass_builds_structures() {
    let (r, scopes) = second_pass("struct P { x: int; } let p = P(1); let q: P = P { x: 2 };");
    let stmts = r.ok().unwrap();
    let ps = match &stmts[0] {
        vksl::scope::ast::Stmt::Struct(s) => s.symbol,
        _ => panic!("expected a structure"),
    };
    let inner = match &stmts[0] {
        vksl::scope::ast::Stmt::Struct(s) => s.scope,
        _ => panic!("expected a structure"),
    };
    let x = scopes.local(inner, &"x".to_string()).unwrap();
    match scopes.symbol(var_symbol(&stmts[1])) {
        Some(vksl::scope::ast::Symbol::Variable(v)) => match &v.init {
            Some(vksl::scope::ast::Expr::Constructor(c)) => assert_eq!(c.ident.symbol, ps),
            _ => panic!("expected a construction call"),
        },
        _ => panic!("expected a variable symbol"),
    }
    match scopes.symbol(var_symbol(&stmts[2])) {
        Some(vksl::scope::ast::Symbol::Variable(v)) => {
            assert!(matches!(v.ty, Some(vksl::scope::ast::Type::StructRef(ref t)) if t.sym == ps));
            match &v.init {
                Some(vksl::scope::ast::Expr::Construct(c)) => {
                    assert_eq!(c.name.symbol, ps);
                    assert_eq!(c.fields[0].0.name.symbol, x);
                },
                _ => panic!("expected a construction"),
            }
        },
        _ => panic!("expected a variable symbol"),
    }
    let (r, _) = second_pass("struct P { x: int; } let q = P { y: 2 };");
    assert!(matches!(r.err().unwrap().ty, ParseErrType::UnknownIdent(ref n) if n == "y"));
}

#[test]
fn second_pass_declares_parameters() {
    let (r, scopes) = second_pass("fn f(x: int, y: int) { let z = 1; }");
    let stmts = r.ok().unwrap();
    match &stmts[0] {
        vksl::scope::ast::Stmt::MethodDecl(m) => {
            assert!(scopes.local(m.scope, &"x".to_string()).is_some());
            assert!(scopes.local(m.scope, &"y".to_string()).is_some());
            match scopes.symbol(m.symbol) {
                Some(vksl::scope::ast::Symbol::Function(f)) => assert_eq!(f.params.len(), 2),
                _ => panic!("expected a function symbol"),
            }
        },
        _ => panic!("expected a function"),
    }
}

#[test]
fn member_names_resolve_in_the_current_scope() {
    let (r, _) = second_pass("struct P { x: int; } let q: P = P { x: 2 }; let y = q.x;");
    assert!(matches!(r.err().unwrap().ty, ParseErrType::UnknownIdent(ref n) if n == "x"));
}
