use vksl::parser::ast::{Expr, PrimitiveType, Stmt, Type, UniformType};
use vksl::parser::err::{ParseErr, ParseErrType, TokenExpectation};
use vksl::parser::mods::Modifier;
use vksl::parser::Parser;
use vksl::token::lexicon::TokenErr;
use vksl::token::tokenizer::Tokenizer;
use vksl::token::{Keyword, Literal, Operator, TokenType};

fn parse(src: &str) -> Result<Vec<Stmt>, ParseErr> {
    Parser::new(Tokenizer::from_str(src.to_string())).parse()
}

fn parse_ok(src: &str) -> Vec<Stmt> {
    match parse(src) {
        Ok(v) => v,
        Err(e) => panic!("unexpected error {:?}", e.ty),
    }
}

fn parse_err(src: &str) -> ParseErr {
    match parse(src) {
        Ok(_) => panic!("expected an error"),
        Err(e) => e,
    }
}

fn only_expr(src: &str) -> Expr {
    let mut v = parse_ok(src);
    assert_eq!(v.len(), 1);
    match v.pop().unwrap() {
        Stmt::Expr(e) => e.expr,
        other => panic!("not an expression statement: {:?}", other),
    }
}

fn var_name(e: &Expr) -> &str {
    match e {
        Expr::Variable(v) => &v.ident.val,
        other => panic!("not a variable: {:?}", other),
    }
}

#[test]
fn empty_program() {
    assert!(parse_ok("").is_empty());
    assert!(parse_ok("  // nothing\n").is_empty());
}

#[test]
fn let_declaration() {
    let v = parse_ok("let x = 5;");
    assert_eq!(v.len(), 1);
    let Stmt::Compound(c) = &v[0] else { panic!() };
    assert_eq!(c.components.len(), 1);
    let Stmt::VarDecl(d) = &c.components[0] else { panic!() };
    assert_eq!(d.name.val, "x");
    assert!(!d.cnst);
    assert!(d.ty.is_none());
    assert!(matches!(d.init, Some(Expr::Literal(ref l)) if matches!(l.lit, Literal::IntLit(5))));
}

#[test]
fn const_declaration_of_several_names() {
    let v = parse_ok("const a, b: int = 1;");
    let Stmt::Compound(c) = &v[0] else { panic!() };
    assert_eq!(c.components.len(), 2);
    let names: Vec<&str> = c
        .components
        .iter()
        .map(|s| match s {
            Stmt::VarDecl(d) => {
                assert!(d.cnst);
                assert!(matches!(d.ty, Some(Type::Primitive(PrimitiveType::Int, _))));
                assert!(d.init.is_some());
                d.name.val.as_str()
            }
            _ => panic!(),
        })
        .collect();
    assert_eq!(names, vec!["a", "b"]);
}

#[test]
fn subtraction_is_left_associative() {
    let e = only_expr("a - b - c;");
    let Expr::Binary(outer) = &e else { panic!() };
    assert_eq!(outer.op, Operator::Minus);
    assert_eq!(var_name(&outer.rhs), "c");
    let Expr::Binary(inner) = &*outer.lhs else { panic!() };
    assert_eq!(inner.op, Operator::Minus);
    assert_eq!(var_name(&inner.lhs), "a");
    assert_eq!(var_name(&inner.rhs), "b");
}

#[test]
fn multiplication_binds_tighter() {
    let e = only_expr("a + b * c;");
    let Expr::Binary(outer) = &e else { panic!() };
    assert_eq!(outer.op, Operator::Plus);
    assert_eq!(var_name(&outer.lhs), "a");
    let Expr::Binary(inner) = &*outer.rhs else { panic!() };
    assert_eq!(inner.op, Operator::Mul);
    assert_eq!(var_name(&inner.lhs), "b");
    assert_eq!(var_name(&inner.rhs), "c");
}

#[test]
fn secondary_expressions() {
    assert!(matches!(only_expr("a = b;"), Expr::Assign(_)));
    assert!(matches!(only_expr("a ? b : c;"), Expr::Ternary(_)));
    assert!(matches!(only_expr("f(1, 2);"), Expr::FnCall(ref f) if f.args.len() == 2 && f.ident.val == "f"));
    assert!(matches!(only_expr("p.x;"), Expr::Access(ref a) if a.child.val == "x"));
    assert!(matches!(only_expr("p.len();"), Expr::AccessFnCall(ref a) if a.ident.val == "len"));
    assert!(matches!(only_expr("arr[0];"), Expr::Index(_)));
    assert!(matches!(only_expr("x as int;"), Expr::As(ref a) if matches!(a.ty, Type::Primitive(PrimitiveType::Int, _))));
    assert!(matches!(only_expr("i++;"), Expr::PostFix(ref p) if p.op == Operator::PlusPlus));
}

#[test]
fn primary_expressions() {
    assert!(matches!(only_expr("Point { x: 1, y: 2 };"), Expr::Construct(ref c) if c.fields.len() == 2 && c.name.val == "Point"));
    assert!(matches!(only_expr("(1, 2);"), Expr::Tuple(ref t) if t.args.len() == 2));
    assert!(matches!(only_expr("(1);"), Expr::Literal(_)));
    assert!(matches!(only_expr("[1, 2, 3];"), Expr::Array(ref a) if a.args.len() == 3));
    assert!(matches!(only_expr("--i;"), Expr::PreFix(ref p) if p.op == Operator::MinusMinus));
    assert!(matches!(only_expr("-x;"), Expr::Unary(ref u) if u.op == Operator::Minus));
    assert!(matches!(only_expr("!x;"), Expr::Unary(ref u) if u.op == Operator::Not));
    assert!(matches!(only_expr("y = nonuniform x;"), Expr::Assign(ref a) if matches!(*a.rhs, Expr::Nonuniform(_))));
    assert!(matches!(only_expr("y = this;"), Expr::Assign(ref a) if matches!(*a.rhs, Expr::This(_))));
    assert!(matches!(parse_err("this;").ty, ParseErrType::UnconstrainedUnexpectedToken(TokenType::Keyword(Keyword::This))));
    assert!(matches!(only_expr("x = { a; };"), Expr::Assign(ref a) if matches!(*a.rhs, Expr::Block(ref b) if b.block.len() == 1)));
    let v = parse_ok("{ a; };");
    assert!(matches!(v[0], Stmt::Block(ref b) if b.stmts.len() == 1));
    assert!(matches!(v[1], Stmt::Semi(_)));
}

#[test]
fn tuple_access_leaves_its_literal_unread() {
    let e = parse_err("t.1;");
    assert!(matches!(e.ty, ParseErrType::UnexpectedToken(ref t, ref exp)
        if matches!(t.ty, TokenType::Literal(Literal::IntLit(1)))
        && exp.len() == 1
        && matches!(exp[0], TokenExpectation::Exact(TokenType::Semi))));
}

#[test]
fn control_flow() {
    let v = parse_ok("if (a) { b; } else c; while (a) b; for (i = 0; i < 10; i++) {} for (;;) {} return; return 1; yield 2;");
    assert_eq!(v.len(), 7);
    assert!(matches!(v[0], Stmt::If(ref i) if i.else_branch.is_some() && matches!(*i.branch, Stmt::Block(_))));
    assert!(matches!(v[1], Stmt::While(_)));
    assert!(matches!(v[2], Stmt::For(ref f) if f.start_cond.is_some() && f.cond.is_some() && f.after_run.is_some()));
    assert!(matches!(v[3], Stmt::For(ref f) if f.start_cond.is_none() && f.cond.is_none() && f.after_run.is_none()));
    assert!(matches!(v[4], Stmt::Return(ref r) if r.expr.is_none()));
    assert!(matches!(v[5], Stmt::Return(ref r) if r.expr.is_some()));
    assert!(matches!(v[6], Stmt::Yield(_)));
}

#[test]
fn break_and_continue() {
    let v = parse_ok("break; continue;");
    assert_eq!(v.len(), 4);
    assert!(matches!(v[0], Stmt::Break(_)));
    assert!(matches!(v[1], Stmt::Semi(_)));
    assert!(matches!(v[2], Stmt::Continue(_)));
    assert!(matches!(v[3], Stmt::Semi(_)));
}

#[test]
fn method_declaration() {
    let v = parse_ok("fn main(x: int, y: vec3) -> f32 { return x; }");
    let Stmt::MethodDecl(m) = &v[0] else { panic!() };
    assert_eq!(m.name.val, "main");
    assert_eq!(m.params.len(), 2);
    assert_eq!(m.params[1].name.val, "y");
    assert!(matches!(m.params[1].ty, Type::Primitive(PrimitiveType::Vec3, _)));
    assert!(m.params[0].comma_tkn.is_some());
    assert!(m.params[1].comma_tkn.is_none());
    assert!(matches!(m.return_type, Some(Type::Primitive(PrimitiveType::F32, _))));
    assert!(matches!(*m.block, Stmt::Block(ref b) if b.stmts.len() == 1));
}

#[test]
fn struct_declaration() {
    let v = parse_ok("struct Light { color: vec3; intensity, range: f32; fn get() {} }");
    let Stmt::Struct(s) = &v[0] else { panic!() };
    assert_eq!(s.name.val, "Light");
    let names: Vec<&str> = s.fields.iter().map(|f| f.name.val.as_str()).collect();
    assert_eq!(names, vec!["color", "intensity", "range"]);
    assert_eq!(s.methods.len(), 1);
    assert_eq!(s.methods[0].name.val, "get");
}

#[test]
fn types() {
    let v = parse_ok("let a: int[4]; let b: (int, f32); let c: MyType; let d: uint[][];");
    let ty = |i: usize| -> &Type {
        let Stmt::Compound(c) = &v[i] else { panic!() };
        let Stmt::VarDecl(d) = &c.components[0] else { panic!() };
        d.ty.as_ref().unwrap()
    };
    assert!(matches!(ty(0), Type::ArrayOf(a) if a.dimension.is_some()));
    assert!(matches!(ty(1), Type::TupleOf(t) if t.types.len() == 2));
    assert!(matches!(ty(2), Type::SingleType(s) if s.name == "MyType"));
    assert!(matches!(ty(3), Type::ArrayOf(a) if a.dimension.is_none() && matches!(*a.component, Type::ArrayOf(_))));
}

#[test]
fn uniform_declarations() {
    let v = parse_ok(
        "uniform set = 0 binding = 1 tex: sampler;\
         uniform set = 1 binding = 2 std430 readonly buffer data: int[];\
         uniform set = 2 binding = 3u std140 block: struct U { a: int; };",
    );
    assert_eq!(v.len(), 3);
    let Stmt::Uniform(u0) = &v[0] else { panic!() };
    assert_eq!((u0.set, u0.binding), (0, 1));
    assert_eq!(u0.uniform_type, UniformType::Uniform);
    assert_eq!(u0.name.val, "tex");
    let Stmt::Uniform(u1) = &v[1] else { panic!() };
    assert_eq!(u1.uniform_type, UniformType::SSBO);
    assert_eq!(u1.mods.test("packing_type"), Some(Modifier::STD430));
    assert_eq!(u1.mods.test("access"), Some(Modifier::Readonly));
    let Stmt::Uniform(u2) = &v[2] else { panic!() };
    assert_eq!(u2.uniform_type, UniformType::UBO);
    assert_eq!((u2.set, u2.binding), (2, 3));
    assert_eq!(u2.mods.test("packing_type"), Some(Modifier::STD140));
    assert_eq!(u2.mods.test("access"), None);
}

#[test]
fn shader_interface() {
    let v = parse_ok("input flat pos: vec3; input uv: vec2; output vec4 color; push_constants pc: Consts; extension GL_EXT_foo require;");
    assert_eq!(v.len(), 5);
    assert!(matches!(v[0], Stmt::Input(ref i) if i.name.val == "pos" && i.mods.test("interpolation") == Some(Modifier::Flat)));
    assert!(matches!(v[1], Stmt::Input(ref i) if i.mods.test("interpolation").is_none()));
    assert!(matches!(v[2], Stmt::Output(ref o) if o.name.val == "color"));
    assert!(matches!(v[3], Stmt::PushConstants(ref p) if p.name.val == "pc"));
    assert!(matches!(v[4], Stmt::Extension(ref e) if e.extension.val == "GL_EXT_foo" && e.mods.test("extension") == Some(Modifier::Require)));
}

#[test]
fn provide_declares_a_fragment_input() {
    let v = parse_ok("provide smooth uv: vec2;");
    assert_eq!(v.len(), 1);
    assert!(matches!(v[0], Stmt::Provide(ref p) if p.name.val == "uv" && p.mods.test("interpolation") == Some(Modifier::Smooth)));
    let e = parse_err("provide input x: int;");
    assert!(matches!(e.ty, ParseErrType::UnexpectedToken(..)));
    let e = parse_err("input provide x: int;");
    assert!(matches!(e.ty, ParseErrType::UnexpectedToken(..)));
}

#[test]
fn empty_structure_is_refused() {
    let e = parse_err("struct S { }");
    assert!(matches!(e.ty, ParseErrType::UnexpectedToken(ref t, ref exp)
        if matches!(t.ty, TokenType::RBrace)
        && exp.len() == 2
        && matches!(exp[0], TokenExpectation::Ident)
        && matches!(exp[1], TokenExpectation::Exact(TokenType::Keyword(Keyword::Fn)))));
    let v = parse_ok("struct S { fn f() {} }");
    assert!(matches!(v[0], Stmt::Struct(ref s) if s.fields.is_empty() && s.methods.len() == 1));
}

#[test]
fn missing_required_modifier() {
    let e = parse_err("extension GL_EXT_foo;");
    assert!(matches!(e.ty, ParseErrType::MissingModifier));
    assert_eq!(
        e.hint.as_deref(),
        Some("one of `enable`, `require`, `warn`, `disable` is required. Consider adding `enable`")
    );
}

#[test]
fn two_modifiers_of_a_required_rule() {
    let e = parse_err("extension x enable warn;");
    assert!(matches!(e.ty, ParseErrType::IllegalModifier(Modifier::Warn)));
    assert_eq!(
        e.hint.as_deref(),
        Some("only one of `enable`, `require`, `warn`, `disable` is permitted. Consider removing `warn`")
    );
}

#[test]
fn two_modifiers_of_an_optional_rule() {
    let e = parse_err("uniform set = 0 binding = 0 std140 std430 buffer d: int;");
    assert!(matches!(e.ty, ParseErrType::IllegalModifier(Modifier::STD430)));
    assert_eq!(e.hint.as_deref(), Some("only one of std140, std430 is permitted. Consider removing `std430`"));
}

#[test]
fn modifier_not_allowed_here() {
    let e = parse_err("extension x enable flat;");
    assert!(matches!(e.ty, ParseErrType::IllegalModifier(Modifier::Flat)));
    assert_eq!(e.hint.as_deref(), Some("`flat` is not a valid modifier in this context"));
}

#[test]
fn negative_binding_is_refused() {
    let e = parse_err("uniform set = -1 binding = 0 x: int;");
    assert!(matches!(e.ty, ParseErrType::NonPositiveNumber));
}

#[test]
fn misspelt_set_is_refused() {
    let e = parse_err("uniform sett = 0 binding = 0 x: int;");
    assert!(matches!(e.ty, ParseErrType::MismatchedLiteral(ref a, ref b) if a == "set" && b == "sett"));
    assert_eq!(e.hint.as_deref(), Some("Consider replacing sett with set"));
}

#[test]
fn missing_type_annotation() {
    let e = parse_err("input pos;");
    assert!(matches!(e.ty, ParseErrType::MissingType));
    assert_eq!(e.hint.as_deref(), Some("type annotation required here! Consider adding a type: `pos: <type>`"));
}

#[test]
fn several_names_where_one_is_allowed() {
    let e = parse_err("input a, b: vec3;");
    assert!(matches!(e.ty, ParseErrType::NoMultipleNamesPerType));
}

#[test]
fn keyword_not_allowed_as_statement() {
    let e = parse_err("include x;");
    assert!(matches!(e.ty, ParseErrType::UnconstrainedUnexpectedToken(TokenType::Keyword(Keyword::Include))));
    assert_eq!(e.hint.as_deref(), Some("Keyword Include not allowed here! Try reading the documentation."));
}

#[test]
fn bad_expression_heads() {
    assert!(matches!(parse_err(") ;").ty, ParseErrType::UnconstrainedUnexpectedToken(TokenType::RParen)));
    assert!(matches!(parse_err("+= 1;").ty, ParseErrType::AssignOpNotAllowedAtExpressionHead));
    assert!(matches!(parse_err("* 2;").ty, ParseErrType::NonUnaryCompatibleOperator(Operator::Mul)));
    assert!(matches!(parse_err("x.-1;").ty, ParseErrType::IllegalTupleAccessLiteral(PrimitiveType::Int)));
    assert!(matches!(parse_err("x.true;").ty, ParseErrType::IllegalTupleAccessLiteral(PrimitiveType::Bool)));
}

#[test]
fn assignment_inside_binary_expression() {
    let e = parse_err("i++ = 3;");
    assert!(matches!(e.ty, ParseErrType::NonBinaryCompatibleOperator(Operator::Assign)));
    assert_eq!(e.hint.as_deref(), Some("Consider moving variable assignment to it's own statement"));
}

#[test]
fn tokenizer_errors_surface() {
    let e = parse_err("let x = -3u;");
    assert!(matches!(e.ty, ParseErrType::TokenizerErr(TokenErr::NegativeUInt(3))));
    let e = parse_err("let x = 5");
    assert!(matches!(e.ty, ParseErrType::TokenizerErr(TokenErr::EOF)));
}

#[test]
fn structure_example() {
    let v = parse_ok(
        "struct Camera {\n    projection, view: mat4;\n    position, lookDir: vec3;\n}\n\
         let camera = Camera(projection, view, position, lookDir);\n\
         let cameraDirection = camera.lookDir;",
    );
    assert_eq!(v.len(), 3);
    let Stmt::Struct(s) = &v[0] else { panic!() };
    let names: Vec<&str> = s.fields.iter().map(|f| f.name.val.as_str()).collect();
    assert_eq!(names, vec!["projection", "view", "position", "lookDir"]);
    assert!(matches!(s.fields[1].ty, Type::Primitive(PrimitiveType::Mat4, _)));
    let Stmt::Compound(c) = &v[1] else { panic!() };
    let Stmt::VarDecl(d) = &c.components[0] else { panic!() };
    assert!(matches!(d.init, Some(Expr::FnCall(ref f)) if f.args.len() == 4 && f.ident.val == "Camera"));
    let Stmt::Compound(c) = &v[2] else { panic!() };
    let Stmt::VarDecl(d) = &c.components[0] else { panic!() };
    assert!(matches!(d.init, Some(Expr::Access(ref a)) if a.child.val == "lookDir"));
}

#[test]
fn array_type_examples() {
    let v = parse_ok("let a: int[123]; let b: vec3[10]; let c: vec4[];");
    let dims: Vec<bool> = v
        .iter()
        .map(|s| match s {
            Stmt::Compound(c) => match &c.components[0] {
                Stmt::VarDecl(d) => match &d.ty {
                    Some(Type::ArrayOf(a)) => a.dimension.is_some(),
                    _ => panic!(),
                },
                _ => panic!(),
            },
            _ => panic!(),
        })
        .collect();
    assert_eq!(dims, vec![true, true, false]);
}
