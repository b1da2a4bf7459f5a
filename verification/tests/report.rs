use vksl::parser::err::ParseErrType as ErrKind;
use vksl::token::history::History;
use vksl::token::TokCtx;
use vksl::parser::err::ParseErr;
use vksl::parser::Parser;
use vksl::token::tokenizer::Tokenizer;

fn first_error(src: &str) -> ParseErr {
    match Parser::new(Tokenizer::from_str(src.to_string())).parse() {
        Ok(_) => panic!("expected an error"),
        Err(e) => e,
    }
}

#[test]
fn end_of_file_message() {
    let e = first_error("let x = 5");
    assert_eq!(e.ty.get_message(), "invalid syntax");
    assert_eq!(e.ty.get_summary(), "end of file");
}

#[test]
fn unexpected_token_message() {
    let e = first_error("struct S {}");
    assert_eq!(e.ty.get_message(), "\texpected any of [Ident, Exact(Keyword(Fn))], but found RBrace");
    assert_eq!(e.ty.get_summary(), "illegal token");
}

#[test]
fn unexpected_identifier_is_quoted() {
    let e = first_error("let x = 1 y;");
    assert_eq!(e.ty.get_message(), "\texpected any of [Exact(Semi)], but found Ident(\"y\")");
}

#[test]
fn literal_in_message() {
    let e = first_error("let x = 1 2u;");
    assert_eq!(e.ty.get_message(), "\texpected any of [Exact(Semi)], but found Literal(UIntLit(2))");
}

#[test]
fn modifier_messages() {
    let e = first_error("extension x enable flat;");
    assert_eq!(e.ty.get_message(), "illegal modifier found `flat`");
    assert_eq!(e.ty.get_summary(), "illegal modifier `flat`");
}

#[test]
fn tokenizer_summaries() {
    assert_eq!(first_error("let x = -3u;").ty.get_summary(), "-3u is not a valid unsigned number declaration");
    assert_eq!(first_error("let x = 99999999999;").ty.get_summary(), "number too large to fit in target type");
    assert_eq!(first_error("let x = 1.5e;").ty.get_summary(), "invalid float literal");
}

#[test]
fn report_layout_marks_the_token() {
    let e = first_error("let a = 1;\nlet b = ) ;");
    let l = e.layout().unwrap();
    assert_eq!(l.message, "unexpected token RParen");
    assert_eq!(l.summary, "unexpected token");
    assert_eq!(l.file, "<not given>");
    assert_eq!(l.location, "2:9");
    assert_eq!(l.before, "let b = ");
    assert_eq!(l.marked, ")");
    assert_eq!(l.padding, "        ");
    assert_eq!(l.squiggly, "~");
    assert_eq!(l.tail, " ;");
    assert_eq!(l.hint, vec!["consider trying to remove the erroneous `)`".to_string()]);
}

#[test]
fn report_layout_of_multi_line_hint() {
    let e = first_error("let a = , ;");
    let l = e.layout().unwrap();
    assert_eq!(l.hint.len(), 2);
    assert_eq!(l.hint[1], "consider trying to remove the erroneous `,` or adding a valid expression before the `,`");
}

#[test]
fn report_layout_without_hint() {
    let e = first_error("let x = 5");
    assert!(e.ctx.start_pos <= e.ctx.end_pos + 1);
    let l = e.layout().unwrap();
    assert!(l.hint.is_empty());
}

#[test]
fn report_layout_counts_bytes() {
    let mut h = History::new(60);
    for c in "ab \u{e9}".chars() {
        h.push(c);
    }
    let ctx = TokCtx { line: 1, start_pos: 3, end_pos: 4, file: None, history: h.clone() };
    let e = ParseErr { ty: ErrKind::InvalidExpression, ctx, tail: String::new(), hint: None };
    let l = e.layout().unwrap();
    assert_eq!(l.before, "ab ");
    assert_eq!(l.marked, "\u{e9}");
    assert_eq!(l.padding, "   ");
    assert_eq!(l.squiggly, "~~");
    let ctx = TokCtx { line: 1, start_pos: 4, end_pos: 4, file: None, history: h };
    let e = ParseErr { ty: ErrKind::InvalidExpression, ctx, tail: String::new(), hint: None };
    assert!(e.layout().is_none());
}
