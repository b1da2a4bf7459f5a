use vksl::parser::ast::PrimitiveType;
use vksl::parser::err::{create_pad, ParseErrType};
use vksl::text::{i64_text, u64_digits};
use vksl::token::history::History;
use vksl::token::{Keyword, Operator, TokCtx};

fn chars(s: &str) -> Vec<char> {
    s.chars().collect()
}

fn text(v: Vec<char>) -> String {
    v.into_iter().collect()
}

#[test]
fn pad_is_spaces() {
    assert_eq!(create_pad(0), "");
    assert_eq!(create_pad(4), "    ");
}

#[test]
fn keyword_spelling_round_trip() {
    assert_eq!(text(Keyword::PushConstants.text_chars()), "push_constants");
    assert_eq!(text(Keyword::STD140.text_chars()), "std140");
    assert_eq!(Keyword::from_chars(&chars("push_constants")), Some(Keyword::PushConstants));
    assert_eq!(Keyword::from_chars(&chars("nonuniform")), Some(Keyword::Nonuniform));
    assert_eq!(Keyword::from_chars(&chars("Let")), None);
    let mut v = Vec::new();
    Keyword::PushConstants.push_name(&mut v);
    assert_eq!(text(v), "PushConstants");
}

#[test]
fn primitive_spelling_round_trip() {
    assert_eq!(text(PrimitiveType::DMat4x3.text_chars()), "dmat4x3");
    assert_eq!(PrimitiveType::from_chars(&chars("uvec2")), Some(PrimitiveType::UVec2));
    assert_eq!(PrimitiveType::from_chars(&chars("f32")), Some(PrimitiveType::F32));
    assert_eq!(PrimitiveType::from_chars(&chars("float")), None);
}

#[test]
fn operator_texts() {
    assert_eq!(text(Operator::LogicalRsh.text_chars()), ">>>");
    assert_eq!(text(Operator::Minus.text_chars()), "_");
    assert_eq!(text(Operator::LessEq.text_chars()), ">=");
    assert_eq!(text(Operator::Merge.name_chars()), "Merge");
}

#[test]
fn binary_precedence_table() {
    let ctx = TokCtx { line: 3, start_pos: 4, end_pos: 5, file: None, history: History::new(60) };
    assert_eq!(Operator::Mul.precedence(&ctx, || String::new()).ok(), Some(7));
    assert_eq!(Operator::Plus.precedence(&ctx, || String::new()).ok(), Some(6));
    assert_eq!(Operator::Merge.precedence(&ctx, || String::new()).ok(), Some(0));
    assert_eq!(Operator::Or.binary_precedence(), Some(1));
    let e = Operator::Dot.precedence(&ctx, || "rest".to_string()).err().unwrap();
    assert!(matches!(e.ty, ParseErrType::NonBinaryCompatibleOperator(Operator::Dot)));
    assert_eq!(e.tail, "rest");
    assert!(e.hint.is_none());
    assert_eq!((e.ctx.line, e.ctx.start_pos), (3, 4));
    let e = Operator::Assign.precedence(&ctx, || String::new()).err().unwrap();
    assert!(e.hint.is_some());
}

#[test]
fn history_keeps_the_last_characters() {
    let mut h = History::new(3);
    assert_eq!(h.reconstruct(), "");
    h.push('a');
    h.push('b');
    assert_eq!(h.reconstruct(), "ab");
    h.push('c');
    h.push('d');
    assert_eq!(h.reconstruct(), "bcd");
    h.push('e');
    assert_eq!(h.reconstruct(), "cde");
    assert_eq!(h.dup().reconstruct(), "cde");
}

#[test]
fn number_texts() {
    assert_eq!(text(u64_digits(0)), "0");
    assert_eq!(text(u64_digits(1234567)), "1234567");
    assert_eq!(text(i64_text(-42)), "-42");
    assert_eq!(text(i64_text(-9223372036854775807)), "-9223372036854775807");
}

