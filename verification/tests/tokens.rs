use vksl::token::lexicon::TokenErr;
use vksl::token::numbers::IntErrorKind;
use vksl::token::tokenizer::Tokenizer;
use vksl::token::{Keyword, Literal, Operator, Token, TokenType};

fn lex(src: &str) -> Tokenizer {
    Tokenizer::from_str(src.to_string())
}

fn all_tokens(src: &str) -> Vec<Result<Token, TokenErr>> {
    let mut t = lex(src);
    let mut out = Vec::new();
    while let Some(r) = t.next_token() {
        let stop = r.is_err();
        out.push(r);
        if stop {
            break;
        }
    }
    out
}

fn kinds(src: &str) -> Vec<TokenType> {
    all_tokens(src).into_iter().map(|r| r.expect("token").ty).collect()
}

#[test]
fn let_statement_tokens() {
    let k = kinds("let x = 5;");
    assert_eq!(k.len(), 5);
    assert!(matches!(k[0], TokenType::Keyword(Keyword::Let)));
    assert!(matches!(&k[1], TokenType::Ident(s) if s == "x"));
    assert!(matches!(k[2], TokenType::Operator(Operator::Assign)));
    assert!(matches!(k[3], TokenType::Literal(Literal::IntLit(5))));
    assert!(matches!(k[4], TokenType::Semi));
}

#[test]
fn token_positions() {
    let toks = all_tokens("let x\n  y");
    let t0 = toks[0].as_ref().unwrap();
    assert_eq!((t0.ctx.line, t0.ctx.start_pos, t0.ctx.end_pos), (1, 1, 3));
    let t1 = toks[1].as_ref().unwrap();
    assert_eq!((t1.ctx.line, t1.ctx.start_pos, t1.ctx.end_pos), (1, 5, 5));
    let t2 = toks[2].as_ref().unwrap();
    assert_eq!((t2.ctx.line, t2.ctx.start_pos, t2.ctx.end_pos), (2, 3, 3));
    assert_eq!(t2.ctx.history.reconstruct(), "let x\n  y");
}

#[test]
fn punctuation_and_operators() {
    let k = kinds("( ) { } [ ] , ; : ? . + ++ += * *= / /= % %= < <= <- << <<= > >= >> >>= >>> >>>= ! != = == | || |= & && &= ^ ^= ~ ~= - -= -- ->");
    let expected: Vec<&str> = vec![
        "LParen", "RParen", "LBrace", "RBrace", "LBracket", "RBracket", "Comma", "Semi", "Colon", "Question",
        "Operator(Dot)", "Operator(Plus)", "Operator(PlusPlus)", "OperatorAssign(Plus)", "Operator(Mul)",
        "OperatorAssign(Mul)", "Operator(Div)", "OperatorAssign(Div)", "Operator(Modulo)", "OperatorAssign(Modulo)",
        "Operator(Less)", "Operator(LessEq)", "Operator(Merge)", "Operator(Lsh)", "OperatorAssign(Lsh)",
        "Operator(Greater)", "Operator(GreaterEq)", "Operator(Rsh)", "OperatorAssign(Rsh)", "Operator(LogicalRsh)",
        "OperatorAssign(LogicalRsh)", "Operator(Not)", "Operator(Neq)", "Operator(Assign)", "Operator(EqEq)",
        "Operator(BitOr)", "Operator(Or)", "OperatorAssign(BitOr)", "Operator(BitAnd)", "Operator(And)",
        "OperatorAssign(BitAnd)", "Operator(BitXor)", "OperatorAssign(BitXor)", "Operator(BitNegate)",
        "OperatorAssign(BitNegate)", "Operator(Minus)", "OperatorAssign(Minus)", "Operator(MinusMinus)",
        "Operator(Merge)",
    ];
    let got: Vec<String> = k.iter().map(|t| format!("{:?}", t)).collect();
    assert_eq!(got, expected);
}

#[test]
fn keywords_idents_and_bools() {
    let k = kinds("fn struct push_constants nonuniform this as true false value_1 $x e");
    assert!(matches!(k[0], TokenType::Keyword(Keyword::Fn)));
    assert!(matches!(k[1], TokenType::Keyword(Keyword::Struct)));
    assert!(matches!(k[2], TokenType::Keyword(Keyword::PushConstants)));
    assert!(matches!(k[3], TokenType::Keyword(Keyword::Nonuniform)));
    assert!(matches!(k[4], TokenType::Keyword(Keyword::This)));
    assert!(matches!(k[5], TokenType::Keyword(Keyword::As)));
    assert!(matches!(k[6], TokenType::Literal(Literal::BoolLit(true))));
    assert!(matches!(k[7], TokenType::Literal(Literal::BoolLit(false))));
    assert!(matches!(&k[8], TokenType::Ident(s) if s == "value_1"));
    assert!(matches!(&k[9], TokenType::Ident(s) if s == "$x"));
    assert!(matches!(&k[10], TokenType::Ident(s) if s == "e"));
    assert_eq!(k.len(), 11);
}

#[test]
fn integer_literals() {
    let k = kinds("42 0x1F 0b101 42u 0b11u -5 7U");
    assert!(matches!(k[0], TokenType::Literal(Literal::IntLit(42))));
    assert!(matches!(k[1], TokenType::Literal(Literal::IntLit(31))));
    assert!(matches!(k[2], TokenType::Literal(Literal::IntLit(5))));
    assert!(matches!(k[3], TokenType::Literal(Literal::UIntLit(42))));
    assert!(matches!(k[4], TokenType::Literal(Literal::UIntLit(3))));
    assert!(matches!(k[5], TokenType::Literal(Literal::IntLit(-5))));
    assert!(matches!(k[6], TokenType::Literal(Literal::UIntLit(7))));
    assert_eq!(k.len(), 7);
}

#[test]
fn float_literals_keep_their_text() {
    let k = kinds("1.5 -2.25 3.0f64 4f32");
    assert!(matches!(&k[0], TokenType::Literal(Literal::FloatLit(s)) if s == "1.5"));
    assert!(matches!(&k[1], TokenType::Literal(Literal::FloatLit(s)) if s == "-2.25"));
    assert!(matches!(&k[2], TokenType::Literal(Literal::DoubleLit(s)) if s == "3.0"));
    assert!(matches!(&k[3], TokenType::Literal(Literal::FloatLit(s)) if s == "4"));
}

#[test]
fn minus_before_space_is_an_operator() {
    let k = kinds("a - 1");
    assert!(matches!(k[1], TokenType::Operator(Operator::Minus)));
    assert!(matches!(k[2], TokenType::Literal(Literal::IntLit(1))));
}

#[test]
fn negative_unsigned_is_refused() {
    let toks = all_tokens("-5u");
    assert!(matches!(toks[0], Err(TokenErr::NegativeUInt(5))));
}

#[test]
fn integer_overflow_is_refused() {
    let toks = all_tokens("99999999999");
    assert!(matches!(toks[0], Err(TokenErr::IntError(IntErrorKind::PosOverflow))));
    let toks = all_tokens("0x1g");
    assert!(matches!(toks[0], Err(TokenErr::IntError(IntErrorKind::InvalidDigit))));
}

#[test]
fn integer_literal_examples() {
    let k = kinds("42 0 0xFF 0b1100 0U 54u 0xFFu 0b1100U");
    assert!(matches!(k[0], TokenType::Literal(Literal::IntLit(42))));
    assert!(matches!(k[1], TokenType::Literal(Literal::IntLit(0))));
    assert!(matches!(k[2], TokenType::Literal(Literal::IntLit(255))));
    assert!(matches!(k[3], TokenType::Literal(Literal::IntLit(12))));
    assert!(matches!(k[4], TokenType::Literal(Literal::UIntLit(0))));
    assert!(matches!(k[5], TokenType::Literal(Literal::UIntLit(54))));
    assert!(matches!(k[6], TokenType::Literal(Literal::UIntLit(255))));
    assert!(matches!(k[7], TokenType::Literal(Literal::UIntLit(12))));
    assert_eq!(k.len(), 8);
}

#[test]
fn float_literal_examples() {
    let k = kinds("42.05 1.5e-3 123f32 4.993f64 1.5e-5f64 2.34f64");
    assert!(matches!(&k[0], TokenType::Literal(Literal::FloatLit(s)) if s == "42.05"));
    assert!(matches!(&k[1], TokenType::Literal(Literal::FloatLit(s)) if s == "1.5e-3"));
    assert!(matches!(&k[2], TokenType::Literal(Literal::FloatLit(s)) if s == "123"));
    assert!(matches!(&k[3], TokenType::Literal(Literal::DoubleLit(s)) if s == "4.993"));
    assert!(matches!(&k[4], TokenType::Literal(Literal::DoubleLit(s)) if s == "1.5e-5"));
    assert!(matches!(&k[5], TokenType::Literal(Literal::DoubleLit(s)) if s == "2.34"));
    assert_eq!(k.len(), 6);
}

#[test]
fn malformed_float_is_refused() {
    let toks = all_tokens("1.5e");
    assert!(matches!(toks[0], Err(TokenErr::FloatError)));
    let toks = all_tokens("12e");
    assert!(matches!(toks[0], Err(TokenErr::FloatError)));
}

#[test]
fn comments_are_skipped() {
    let k = kinds("// line\n a /* block\n */ b");
    assert_eq!(k.len(), 2);
    assert!(matches!(&k[0], TokenType::Ident(s) if s == "a"));
    assert!(matches!(&k[1], TokenType::Ident(s) if s == "b"));
}

#[test]
fn peek_then_next_gives_the_same_token() {
    let mut t = lex("alpha beta");
    let p = t.peek_token().unwrap().unwrap();
    let n = t.next_token().unwrap().unwrap();
    assert!(matches!(&p.ty, TokenType::Ident(s) if s == "alpha"));
    assert!(matches!(&n.ty, TokenType::Ident(s) if s == "alpha"));
    assert_eq!((p.ctx.start_pos, p.ctx.end_pos), (n.ctx.start_pos, n.ctx.end_pos));
    let n2 = t.next_token().unwrap().unwrap();
    assert!(matches!(&n2.ty, TokenType::Ident(s) if s == "beta"));
    assert!(t.next_token().is_none());
}

#[test]
fn repeated_peeks_do_not_advance() {
    let mut t = lex("a b c");
    let p0 = t.peek_token_n(0).unwrap().unwrap();
    assert!(matches!(&p0.ty, TokenType::Ident(s) if s == "a"));
    let p1 = t.peek_token_n(0).unwrap().unwrap();
    assert!(matches!(&p1.ty, TokenType::Ident(s) if s == "a"));
    let n = t.next_token().unwrap().unwrap();
    assert!(matches!(&n.ty, TokenType::Ident(s) if s == "a"));
    let n = t.next_token().unwrap().unwrap();
    assert!(matches!(&n.ty, TokenType::Ident(s) if s == "b"));
}

#[test]
fn expect_any_at_end_is_eof() {
    let mut t = lex("   ");
    assert!(matches!(t.expect_any(), Err(TokenErr::EOF)));
    let mut t = lex("");
    assert!(matches!(t.expect_any_peeked(), Err(TokenErr::EOF)));
}

#[test]
fn tail_stops_at_newline() {
    let mut t = lex("abc\ndef");
    assert_eq!(t.tail(10), "abc");
    let mut t = lex("abcdefghijklmnop");
    assert_eq!(t.tail_default(), "abcdefghij");
    let mut t = lex("xy");
    assert_eq!(t.next_raw_chars(5), "xy");
}

#[test]
fn non_ascii_numbers_outside_literals_are_read() {
    let k = kinds("// \u{0663}\nx\u{0663} y");
    assert_eq!(k.len(), 2);
    assert!(matches!(&k[0], TokenType::Ident(s) if s == "x\u{0663}"));
}

#[test]
fn radix_prefix_inside_a_character_is_an_invalid_digit() {
    let toks = all_tokens("1\u{b2}x");
    assert!(matches!(toks[0], Err(TokenErr::IntError(IntErrorKind::InvalidDigit))));
    let toks = all_tokens("\u{b2}x1");
    assert!(matches!(toks[0], Err(TokenErr::IntError(IntErrorKind::InvalidDigit))));
}

#[test]
fn exponent_makes_a_float() {
    let k = kinds("1e5 1.5E3 1e+3 2E-1f64");
    assert!(matches!(&k[0], TokenType::Literal(Literal::FloatLit(s)) if s == "1e5"));
    assert!(matches!(&k[1], TokenType::Literal(Literal::FloatLit(s)) if s == "1.5E3"));
    assert!(matches!(&k[2], TokenType::Literal(Literal::FloatLit(s)) if s == "1e+3"));
    assert!(matches!(&k[3], TokenType::Literal(Literal::DoubleLit(s)) if s == "2E-1"));
    assert_eq!(k.len(), 4);
}

#[test]
fn minus_after_digits_ends_the_number() {
    let toks = all_tokens("1-2");
    let t0 = toks[0].as_ref().unwrap();
    assert!(matches!(t0.ty, TokenType::Literal(Literal::IntLit(1))));
    assert_eq!(t0.ctx.end_pos, 1);
    assert!(matches!(toks[1].as_ref().unwrap().ty, TokenType::Literal(Literal::IntLit(-2))));
    let k = kinds("0x1e-1");
    assert!(matches!(k[0], TokenType::Literal(Literal::IntLit(30))));
    assert!(matches!(k[1], TokenType::Literal(Literal::IntLit(-1))));
    assert_eq!(k.len(), 2);
}

#[test]
fn peeking_far_ahead_keeps_the_tokens() {
    let mut t = lex("a b c d");
    let p = t.peek_token_n(2).unwrap().unwrap();
    assert!(matches!(&p.ty, TokenType::Ident(s) if s == "c"));
    let p = t.peek_token_n(1).unwrap().unwrap();
    assert!(matches!(&p.ty, TokenType::Ident(s) if s == "b"));
    for name in ["a", "b", "c", "d"] {
        let n = t.next_token().unwrap().unwrap();
        assert!(matches!(&n.ty, TokenType::Ident(s) if s == name));
    }
    assert!(t.next_token().is_none());
    let mut t = lex("a b");
    assert!(t.peek_token_n(5).is_none());
    let n = t.next_token().unwrap().unwrap();
    assert!(matches!(&n.ty, TokenType::Ident(s) if s == "a"));
}

#[test]
fn peeking_past_a_bad_token_reports_it() {
    let mut t = lex("a 99999999999 b c");
    assert!(matches!(t.peek_token_n(2), Some(Err(TokenErr::IntError(IntErrorKind::PosOverflow)))));
    let n = t.next_token().unwrap().unwrap();
    assert!(matches!(&n.ty, TokenType::Ident(s) if s == "a"));
    let n = t.next_token().unwrap().unwrap();
    assert!(matches!(&n.ty, TokenType::Ident(s) if s == "b"));
}

#[test]
fn unicode_spaces_separate_tokens() {
    let k = kinds("a\u{a0}b\u{3000}c");
    assert_eq!(k.len(), 3);
    assert!(matches!(&k[2], TokenType::Ident(s) if s == "c"));
}

#[test]
fn tail_consumes_the_raw_characters() {
    let mut t = lex("ab\ncd");
    assert_eq!(t.tail(10), "ab");
    assert!(t.next_token().is_none());
}
