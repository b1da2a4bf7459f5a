//! The texts an error is reported with: its message, its summary, and the
//! layout of the report around the offending source line.
use vstd::prelude::*;
use crate::text::{push_lit, extend_chars, string_from_chars, string_chars, u64_digits, i64_text, int_text, seq_join};
use crate::token::{Keyword, Operator, TokenType, TokenKind, Literal, keyword_name, operator_name};
use crate::token::lexicon::{TokenErr, utf8_len};
use crate::token::numbers::IntErrorKind;
use crate::parser::ast::{PrimitiveType, primitive_text};
use crate::parser::err::{ParseErrType, ErrV, TokenExpectation, ExpV, exps_view};
use crate::parser::mods::modifier_text;

verus! {

/// What `{:?}` shows of a string: the characters in double quotes, with
/// quotes, backslashes and unprintable characters escaped.
pub uninterp spec fn debug_str(s: Seq<char>) -> Seq<char>;

/// `format!("{:?}", s)` for a string. Its result is named `debug_str` of the
/// characters; what the escaping does is not stated.
#[verifier::external_body]
fn str_debug(s: &String) -> (r: String)
    ensures
        r@ == debug_str(s@),
{
    format!("{:?}", s)
}

/// How a token kind is shown in messages (as `{:?}` shows it; a fractional
/// literal by its source text).
pub open spec fn kind_debug(k: TokenKind) -> Seq<char> {
    match k {
        TokenKind::LParen => "LParen"@,
        TokenKind::RParen => "RParen"@,
        TokenKind::LBrace => "LBrace"@,
        TokenKind::RBrace => "RBrace"@,
        TokenKind::LBracket => "LBracket"@,
        TokenKind::RBracket => "RBracket"@,
        TokenKind::Comma => "Comma"@,
        TokenKind::Semi => "Semi"@,
        TokenKind::Colon => "Colon"@,
        TokenKind::Question => "Question"@,
        TokenKind::Keyword(w) => "Keyword("@ + keyword_name(w) + ")"@,
        TokenKind::Bool(b) => "Literal(BoolLit("@ + (if b { "true"@ } else { "false"@ }) + "))"@,
        TokenKind::Int(i) => "Literal(IntLit("@ + int_text(i as int) + "))"@,
        TokenKind::UInt(u) => "Literal(UIntLit("@ + int_text(u as int) + "))"@,
        TokenKind::Float(t) => "Literal(FloatLit("@ + t + "))"@,
        TokenKind::Double(t) => "Literal(DoubleLit("@ + t + "))"@,
        TokenKind::Operator(o) => "Operator("@ + operator_name(o) + ")"@,
        TokenKind::OperatorAssign(o) => "OperatorAssign("@ + operator_name(o) + ")"@,
        TokenKind::Ident(s) => "Ident("@ + debug_str(s) + ")"@,
    }
}

/// How an expectation is shown in messages.
pub open spec fn exp_debug(e: ExpV) -> Seq<char> {
    match e {
        ExpV::Exact(k) => "Exact("@ + kind_debug(k) + ")"@,
        ExpV::Ident => "Ident"@,
        ExpV::Lit => "Lit"@,
    }
}

/// How a list of expectations is shown in messages.
pub open spec fn exps_debug(es: Seq<ExpV>) -> Seq<char> {
    "["@ + seq_join(es.map_values(|e: ExpV| exp_debug(e)), ", "@) + "]"@
}

/// How an integer parsing failure is described.
pub open spec fn int_error_text(k: IntErrorKind) -> Seq<char> {
    match k {
        IntErrorKind::Empty => "cannot parse integer from empty string"@,
        IntErrorKind::InvalidDigit => "invalid digit found in string"@,
        IntErrorKind::PosOverflow => "number too large to fit in target type"@,
        IntErrorKind::NegOverflow => "number too small to fit in target type"@,
    }
}

/// How a tokenizer failure is described.
pub open spec fn token_err_text(e: TokenErr) -> Seq<char> {
    match e {
        TokenErr::FloatError => "invalid float literal"@,
        TokenErr::IntError(k) => int_error_text(k),
        TokenErr::NegativeUInt(u) => "-"@ + int_text(u as int) + "u is not a valid unsigned number declaration"@,
        TokenErr::EOF => "end of file"@,
    }
}

/// The headline of an error report.
pub open spec fn message_text(e: ErrV) -> Seq<char> {
    match e {
        ErrV::TokenizerErr(_) => "invalid syntax"@,
        ErrV::UnexpectedToken(found, expected) => "\texpected any of "@ + exps_debug(expected) + ", but found "@
            + kind_debug(found),
        ErrV::NonBinaryCompatibleOperator(o) => "operator "@ + operator_name(o) + " cannot be used in binary expressions!"@,
        ErrV::InternalErr => "internal error happened. This is usually unreachable. Please contact the vke team ASAP"@,
        ErrV::IllegalArrayDim => "illegal literal used to specify static array length"@,
        ErrV::MissingType => "type annotation is required"@,
        ErrV::NoMultipleNamesPerType => "multiple names per type not allowed"@,
        ErrV::MismatchedLiteral(s, g) => "expected literal "@ + s + " but got "@ + g,
        ErrV::NonPositiveNumber => "a non positive integer is not allowed here!"@,
        ErrV::IllegalModifier(m) => "illegal modifier found `"@ + modifier_text(m) + "`"@,
        ErrV::MissingModifier => "missing a required modifier"@,
        ErrV::InvalidExpression => "not a valid expression"@,
        ErrV::UnconstrainedUnexpectedToken(k) => "unexpected token "@ + kind_debug(k),
        ErrV::NonUnaryCompatibleOperator(o) => "operator "@ + operator_name(o) + " cannot be used in unary expressions!"@,
        ErrV::AssignOpNotAllowedAtExpressionHead => "an assigning operator cannot start an expression"@,
        ErrV::IllegalTupleAccessLiteral(p) => "a literal of type "@ + primitive_text(p) + " cannot select a tuple element"@,
        ErrV::IllegalTrailingSeparator => "a trailing separator is not allowed here"@,
        ErrV::UnknownType(s) => "unknown type `"@ + s + "`"@,
        ErrV::UnknownIdent(s) => "unknown identifier `"@ + s + "`"@,
        ErrV::DuplicateStruct => "a struct of this name already exists"@,
        ErrV::DuplicateFn => "a function of this name already exists"@,
        ErrV::ConstantNotAConstant => "the value of a constant must be known at compile time"@,
    }
}

/// The short note shown under the offending source text.
pub open spec fn summary_text(e: ErrV) -> Seq<char> {
    match e {
        ErrV::TokenizerErr(t) => token_err_text(t),
        ErrV::UnexpectedToken(_, _) => "illegal token"@,
        ErrV::NonBinaryCompatibleOperator(o) => "invalid use of "@ + operator_name(o),
        ErrV::InternalErr => "unrecoverable"@,
        ErrV::IllegalArrayDim => "illegal array length"@,
        ErrV::MissingType => "missing type annotation"@,
        ErrV::NoMultipleNamesPerType => "too many names for type"@,
        ErrV::MismatchedLiteral(s, g) => "expected exact literal "@ + s + " but got "@ + g,
        ErrV::NonPositiveNumber => "negative or fractional number not allowed"@,
        ErrV::IllegalModifier(m) => "illegal modifier `"@ + modifier_text(m) + "`"@,
        ErrV::MissingModifier => "missing required modifier"@,
        ErrV::InvalidExpression => "invalid expression"@,
        ErrV::UnconstrainedUnexpectedToken(_) => "unexpected token"@,
        ErrV::NonUnaryCompatibleOperator(o) => "invalid use of "@ + operator_name(o),
        ErrV::AssignOpNotAllowedAtExpressionHead => "assignment without a target"@,
        ErrV::IllegalTupleAccessLiteral(_) => "illegal tuple index"@,
        ErrV::IllegalTrailingSeparator => "trailing separator"@,
        ErrV::UnknownType(_) => "unknown type"@,
        ErrV::UnknownIdent(_) => "unknown identifier"@,
        ErrV::DuplicateStruct => "duplicate struct"@,
        ErrV::DuplicateFn => "duplicate function"@,
        ErrV::ConstantNotAConstant => "not a constant"@,
    }
}

/// Appends the decimal text of an integer.
fn push_int(v: &mut Vec<char>, i: i64)
    requires
        i > i64::MIN,
    ensures
        final(v)@ == old(v)@ + int_text(i as int),
{
    let t = i64_text(i);
    extend_chars(v, &t);
}

/// Appends how a token kind is shown in messages.
pub fn push_kind_debug(v: &mut Vec<char>, t: &TokenType)
    ensures
        final(v)@ == old(v)@ + kind_debug(t@),
{
    match t {
        TokenType::LParen => push_lit(v, "LParen"),
        TokenType::RParen => push_lit(v, "RParen"),
        TokenType::LBrace => push_lit(v, "LBrace"),
        TokenType::RBrace => push_lit(v, "RBrace"),
        TokenType::LBracket => push_lit(v, "LBracket"),
        TokenType::RBracket => push_lit(v, "RBracket"),
        TokenType::Comma => push_lit(v, "Comma"),
        TokenType::Semi => push_lit(v, "Semi"),
        TokenType::Colon => push_lit(v, "Colon"),
        TokenType::Question => push_lit(v, "Question"),
        TokenType::Keyword(w) => {
            push_lit(v, "Keyword(");
            w.push_name(v);
            push_lit(v, ")");
        },
        TokenType::Literal(Literal::BoolLit(b)) => {
            push_lit(v, "Literal(BoolLit(");
            if *b {
                push_lit(v, "true");
            } else {
                push_lit(v, "false");
            }
            push_lit(v, "))");
        },
        TokenType::Literal(Literal::IntLit(i)) => {
            push_lit(v, "Literal(IntLit(");
            push_int(v, *i as i64);
            push_lit(v, "))");
        },
        TokenType::Literal(Literal::UIntLit(u)) => {
            push_lit(v, "Literal(UIntLit(");
            push_int(v, *u as i64);
            push_lit(v, "))");
        },
        TokenType::Literal(Literal::FloatLit(s)) => {
            push_lit(v, "Literal(FloatLit(");
            extend_chars(v, &string_chars(s));
            push_lit(v, "))");
        },
        TokenType::Literal(Literal::DoubleLit(s)) => {
            push_lit(v, "Literal(DoubleLit(");
            extend_chars(v, &string_chars(s));
            push_lit(v, "))");
        },
        TokenType::Operator(o) => {
            push_lit(v, "Operator(");
            extend_chars(v, &o.name_chars());
            push_lit(v, ")");
        },
        TokenType::OperatorAssign(o) => {
            push_lit(v, "OperatorAssign(");
            extend_chars(v, &o.name_chars());
            push_lit(v, ")");
        },
        TokenType::Ident(s) => {
            push_lit(v, "Ident(");
            let d = str_debug(s);
            extend_chars(v, &string_chars(&d));
            push_lit(v, ")");
        },
    }
}

/// Appends how an expectation is shown in messages.
fn push_exp_debug(v: &mut Vec<char>, e: &TokenExpectation)
    ensures
        final(v)@ == old(v)@ + exp_debug(e@),
{
    match e {
        TokenExpectation::Exact(t) => {
            push_lit(v, "Exact(");
            push_kind_debug(v, t);
            push_lit(v, ")");
        },
        TokenExpectation::Ident => push_lit(v, "Ident"),
        TokenExpectation::Lit => push_lit(v, "Lit"),
    }
}

/// Appends how a list of expectations is shown in messages.
fn push_exps_debug(v: &mut Vec<char>, es: &Vec<TokenExpectation>)
    ensures
        final(v)@ == old(v)@ + exps_debug(exps_view(es@)),
{
    let ghost parts = exps_view(es@).map_values(|e: ExpV| exp_debug(e));
    let mut acc: Vec<char> = Vec::new();
    let mut i: usize = 0;
    while i < es.len()
        invariant
            i <= es@.len(),
            parts == exps_view(es@).map_values(|e: ExpV| exp_debug(e)),
            parts.len() == es@.len(),
            acc@ == seq_join(parts.take(i as int), ", "@),
        decreases es@.len() - i,
    {
        if i > 0 {
            push_lit(&mut acc, ", ");
        }
        push_exp_debug(&mut acc, &es[i]);
        proof {
            assert(parts[i as int] == exp_debug(es@[i as int]@));
            assert(parts.take(i + 1).drop_last() =~= parts.take(i as int));
            assert(parts.take(i + 1).last() == parts[i as int]);
            if i == 0 {
                assert(parts.take(1).len() == 1);
            }
        }
        i += 1;
        assert(acc@ =~= seq_join(parts.take(i as int), ", "@));
    }
    assert(parts.take(es@.len() as int) =~= parts);
    push_lit(v, "[");
    extend_chars(v, &acc);
    push_lit(v, "]");
}

/// Appends how a tokenizer failure is described.
fn push_token_err(v: &mut Vec<char>, e: TokenErr)
    ensures
        final(v)@ == old(v)@ + token_err_text(e),
{
    match e {
        TokenErr::FloatError => push_lit(v, "invalid float literal"),
        TokenErr::IntError(k) => match k {
            IntErrorKind::Empty => push_lit(v, "cannot parse integer from empty string"),
            IntErrorKind::InvalidDigit => push_lit(v, "invalid digit found in string"),
            IntErrorKind::PosOverflow => push_lit(v, "number too large to fit in target type"),
            IntErrorKind::NegOverflow => push_lit(v, "number too small to fit in target type"),
        },
        TokenErr::NegativeUInt(u) => {
            push_lit(v, "-");
            push_int(v, u as i64);
            push_lit(v, "u is not a valid unsigned number declaration");
        },
        TokenErr::EOF => push_lit(v, "end of file"),
    }
}

impl ParseErrType {
    /// The headline of the report of this error.
    pub fn get_message(&self) -> (r: String)
        ensures
            r@ == message_text(self@),
    {
        let mut v: Vec<char> = Vec::new();
        match self {
            ParseErrType::TokenizerErr(_) => push_lit(&mut v, "invalid syntax"),
            ParseErrType::UnexpectedToken(found, expected) => {
                push_lit(&mut v, "\texpected any of ");
                push_exps_debug(&mut v, expected);
                push_lit(&mut v, ", but found ");
                push_kind_debug(&mut v, &found.ty);
            },
            ParseErrType::NonBinaryCompatibleOperator(o) => {
                push_lit(&mut v, "operator ");
                extend_chars(&mut v, &o.name_chars());
                push_lit(&mut v, " cannot be used in binary expressions!");
            },
            ParseErrType::InternalErr => push_lit(
                &mut v,
                "internal error happened. This is usually unreachable. Please contact the vke team ASAP",
            ),
            ParseErrType::IllegalArrayDim => push_lit(&mut v, "illegal literal used to specify static array length"),
            ParseErrType::MissingType => push_lit(&mut v, "type annotation is required"),
            ParseErrType::NoMultipleNamesPerType => push_lit(&mut v, "multiple names per type not allowed"),
            ParseErrType::MismatchedLiteral(s, g) => {
                push_lit(&mut v, "expected literal ");
                extend_chars(&mut v, &string_chars(s));
                push_lit(&mut v, " but got ");
                extend_chars(&mut v, &string_chars(g));
            },
            ParseErrType::NonPositiveNumber => push_lit(&mut v, "a non positive integer is not allowed here!"),
            ParseErrType::IllegalModifier(m) => {
                push_lit(&mut v, "illegal modifier found `");
                m.push_text(&mut v);
                push_lit(&mut v, "`");
            },
            ParseErrType::MissingModifier => push_lit(&mut v, "missing a required modifier"),
            ParseErrType::InvalidExpression => push_lit(&mut v, "not a valid expression"),
            ParseErrType::UnconstrainedUnexpectedToken(k) => {
                push_lit(&mut v, "unexpected token ");
                push_kind_debug(&mut v, k);
            },
            ParseErrType::NonUnaryCompatibleOperator(o) => {
                push_lit(&mut v, "operator ");
                extend_chars(&mut v, &o.name_chars());
                push_lit(&mut v, " cannot be used in unary expressions!");
            },
            ParseErrType::AssignOpNotAllowedAtExpressionHead => push_lit(
                &mut v,
                "an assigning operator cannot start an expression",
            ),
            ParseErrType::IllegalTupleAccessLiteral(p) => {
                push_lit(&mut v, "a literal of type ");
                extend_chars(&mut v, &p.text_chars());
                push_lit(&mut v, " cannot select a tuple element");
            },
            ParseErrType::IllegalTrailingSeparator => push_lit(&mut v, "a trailing separator is not allowed here"),
            ParseErrType::UnknownType(s) => {
                push_lit(&mut v, "unknown type `");
                extend_chars(&mut v, &string_chars(s));
                push_lit(&mut v, "`");
            },
            ParseErrType::UnknownIdent(s) => {
                push_lit(&mut v, "unknown identifier `");
                extend_chars(&mut v, &string_chars(s));
                push_lit(&mut v, "`");
            },
            ParseErrType::DuplicateStruct(_) => push_lit(&mut v, "a struct of this name already exists"),
            ParseErrType::DuplicateFn(_) => push_lit(&mut v, "a function of this name already exists"),
            ParseErrType::ConstantNotAConstant => push_lit(
                &mut v,
                "the value of a constant must be known at compile time",
            ),
        }
        string_from_chars(&v)
    }

    /// The short note of the report of this error.
    pub fn get_summary(&self) -> (r: String)
        ensures
            r@ == summary_text(self@),
    {
        let mut v: Vec<char> = Vec::new();
        match self {
            ParseErrType::TokenizerErr(e) => push_token_err(&mut v, *e),
            ParseErrType::UnexpectedToken(_, _) => push_lit(&mut v, "illegal token"),
            ParseErrType::NonBinaryCompatibleOperator(o) => {
                push_lit(&mut v, "invalid use of ");
                extend_chars(&mut v, &o.name_chars());
            },
            ParseErrType::InternalErr => push_lit(&mut v, "unrecoverable"),
            ParseErrType::IllegalArrayDim => push_lit(&mut v, "illegal array length"),
            ParseErrType::MissingType => push_lit(&mut v, "missing type annotation"),
            ParseErrType::NoMultipleNamesPerType => push_lit(&mut v, "too many names for type"),
            ParseErrType::MismatchedLiteral(s, g) => {
                push_lit(&mut v, "expected exact literal ");
                extend_chars(&mut v, &string_chars(s));
                push_lit(&mut v, " but got ");
                extend_chars(&mut v, &string_chars(g));
            },
            ParseErrType::NonPositiveNumber => push_lit(&mut v, "negative or fractional number not allowed"),
            ParseErrType::IllegalModifier(m) => {
                push_lit(&mut v, "illegal modifier `");
                m.push_text(&mut v);
                push_lit(&mut v, "`");
            },
            ParseErrType::MissingModifier => push_lit(&mut v, "missing required modifier"),
            ParseErrType::InvalidExpression => push_lit(&mut v, "invalid expression"),
            ParseErrType::UnconstrainedUnexpectedToken(_) => push_lit(&mut v, "unexpected token"),
            ParseErrType::NonUnaryCompatibleOperator(o) => {
                push_lit(&mut v, "invalid use of ");
                extend_chars(&mut v, &o.name_chars());
            },
            ParseErrType::AssignOpNotAllowedAtExpressionHead => push_lit(&mut v, "assignment without a target"),
            ParseErrType::IllegalTupleAccessLiteral(_) => push_lit(&mut v, "illegal tuple index"),
            ParseErrType::IllegalTrailingSeparator => push_lit(&mut v, "trailing separator"),
            ParseErrType::UnknownType(_) => push_lit(&mut v, "unknown type"),
            ParseErrType::UnknownIdent(_) => push_lit(&mut v, "unknown identifier"),
            ParseErrType::DuplicateStruct(_) => push_lit(&mut v, "duplicate struct"),
            ParseErrType::DuplicateFn(_) => push_lit(&mut v, "duplicate function"),
            ParseErrType::ConstantNotAConstant => push_lit(&mut v, "not a constant"),
        }
        string_from_chars(&v)
    }
}

} // verus!

verus! {

/// Index of the first line break at or after `i`, or the length of `s`.
pub open spec fn next_break(s: Seq<char>, i: int) -> int
    decreases s.len() - i,
{
    if i < 0 || i >= s.len() {
        s.len() as int
    } else if s[i] == '\n' {
        i
    } else {
        next_break(s, i + 1)
    }
}

pub proof fn lemma_next_break(s: Seq<char>, i: int)
    requires
        0 <= i,
    ensures
        i <= next_break(s, i) <= s.len() || (i > s.len() && next_break(s, i) == s.len()),
        next_break(s, i) < s.len() ==> s[next_break(s, i)] == '\n',
        forall|j: int| i <= j < next_break(s, i) ==> s[j] != '\n',
    decreases s.len() - i,
{
    if i < s.len() && s[i] != '\n' {
        lemma_next_break(s, i + 1);
    }
}

/// `t` without a carriage return at its end.
pub open spec fn strip_cr(t: Seq<char>) -> Seq<char> {
    if t.len() > 0 && t.last() == '\r' {
        t.drop_last()
    } else {
        t
    }
}

/// The lines of `s` as `str::lines` yields them: split at each `\n`, a `\r`
/// before a `\n` removed, and no empty line after a final `\n`.
pub open spec fn text_lines(s: Seq<char>) -> Seq<Seq<char>>
    decreases s.len(),
{
    if s.len() == 0 {
        seq![]
    } else {
        let k = next_break(s, 0);
        if k >= s.len() {
            seq![s]
        } else {
            proof {
                lemma_next_break(s, 0);
            }
            seq![strip_cr(s.take(k))] + text_lines(s.skip(k + 1))
        }
    }
}

proof fn lemma_next_break_skip(s: Seq<char>, a: int, j: int)
    requires
        0 <= a <= s.len(),
        0 <= j,
    ensures
        next_break(s.skip(a), j) == next_break(s, a + j) - a,
    decreases s.len() - a - j,
{
    if a + j < s.len() && s[a + j] != '\n' {
        lemma_next_break_skip(s, a, j + 1);
    }
}

/// The lines of `s`, each as a vector of characters.
pub fn split_lines(s: &Vec<char>) -> (r: Vec<Vec<char>>)
    ensures
        r@.map_values(|l: Vec<char>| l@) == text_lines(s@),
{
    let n = s.len();
    let mut out: Vec<Vec<char>> = Vec::new();
    let mut start: usize = 0;
    proof {
        assert(s@.skip(0) =~= s@);
        assert(out@.map_values(|l: Vec<char>| l@) =~= Seq::<Seq<char>>::empty());
        assert(Seq::<Seq<char>>::empty() + text_lines(s@) =~= text_lines(s@));
    }
    while start < n
        invariant
            n == s@.len(),
            start <= n,
            text_lines(s@) == out@.map_values(|l: Vec<char>| l@) + text_lines(s@.skip(start as int)),
        decreases n - start,
    {
        let ghost rest = s@.skip(start as int);
        let mut k: usize = start;
        while k < n && s[k] != '\n'
            invariant
                start <= k <= n,
                n == s@.len(),
                forall|j: int| start <= j < k ==> s@[j] != '\n',
            decreases n - k,
        {
            k += 1;
        }
        proof {
            lemma_next_break(s@, start as int);
            lemma_next_break_skip(s@, start as int, 0);
            assert(next_break(s@, start as int) == k) by {
                if next_break(s@, start as int) < k {
                    assert(s@[next_break(s@, start as int)] == '\n');
                }
            }
        }
        let mut line: Vec<char> = Vec::new();
        let mut i: usize = start;
        while i < k
            invariant
                start <= i <= k <= n,
                n == s@.len(),
                line@ == s@.subrange(start as int, i as int),
            decreases k - i,
        {
            line.push(s[i]);
            i += 1;
            assert(line@ =~= s@.subrange(start as int, i as int));
        }
        let ghost before = out@.map_values(|l: Vec<char>| l@);
        let ghost seg = s@.subrange(start as int, k as int);
        if k < n {
            if line.len() > 0 && line[line.len() - 1] == '\r' {
                line.pop();
            }
            proof {
                assert(line@ =~= strip_cr(seg));
                assert(rest.take(k - start) =~= seg);
                assert(rest.skip(k - start + 1) =~= s@.skip(k + 1));
                assert(text_lines(rest) == seq![strip_cr(seg)] + text_lines(s@.skip(k + 1)));
            }
            out.push(line);
            proof {
                assert(out@.map_values(|l: Vec<char>| l@) =~= before.push(strip_cr(seg)));
                assert(before + (seq![strip_cr(seg)] + text_lines(s@.skip(k + 1))) =~= before.push(strip_cr(seg))
                    + text_lines(s@.skip(k + 1)));
            }
            start = k + 1;
        } else {
            proof {
                assert(rest =~= seg);
                assert(text_lines(rest) == seq![seg]);
                assert(s@.skip(n as int) =~= Seq::<char>::empty());
            }
            out.push(line);
            proof {
                assert(out@.map_values(|l: Vec<char>| l@) =~= before.push(seg));
                assert(before + seq![seg] =~= before.push(seg) + Seq::<Seq<char>>::empty());
            }
            start = n;
        }
    }
    assert(s@.skip(n as int) =~= Seq::<char>::empty());
    assert(out@.map_values(|l: Vec<char>| l@) + Seq::<Seq<char>>::empty() =~= out@.map_values(|l: Vec<char>| l@));
    out
}

} // verus!

verus! {

/// The last line of `h` as the report shows it: the last of its lines, or
/// `h` itself when it has none.
pub open spec fn last_line(h: Seq<char>) -> Seq<char> {
    let ls = text_lines(h);
    if ls.len() == 0 {
        h
    } else {
        ls.last()
    }
}

/// Bytes in the UTF-8 encoding of `s`.
pub open spec fn bytes_len(s: Seq<char>) -> int
    decreases s.len(),
{
    if s.len() == 0 {
        0
    } else {
        bytes_len(s.drop_last()) + utf8_len(s.last())
    }
}

/// Whether the first `k` bytes of `l` end on a character boundary.
pub open spec fn cuts_at(l: Seq<char>, k: int) -> bool {
    exists|i: int| 0 <= i <= l.len() && #[trigger] bytes_len(l.take(i)) == k
}

proof fn lemma_bytes_step(l: Seq<char>, i: int)
    requires
        0 <= i < l.len(),
    ensures
        bytes_len(l.take(i + 1)) == bytes_len(l.take(i)) + utf8_len(l[i]),
{
    assert(l.take(i + 1).drop_last() =~= l.take(i));
}

proof fn lemma_bytes_mono(l: Seq<char>, i: int, j: int)
    requires
        0 <= i < j <= l.len(),
    ensures
        bytes_len(l.take(i)) < bytes_len(l.take(j)),
    decreases j - i,
{
    lemma_bytes_step(l, j - 1);
    if i < j - 1 {
        lemma_bytes_mono(l, i, j - 1);
    }
}

/// Bytes in the UTF-8 encoding of `c`.
fn char_bytes(c: char) -> (r: u128)
    ensures
        r == utf8_len(c),
{
    let v = c as u32;
    if v < 0x80 {
        1
    } else if v < 0x800 {
        2
    } else if v < 0x10000 {
        3
    } else {
        4
    }
}

/// How many bytes of the shown line come before the marked part: the
/// token is `end - start + 1` long, and at most the whole line is marked.
pub open spec fn pad_len(line_len: int, start: int, end: int) -> int {
    let tok = end - start + 1;
    line_len - (if tok < line_len { tok } else { line_len })
}

/// The lines of a hint as the report shows them: at least one, possibly empty.
pub open spec fn hint_lines(h: Seq<char>) -> Seq<Seq<char>> {
    if text_lines(h).len() == 0 {
        seq![seq![]]
    } else {
        text_lines(h)
    }
}

/// The pieces of an error report, ready to be printed:
///
/// ```text
/// error: <message>
/// --> <file> [<location>]
///  |
///  | <before><marked><tail>
///  | <padding><squiggly> <summary>
///  |
///  = hint: <first hint line>
///  | <further hint lines>
/// ```
pub struct ErrorLayout {
    pub message: String,
    pub file: String,
    pub location: String,
    pub before: String,
    pub marked: String,
    pub tail: String,
    pub padding: String,
    pub squiggly: String,
    pub summary: String,
    pub hint: Vec<String>,
}

/// `n` copies of `c`.
fn repeat_char(c: char, n: usize) -> (r: String)
    ensures
        r@ == Seq::new(n as nat, |i: int| c),
{
    let mut v: Vec<char> = Vec::new();
    let mut i: usize = 0;
    while i < n
        invariant
            i <= n,
            v@ == Seq::new(i as nat, |k: int| c),
        decreases n - i,
    {
        v.push(c);
        i += 1;
        assert(v@ =~= Seq::new(i as nat, |k: int| c));
    }
    string_from_chars(&v)
}

/// The characters of `v` from `a` up to `b`, as a string.
fn slice_string(v: &Vec<char>, a: usize, b: usize) -> (r: String)
    requires
        a <= b <= v@.len(),
    ensures
        r@ == v@.subrange(a as int, b as int),
{
    let mut t: Vec<char> = Vec::new();
    let mut i: usize = a;
    while i < b
        invariant
            a <= i <= b <= v@.len(),
            t@ == v@.subrange(a as int, i as int),
        decreases b - i,
    {
        t.push(v[i]);
        i += 1;
        assert(t@ =~= v@.subrange(a as int, i as int));
    }
    string_from_chars(&t)
}

/// The last line of `h`.
fn last_line_of(h: &Vec<char>) -> (r: Vec<char>)
    ensures
        r@ == last_line(h@),
{
    let mut ls = split_lines(h);
    proof {
        assert(ls@.map_values(|l: Vec<char>| l@).len() == ls@.len());
    }
    match ls.pop() {
        Some(l) => {
            proof {
                let m = text_lines(h@);
                assert(m.len() > 0);
                assert(m.last() == l@);
            }
            l
        },
        None => {
            let mut c: Vec<char> = Vec::new();
            extend_chars(&mut c, h);
            c
        },
    }
}

/// The lines of a hint, as strings.
fn hint_strings(h: &String) -> (r: Vec<String>)
    ensures
        r@.map_values(|s: String| s@) == hint_lines(h@),
{
    let ls = split_lines(&string_chars(h));
    let mut out: Vec<String> = Vec::new();
    let mut i: usize = 0;
    while i < ls.len()
        invariant
            i <= ls@.len(),
            ls@.map_values(|l: Vec<char>| l@) == text_lines(h@),
            out@.map_values(|s: String| s@) == text_lines(h@).take(i as int),
        decreases ls@.len() - i,
    {
        let ghost prev = out@.map_values(|s: String| s@);
        let item = string_from_chars(&ls[i]);
        out.push(item);
        proof {
            assert(ls@.map_values(|l: Vec<char>| l@)[i as int] == ls@[i as int]@);
            assert(out@.map_values(|s: String| s@) =~= prev.push(item@));
            assert(text_lines(h@).take(i + 1) =~= text_lines(h@).take(i as int).push(text_lines(h@)[i as int]));
        }
        i += 1;
        assert(out@.map_values(|s: String| s@) =~= text_lines(h@).take(i as int));
    }
    if out.len() == 0 {
        out.push(String::new());
        assert(out@.map_values(|s: String| s@) =~= seq![Seq::<char>::empty()]);
    } else {
        assert(text_lines(h@).take(ls@.len() as int) =~= text_lines(h@));
    }
    out
}

/// Appends the decimal digits of `n`.
fn push_u32(v: &mut Vec<char>, n: u32)
    ensures
        final(v)@ == old(v)@ + int_text(n as int),
{
    let d = u64_digits(n as u64);
    extend_chars(v, &d);
}

} // verus!

verus! {

/// The source text an error report shows: what the error's position
/// recorded, when its record is consistent.
pub open spec fn shown_history(ctx: crate::token::TokCtx) -> Seq<char> {
    if ctx.history.wf() {
        ctx.history.window()
    } else {
        seq![]
    }
}

impl crate::parser::err::ParseErr {
    /// The pieces of the report of this error. The marked part is the end of
    /// the last recorded source line, as many bytes long as the offending
    /// token is columns wide. `None` where that part does not start on a
    /// character boundary, or the line is longer than memory can count.
    pub fn layout(&self) -> (r: Option<ErrorLayout>)
        requires
            self.ctx.start_pos <= self.ctx.end_pos as int + 1,
        ensures
            ({
                let l = last_line(shown_history(self.ctx));
                let k = pad_len(bytes_len(l), self.ctx.start_pos as int, self.ctx.end_pos as int);
                r is Some <==> (cuts_at(l, k) && bytes_len(l) <= usize::MAX)
            }),
            r matches Some(y) ==> {
                let l = last_line(shown_history(self.ctx));
                let k = pad_len(bytes_len(l), self.ctx.start_pos as int, self.ctx.end_pos as int);
                &&& y.message@ == message_text(self.ty@)
                &&& y.summary@ == summary_text(self.ty@)
                &&& y.file@ == (match self.ctx.file {
                    Some(f) => f@,
                    None => "<not given>"@,
                })
                &&& y.location@ == int_text(self.ctx.line as int) + ":"@ + int_text(self.ctx.start_pos as int)
                &&& y.before@ + y.marked@ == l
                &&& bytes_len(y.before@) == k
                &&& y.padding@ == Seq::new(k as nat, |i: int| ' ')
                &&& y.squiggly@ == Seq::new((bytes_len(l) - k) as nat, |i: int| '~')
                &&& y.tail@ == self.tail@
                &&& y.hint@.map_values(|s: String| s@) == (match self.hint {
                    Some(h) => hint_lines(h@),
                    None => Seq::<Seq<char>>::empty(),
                })
            },
    {
        let message = self.ty.get_message();
        let summary = self.ty.get_summary();
        let file = match &self.ctx.file {
            Some(f) => f.clone(),
            None => string_from_chars(&crate::text::lit_chars("<not given>")),
        };
        let mut loc: Vec<char> = Vec::new();
        push_u32(&mut loc, self.ctx.line);
        push_lit(&mut loc, ":");
        push_u32(&mut loc, self.ctx.start_pos);
        let location = string_from_chars(&loc);
        let hist: Vec<char> = if self.ctx.history.is_wf() {
            string_chars(&self.ctx.history.reconstruct())
        } else {
            Vec::new()
        };
        let l = last_line_of(&hist);
        let n = l.len();
        let mut total: u128 = 0;
        let mut i: usize = 0;
        while i < n
            invariant
                n == l@.len(),
                i <= n,
                total == bytes_len(l@.take(i as int)),
                total <= 4 * i,
            decreases n - i,
        {
            proof {
                lemma_bytes_step(l@, i as int);
            }
            total = total + char_bytes(l[i]);
            i += 1;
        }
        proof {
            assert(l@.take(n as int) =~= l@);
        }
        if total > usize::MAX as u128 {
            return None;
        }
        let tok: u128 = self.ctx.end_pos as u128 + 1 - self.ctx.start_pos as u128;
        let k: u128 = if tok < total { total - tok } else { 0 };
        let mut acc: u128 = 0;
        let mut j: usize = 0;
        while j < n && acc < k
            invariant
                n == l@.len(),
                j <= n,
                acc == bytes_len(l@.take(j as int)),
                acc <= total,
                total == bytes_len(l@),
                forall|m: int| 0 <= m < j ==> bytes_len(#[trigger] l@.take(m)) < k,
            decreases n - j,
        {
            proof {
                lemma_bytes_step(l@, j as int);
                if j + 1 < n {
                    lemma_bytes_mono(l@, j + 1, n as int);
                }
                assert(l@.take(n as int) =~= l@);
            }
            acc = acc + char_bytes(l[j]);
            j += 1;
        }
        proof {
            assert(l@.take(n as int) =~= l@);
            if acc != k {
                assert forall|m: int| 0 <= m <= l@.len() implies #[trigger] bytes_len(l@.take(m)) != k by {
                    if m > j {
                        lemma_bytes_mono(l@, j as int, m);
                    }
                }
            }
        }
        if acc != k {
            return None;
        }
        let before = slice_string(&l, 0, j);
        let marked = slice_string(&l, j, n);
        proof {
            assert(l@.subrange(0, j as int) + l@.subrange(j as int, n as int) =~= l@);
            assert(l@.subrange(0, j as int) =~= l@.take(j as int));
        }
        let padding = repeat_char(' ', k as usize);
        let squiggly = repeat_char('~', (total - k) as usize);
        let hint = match &self.hint {
            Some(h) => hint_strings(h),
            None => {
                let v: Vec<String> = Vec::new();
                assert(v@.map_values(|s: String| s@) =~= Seq::<Seq<char>>::empty());
                v
            },
        };
        Some(ErrorLayout {
            message,
            file,
            location,
            before,
            marked,
            tail: self.tail.clone(),
            padding,
            squiggly,
            summary,
            hint,
        })
    }
}

} // verus!
