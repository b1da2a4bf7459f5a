//! The lexical grammar, as spec functions over the source characters.
use vstd::prelude::*;
use crate::token::{Keyword, Operator, TokenKind, keyword_of};
use crate::token::chars::{is_numeric_char, is_alphanumeric_char, is_whitespace_char, ascii_lower};
use crate::token::numbers::{IntErrorKind, parse_int_spec, float_text_ok, digit_value, lemma_parse_int_in_range, lemma_parse_int_digits};
use crate::token::history::window_push;

verus! {

/// Why a token could not be read.
#[derive(Copy, Clone, Debug, PartialEq, Eq, Structural)]
pub enum TokenErr {
    /// A number with a fractional part or float suffix that is not a valid float.
    FloatError,
    /// An integer literal that does not fit or has stray characters.
    IntError(IntErrorKind),
    /// A negative number with the unsigned suffix.
    NegativeUInt(u32),
    /// The source ended where a token was required.
    EOF,
}

/// The character at `i`, if `i` is inside the source.
pub open spec fn char_at(src: Seq<char>, i: int) -> Option<char> {
    if 0 <= i < src.len() {
        Some(src[i])
    } else {
        None
    }
}

/// Whether `src[i]` is the character `c`.
pub open spec fn is_char(src: Seq<char>, i: int, c: char) -> bool {
    0 <= i < src.len() && src[i] == c
}

// ---------------------------------------------------------------------------
// Line, column and history tracking
// ---------------------------------------------------------------------------

/// Reading position: index of the next character, line and column counters,
/// and the window of recently read characters.
pub struct Cur {
    pub idx: int,
    pub line: int,
    pub pos: int,
    pub win: Seq<char>,
}

/// Counters are 32-bit and stop at their maximum.
pub open spec fn sat(x: int) -> int {
    if x > u32::MAX { u32::MAX as int } else { x }
}

/// Reading one character `c`: the column advances, a line feed starts a new line.
pub open spec fn step(cur: Cur, c: char, cap: nat) -> Cur {
    Cur {
        idx: cur.idx + 1,
        line: if c == '\n' { sat(cur.line + 1) } else { cur.line },
        pos: if c == '\n' { 0 } else { sat(cur.pos + 1) },
        win: window_push(cur.win, c, cap),
    }
}

/// The reading position after reading `src[c0.idx..to]` from `c0`.
pub open spec fn advance(src: Seq<char>, c0: Cur, to: int, cap: nat) -> Cur
    decreases to - c0.idx,
{
    if to <= c0.idx {
        c0
    } else {
        step(advance(src, c0, to - 1, cap), src[to - 1], cap)
    }
}

pub proof fn lemma_advance_idx(src: Seq<char>, c0: Cur, to: int, cap: nat)
    requires
        c0.idx <= to,
    ensures
        advance(src, c0, to, cap).idx == to,
    decreases to - c0.idx,
{
    if to > c0.idx {
        lemma_advance_idx(src, c0, to - 1, cap);
    }
}

pub proof fn lemma_advance_compose(src: Seq<char>, c0: Cur, mid: int, to: int, cap: nat)
    requires
        c0.idx <= mid <= to,
    ensures
        advance(src, advance(src, c0, mid, cap), to, cap) == advance(src, c0, to, cap),
    decreases to - mid,
{
    lemma_advance_idx(src, c0, mid, cap);
    if to > mid {
        lemma_advance_compose(src, c0, mid, to - 1, cap);
    }
}

// ---------------------------------------------------------------------------
// Whitespace and comments
// ---------------------------------------------------------------------------

/// End of a line comment whose text starts at `j`: just past the next line feed.
pub open spec fn line_comment_end(src: Seq<char>, j: int) -> int
    decreases src.len() - j,
{
    if j < 0 || j >= src.len() {
        if j < 0 { 0 } else { j }
    } else if src[j] == '\n' {
        j + 1
    } else {
        line_comment_end(src, j + 1)
    }
}

/// End of a block comment whose text starts at `j`: just past the next `*/`.
pub open spec fn block_comment_end(src: Seq<char>, j: int) -> int
    decreases src.len() - j,
{
    if j < 0 || j >= src.len() {
        if j < 0 { 0 } else { j }
    } else if src[j] == '*' && is_char(src, j + 1, '/') {
        j + 2
    } else {
        block_comment_end(src, j + 1)
    }
}

pub proof fn lemma_line_comment_end(src: Seq<char>, j: int)
    requires
        0 <= j <= src.len(),
    ensures
        j <= line_comment_end(src, j) <= src.len(),
    decreases src.len() - j,
{
    if j < src.len() && src[j] != '\n' {
        lemma_line_comment_end(src, j + 1);
    }
}

pub proof fn lemma_block_comment_end(src: Seq<char>, j: int)
    requires
        0 <= j <= src.len(),
    ensures
        j <= block_comment_end(src, j) <= src.len(),
    decreases src.len() - j,
{
    if j < src.len() && !(src[j] == '*' && is_char(src, j + 1, '/')) {
        lemma_block_comment_end(src, j + 1);
    }
}

/// Whether a comment starts at `i`.
pub open spec fn comment_at(src: Seq<char>, i: int) -> bool {
    is_char(src, i, '/') && (is_char(src, i + 1, '/') || is_char(src, i + 1, '*'))
}

/// Where the next token starts: past whitespace and comments.
pub open spec fn skip_trivia(src: Seq<char>, i: int) -> int
    decreases src.len() - i,
{
    if i < 0 || i >= src.len() {
        i
    } else if is_whitespace_char(src[i]) {
        skip_trivia(src, i + 1)
    } else if is_char(src, i, '/') && is_char(src, i + 1, '/') {
        proof {
            lemma_line_comment_end(src, i + 2);
        }
        skip_trivia(src, line_comment_end(src, i + 2))
    } else if is_char(src, i, '/') && is_char(src, i + 1, '*') {
        proof {
            lemma_block_comment_end(src, i + 2);
        }
        skip_trivia(src, block_comment_end(src, i + 2))
    } else {
        i
    }
}

pub proof fn lemma_skip_trivia(src: Seq<char>, i: int)
    requires
        0 <= i <= src.len(),
    ensures
        i <= skip_trivia(src, i) <= src.len(),
        skip_trivia(src, i) < src.len() ==> !is_whitespace_char(src[skip_trivia(src, i)]) && !comment_at(
            src,
            skip_trivia(src, i),
        ),
    decreases src.len() - i,
{
    if i < src.len() {
        if is_whitespace_char(src[i]) {
            lemma_skip_trivia(src, i + 1);
        } else if is_char(src, i, '/') && is_char(src, i + 1, '/') {
            lemma_line_comment_end(src, i + 2);
            lemma_skip_trivia(src, line_comment_end(src, i + 2));
        } else if is_char(src, i, '/') && is_char(src, i + 1, '*') {
            lemma_block_comment_end(src, i + 2);
            lemma_skip_trivia(src, block_comment_end(src, i + 2));
        }
    }
}

// ---------------------------------------------------------------------------
// Words: identifiers, keywords and numbers
// ---------------------------------------------------------------------------

/// Whether `n`, read after `prev`, continues a word. In numbers: exponent
/// marks (`e`, `E`), a sign right after an exponent mark outside hexadecimal
/// numbers, the radix markers and digits (once a hexadecimal marker was read,
/// any alphanumeric but `u` and `U`, which mark an unsigned literal); in
/// names: `_`, `$` and alphanumerics.
pub open spec fn lit_part(prev: char, n: char, is_num: bool, is_hex: bool) -> bool {
    if is_num {
        n == 'e' || n == 'E' || n == 'b' || n == 'x' || ((n == '-' || n == '+') && !is_hex && (prev == 'e' || prev
            == 'E')) || (if is_hex {
            is_alphanumeric_char(n) && n != 'u' && n != 'U'
        } else {
            is_numeric_char(n)
        })
    } else {
        n == '_' || n == '$' || n == 'e' || is_alphanumeric_char(n)
    }
}

/// First scan of a word from `j`: returns where it stops and whether a
/// hexadecimal (`x`) or binary (`b`) marker was read in a number.
pub open spec fn scan_word(src: Seq<char>, j: int, is_num: bool, hex: bool, bin: bool) -> (int, bool, bool)
    decreases src.len() - j,
{
    if 0 <= j < src.len() && lit_part(src[j - 1], src[j], is_num, hex) {
        scan_word(src, j + 1, is_num, hex || (is_num && src[j] == 'x'), bin || (is_num && src[j] == 'b'))
    } else {
        (j, hex, bin)
    }
}

/// The run of `.` characters a number may continue with.
pub open spec fn scan_dots(src: Seq<char>, j: int, is_num: bool) -> int
    decreases src.len() - j,
{
    if is_num && 0 <= j < src.len() && src[j] == '.' {
        scan_dots(src, j + 1, is_num)
    } else {
        j
    }
}

/// The rest of a word after its dots, with the radix markers as they were.
pub open spec fn scan_rest(src: Seq<char>, j: int, is_num: bool, hex: bool) -> int
    decreases src.len() - j,
{
    if 0 <= j < src.len() && lit_part(src[j - 1], src[j], is_num, hex) {
        scan_rest(src, j + 1, is_num, hex)
    } else {
        j
    }
}

/// Whether the three characters at `j` are `a`, `b`, `c`.
pub open spec fn has3(src: Seq<char>, j: int, a: char, b: char, c: char) -> bool {
    is_char(src, j, a) && is_char(src, j + 1, b) && is_char(src, j + 2, c)
}

/// The result of reading a token.
pub enum Lexed {
    Tok(TokenKind, int),
    Fail(TokenErr, int),
}

/// Where a lexing result ends.
pub open spec fn lexed_end(l: Lexed) -> int {
    match l {
        Lexed::Tok(_, e) => e,
        Lexed::Fail(_, e) => e,
    }
}

/// The ASCII spellings of the boolean literals.
pub open spec fn false_text() -> Seq<char> {
    seq!['f', 'a', 'l', 's', 'e']
}

pub open spec fn true_text() -> Seq<char> {
    seq!['t', 'r', 'u', 'e']
}

/// Reading a word whose first character is at `w`; `neg` when a `-` came right before
/// a digit.
pub open spec fn word_lex(src: Seq<char>, w: int, neg: bool) -> Lexed {
    let c = src[w];
    let is_num = is_numeric_char(c);
    let (e1, hex, bin) = scan_word(src, w + 1, is_num, false, false);
    let e2 = scan_dots(src, e1, is_num);
    let e3 = scan_rest(src, e2, is_num, hex);
    let buf = src.subrange(w, e3);
    let is_uint = 0 <= e3 < src.len() && ascii_lower(src[e3]) == 'u';
    let e4 = if is_uint { e3 + 1 } else { e3 };
    let is_f64 = has3(src, e4, 'f', '6', '4');
    let e5 = if is_f64 { e4 + 3 } else { e4 };
    let is_f32 = has3(src, e5, 'f', '3', '2');
    let e6 = if is_f32 { e5 + 3 } else { e5 };
    let is_float = e2 > e1 || is_f32 || (is_num && !hex && !bin && has_exponent(buf));
    match word_value(buf, is_num, hex, bin, is_float, is_uint, is_f64, neg) {
        Ok(k) => Lexed::Tok(k, e6),
        Err(e) => Lexed::Fail(e, e6),
    }
}

/// Whether a word holds an exponent mark, `e` or `E`.
pub open spec fn has_exponent(buf: Seq<char>) -> bool {
    exists|k: int| 0 <= k < buf.len() && (#[trigger] buf[k] == 'e' || buf[k] == 'E')
}

/// Bytes in the UTF-8 encoding of `c`.
pub open spec fn utf8_len(c: char) -> nat {
    if (c as u32) < 0x80 {
        1
    } else if (c as u32) < 0x800 {
        2
    } else if (c as u32) < 0x10000 {
        3
    } else {
        4
    }
}

/// Where the digits of a hexadecimal or binary word start: past its first two
/// bytes in UTF-8, which is past two one-byte characters or past one two-byte
/// character. `None` where the second byte ends inside a character.
pub open spec fn radix_start(buf: Seq<char>) -> Option<int> {
    if buf.len() >= 2 && utf8_len(buf[0]) == 1 && utf8_len(buf[1]) == 1 {
        Some(2)
    } else if buf.len() >= 1 && utf8_len(buf[0]) == 2 {
        Some(1)
    } else {
        None
    }
}

/// The integer the digits of a hexadecimal or binary word denote in `lo..=hi`;
/// a word whose prefix does not end on a character boundary has no valid digits.
pub open spec fn radix_value(buf: Seq<char>, radix: nat, lo: int, hi: int) -> Result<int, IntErrorKind> {
    match radix_start(buf) {
        Some(st) => parse_int_spec(buf.subrange(st, buf.len() as int), radix, lo, hi),
        None => Err(IntErrorKind::InvalidDigit),
    }
}

/// The integer a number word's digits denote in an `i32`: after the radix
/// prefix for hexadecimal and binary numbers, else all of it in decimal.
pub open spec fn signed_value(buf: Seq<char>, hex: bool, bin: bool) -> Result<int, IntErrorKind> {
    if hex {
        radix_value(buf, 16, i32::MIN as int, i32::MAX as int)
    } else if bin {
        radix_value(buf, 2, i32::MIN as int, i32::MAX as int)
    } else {
        parse_int_spec(buf, 10, i32::MIN as int, i32::MAX as int)
    }
}

/// The same for a `u32` (the `u` suffix).
pub open spec fn unsigned_value(buf: Seq<char>, hex: bool, bin: bool) -> Result<int, IntErrorKind> {
    if hex {
        radix_value(buf, 16, 0, u32::MAX as int)
    } else if bin {
        radix_value(buf, 2, 0, u32::MAX as int)
    } else {
        parse_int_spec(buf, 10, 0, u32::MAX as int)
    }
}

/// What a word's text denotes, given how it was read.
pub open spec fn word_value(
    buf: Seq<char>,
    is_num: bool,
    hex: bool,
    bin: bool,
    is_float: bool,
    is_uint: bool,
    is_f64: bool,
    neg: bool,
) -> Result<TokenKind, TokenErr> {
    if is_num {
        if is_float || is_f64 {
            let text = if neg { seq!['-'] + buf } else { buf };
            if float_text_ok(buf) {
                if is_f64 {
                    Ok(TokenKind::Double(text))
                } else {
                    Ok(TokenKind::Float(text))
                }
            } else {
                Err(TokenErr::FloatError)
            }
        } else if is_uint {
            match unsigned_value(buf, hex, bin) {
                Ok(v) => if neg {
                    Err(TokenErr::NegativeUInt(v as u32))
                } else {
                    Ok(TokenKind::UInt(v as u32))
                },
                Err(e) => Err(TokenErr::IntError(e)),
            }
        } else {
            match signed_value(buf, hex, bin) {
                Ok(v) => Ok(TokenKind::Int((if neg { -v } else { v }) as i32)),
                Err(e) => Err(TokenErr::IntError(e)),
            }
        }
    } else {
        match keyword_of(buf) {
            Some(k) => Ok(TokenKind::Keyword(k)),
            None => if buf == false_text() {
                Ok(TokenKind::Bool(false))
            } else if buf == true_text() {
                Ok(TokenKind::Bool(true))
            } else {
                Ok(TokenKind::Ident(buf))
            },
        }
    }
}

// ---------------------------------------------------------------------------
// Punctuation and operators
// ---------------------------------------------------------------------------

/// An operator token of one, or (with `=` next) two characters.
pub open spec fn with_assign(src: Seq<char>, s: int, op: Operator) -> Lexed {
    if is_char(src, s + 1, '=') {
        Lexed::Tok(TokenKind::OperatorAssign(op), s + 2)
    } else {
        Lexed::Tok(TokenKind::Operator(op), s + 1)
    }
}

/// Reading the token whose first character is at `s` (not whitespace, not a comment).
pub open spec fn lex_at(src: Seq<char>, s: int) -> Lexed {
    let c = src[s];
    if c == '(' {
        Lexed::Tok(TokenKind::LParen, s + 1)
    } else if c == ')' {
        Lexed::Tok(TokenKind::RParen, s + 1)
    } else if c == '{' {
        Lexed::Tok(TokenKind::LBrace, s + 1)
    } else if c == '}' {
        Lexed::Tok(TokenKind::RBrace, s + 1)
    } else if c == '[' {
        Lexed::Tok(TokenKind::LBracket, s + 1)
    } else if c == ']' {
        Lexed::Tok(TokenKind::RBracket, s + 1)
    } else if c == ',' {
        Lexed::Tok(TokenKind::Comma, s + 1)
    } else if c == ';' {
        Lexed::Tok(TokenKind::Semi, s + 1)
    } else if c == ':' {
        Lexed::Tok(TokenKind::Colon, s + 1)
    } else if c == '?' {
        Lexed::Tok(TokenKind::Question, s + 1)
    } else if c == '.' {
        Lexed::Tok(TokenKind::Operator(Operator::Dot), s + 1)
    } else if c == '+' {
        if is_char(src, s + 1, '=') {
            Lexed::Tok(TokenKind::OperatorAssign(Operator::Plus), s + 2)
        } else if is_char(src, s + 1, '+') {
            Lexed::Tok(TokenKind::Operator(Operator::PlusPlus), s + 2)
        } else {
            Lexed::Tok(TokenKind::Operator(Operator::Plus), s + 1)
        }
    } else if c == '*' {
        with_assign(src, s, Operator::Mul)
    } else if c == '/' {
        with_assign(src, s, Operator::Div)
    } else if c == '%' {
        with_assign(src, s, Operator::Modulo)
    } else if c == '<' {
        if is_char(src, s + 1, '-') {
            Lexed::Tok(TokenKind::Operator(Operator::Merge), s + 2)
        } else if is_char(src, s + 1, '=') {
            Lexed::Tok(TokenKind::Operator(Operator::LessEq), s + 2)
        } else if is_char(src, s + 1, '<') {
            if is_char(src, s + 2, '=') {
                Lexed::Tok(TokenKind::OperatorAssign(Operator::Lsh), s + 3)
            } else {
                Lexed::Tok(TokenKind::Operator(Operator::Lsh), s + 2)
            }
        } else {
            Lexed::Tok(TokenKind::Operator(Operator::Less), s + 1)
        }
    } else if c == '>' {
        if is_char(src, s + 1, '=') {
            Lexed::Tok(TokenKind::Operator(Operator::GreaterEq), s + 2)
        } else if is_char(src, s + 1, '>') {
            if is_char(src, s + 2, '=') {
                Lexed::Tok(TokenKind::OperatorAssign(Operator::Rsh), s + 3)
            } else if is_char(src, s + 2, '>') {
                if is_char(src, s + 3, '=') {
                    Lexed::Tok(TokenKind::OperatorAssign(Operator::LogicalRsh), s + 4)
                } else {
                    Lexed::Tok(TokenKind::Operator(Operator::LogicalRsh), s + 3)
                }
            } else {
                Lexed::Tok(TokenKind::Operator(Operator::Rsh), s + 2)
            }
        } else {
            Lexed::Tok(TokenKind::Operator(Operator::Greater), s + 1)
        }
    } else if c == '!' {
        if is_char(src, s + 1, '=') {
            Lexed::Tok(TokenKind::Operator(Operator::Neq), s + 2)
        } else {
            Lexed::Tok(TokenKind::Operator(Operator::Not), s + 1)
        }
    } else if c == '=' {
        if is_char(src, s + 1, '=') {
            Lexed::Tok(TokenKind::Operator(Operator::EqEq), s + 2)
        } else {
            Lexed::Tok(TokenKind::Operator(Operator::Assign), s + 1)
        }
    } else if c == '|' {
        if is_char(src, s + 1, '|') {
            Lexed::Tok(TokenKind::Operator(Operator::Or), s + 2)
        } else {
            with_assign(src, s, Operator::BitOr)
        }
    } else if c == '&' {
        if is_char(src, s + 1, '&') {
            Lexed::Tok(TokenKind::Operator(Operator::And), s + 2)
        } else {
            with_assign(src, s, Operator::BitAnd)
        }
    } else if c == '^' {
        with_assign(src, s, Operator::BitXor)
    } else if c == '~' {
        with_assign(src, s, Operator::BitNegate)
    } else if c == '-' {
        if is_char(src, s + 1, '=') {
            Lexed::Tok(TokenKind::OperatorAssign(Operator::Minus), s + 2)
        } else if is_char(src, s + 1, '-') {
            Lexed::Tok(TokenKind::Operator(Operator::MinusMinus), s + 2)
        } else if is_char(src, s + 1, '>') {
            Lexed::Tok(TokenKind::Operator(Operator::Merge), s + 2)
        } else if !(s + 1 < src.len() && is_numeric_char(src[s + 1])) {
            Lexed::Tok(TokenKind::Operator(Operator::Minus), s + 1)
        } else {
            word_lex(src, s + 1, true)
        }
    } else {
        word_lex(src, s, false)
    }
}

// ---------------------------------------------------------------------------
// The token stream
// ---------------------------------------------------------------------------

/// One element of the token stream: a token kind or a lexing error.
pub enum LexItem {
    Tok(TokenKind),
    Fail(TokenErr),
}

pub open spec fn lexed_item(l: Lexed) -> LexItem {
    match l {
        Lexed::Tok(k, _) => LexItem::Tok(k),
        Lexed::Fail(e, _) => LexItem::Fail(e),
    }
}

pub proof fn lemma_scan_word(src: Seq<char>, j: int, is_num: bool, hex: bool, bin: bool)
    requires
        0 <= j <= src.len(),
    ensures
        j <= scan_word(src, j, is_num, hex, bin).0 <= src.len(),
    decreases src.len() - j,
{
    if j < src.len() && lit_part(src[j - 1], src[j], is_num, hex) {
        lemma_scan_word(src, j + 1, is_num, hex || (is_num && src[j] == 'x'), bin || (is_num && src[j] == 'b'));
    }
}

pub proof fn lemma_scan_dots(src: Seq<char>, j: int, is_num: bool)
    requires
        0 <= j <= src.len(),
    ensures
        j <= scan_dots(src, j, is_num) <= src.len(),
    decreases src.len() - j,
{
    if is_num && j < src.len() && src[j] == '.' {
        lemma_scan_dots(src, j + 1, is_num);
    }
}

pub proof fn lemma_scan_rest(src: Seq<char>, j: int, is_num: bool, hex: bool)
    requires
        0 <= j <= src.len(),
    ensures
        j <= scan_rest(src, j, is_num, hex) <= src.len(),
    decreases src.len() - j,
{
    if j < src.len() && lit_part(src[j - 1], src[j], is_num, hex) {
        lemma_scan_rest(src, j + 1, is_num, hex);
    }
}

pub proof fn lemma_word_lex_progress(src: Seq<char>, w: int, neg: bool)
    requires
        0 <= w < src.len(),
    ensures
        w < lexed_end(word_lex(src, w, neg)) <= src.len(),
{
    let c = src[w];
    let is_num = is_numeric_char(c);
    lemma_scan_word(src, w + 1, is_num, false, false);
    let (e1, hex, bin) = scan_word(src, w + 1, is_num, false, false);
    lemma_scan_dots(src, e1, is_num);
    let e2 = scan_dots(src, e1, is_num);
    lemma_scan_rest(src, e2, is_num, hex);
}

pub proof fn lemma_lex_at_progress(src: Seq<char>, s: int)
    requires
        0 <= s < src.len(),
    ensures
        s < lexed_end(lex_at(src, s)) <= src.len(),
{
    lemma_word_lex_progress(src, s, false);
    if s + 1 < src.len() {
        lemma_word_lex_progress(src, s + 1, true);
    }
}

/// The items the source yields from index `i` on, up to its end.
pub open spec fn lex_stream(src: Seq<char>, i: int) -> Seq<LexItem>
    decreases src.len() - i,
{
    if 0 <= i <= src.len() {
        let s = skip_trivia(src, i);
        if s >= src.len() {
            seq![]
        } else {
            proof {
                lemma_skip_trivia(src, i);
                lemma_lex_at_progress(src, s);
            }
            seq![lexed_item(lex_at(src, s))] + lex_stream(src, lexed_end(lex_at(src, s)))
        }
    } else {
        seq![]
    }
}

pub proof fn lemma_scan_word_flags(src: Seq<char>, j: int, is_num: bool, hex: bool, bin: bool)
    requires
        0 <= j <= src.len(),
    ensures
        ({
            let (e, h, b) = scan_word(src, j, is_num, hex, bin);
            &&& (h && !hex) ==> exists|k: int| j <= k < e && #[trigger] src[k] == 'x'
            &&& (b && !bin) ==> exists|k: int| j <= k < e && #[trigger] src[k] == 'b'
            &&& (h || b) ==> (hex || bin || e > j)
        }),
    decreases src.len() - j,
{
    if j < src.len() && lit_part(src[j - 1], src[j], is_num, hex) {
        let h2 = hex || (is_num && src[j] == 'x');
        let b2 = bin || (is_num && src[j] == 'b');
        lemma_scan_word_flags(src, j + 1, is_num, h2, b2);
        lemma_scan_word(src, j + 1, is_num, h2, b2);
        let (e, h, b) = scan_word(src, j + 1, is_num, h2, b2);
        if h && !hex {
            if !h2 {
                let k = choose|k: int| j + 1 <= k < e && #[trigger] src[k] == 'x';
                assert(j <= k < e && src[k] == 'x');
            } else {
                assert(src[j] == 'x');
            }
        }
        if b && !bin {
            if !b2 {
                let k = choose|k: int| j + 1 <= k < e && #[trigger] src[k] == 'b';
                assert(j <= k < e && src[k] == 'b');
            } else {
                assert(src[j] == 'b');
            }
        }
    }
}

/// A hexadecimal or binary number never reads as a negative integer: a sign
/// inside a number follows an exponent mark, so a sign where the digits start
/// leaves the radix marker among the digits.
pub proof fn lemma_signed_radix_nonneg(src: Seq<char>, w: int, e1: int, e3: int, hex: bool, bin: bool)
    requires
        0 <= w,
        w + 2 <= e1 <= e3 <= src.len(),
        forall|k: int| w + 1 <= k < e3 && #[trigger] src[k] == '-' ==> src[k - 1] == 'e' || src[k - 1] == 'E',
        hex ==> exists|k: int| w + 1 <= k < e1 && #[trigger] src[k] == 'x',
        !hex && bin ==> exists|k: int| w + 1 <= k < e1 && #[trigger] src[k] == 'b',
        hex || bin,
    ensures
        signed_value(src.subrange(w, e3), hex, bin) matches Ok(v) ==> v >= 0,
{
    let buf = src.subrange(w, e3);
    let radix: nat = if hex { 16 } else { 2 };
    if let Some(st) = radix_start(buf) {
        let d = buf.subrange(st, buf.len() as int);
        lemma_parse_int_in_range(d, radix, i32::MIN as int, i32::MAX as int);
        lemma_parse_int_digits(d, radix, i32::MIN as int, i32::MAX as int);
        if d.len() > 0 && d[0] == '-' && parse_int_spec(d, radix, i32::MIN as int, i32::MAX as int) is Ok {
            assert(src[w + st] == '-');
            assert(src[w + st - 1] == 'e' || src[w + st - 1] == 'E');
            assert(st == 2);
            let m: char = if hex { 'x' } else { 'b' };
            let k = choose|k: int| w + 1 <= k < e1 && #[trigger] src[k] == m;
            assert(k >= w + 3);
            assert(d[k - (w + 2)] == m);
            assert(digit_value(d[k - (w + 2)], radix) is Some);
            assert(false);
        }
    }
}

} // verus!
