//! Turns source characters into tokens, one at a time, with look-ahead.
use vstd::prelude::*;
use crate::text::{string_from_chars, chars_eq};
use crate::token::{Keyword, Literal, Operator, TokCtx, Token, TokenKind, TokenType, keyword_of};
use crate::token::chars::{char_is_numeric, char_is_alphanumeric, char_is_whitespace, to_ascii_lowercase, is_numeric_char, is_whitespace_char, ascii_lower};
use crate::token::history::{History, window_push};
use crate::token::lexicon::{TokenErr, char_at, is_char, Cur, sat, step, advance, lemma_advance_idx, lemma_advance_compose, line_comment_end, block_comment_end, lemma_line_comment_end, lemma_block_comment_end, comment_at, skip_trivia, lemma_skip_trivia, lit_part, scan_word, scan_dots, scan_rest, has3, Lexed, lexed_end, false_text, true_text, word_lex, lex_at, LexItem, lexed_item, lex_stream, lemma_scan_word, lemma_scan_dots, lemma_scan_rest, lemma_lex_at_progress, lemma_word_lex_progress, lemma_scan_word_flags, lemma_signed_radix_nonneg, with_assign, word_value, signed_value, has_exponent, radix_start};
use crate::token::stream::{TState, st_next, st_peek, st_tail, st_measure, item_of};
use crate::token::numbers::{IntErrorKind, parse_i32, parse_u32, parse_int_spec, float_syntax_ok, float_text_ok, lemma_parse_int_in_range};

verus! {

/// How many source characters an error can show before the offending token.
pub const HIST_CAP: usize = 60;
/// How many characters an error shows after the offending token.
pub const TAIL_CAP: usize = 10;

/// Reads tokens from a source text, keeping track of line, column and the
/// recently read characters, and buffering tokens that were looked ahead at.
pub struct Tokenizer {
    pub src: Vec<char>,
    pub idx: usize,
    pub file: Option<String>,
    pub line: u32,
    pub pos: u32,
    pub buffer: Vec<Token>,
    pub history: History,
    pub start_pos: u32,
}

/// What the stream holds for a buffered token.
pub open spec fn token_item(t: Token) -> LexItem {
    LexItem::Tok(t.ty@)
}

/// The first `k` items of a stream (as far as it goes) are tokens.
pub open spec fn all_tokens(u: Seq<LexItem>, k: int) -> bool {
    forall|j: int| 0 <= j < k && j < u.len() ==> #[trigger] u[j] is Tok
}

impl Tokenizer {
    /// The source text.
    pub closed spec fn source(&self) -> Seq<char> {
        self.src@
    }

    /// Index of the next unread source character.
    pub closed spec fn index(&self) -> int {
        self.idx as int
    }

    /// Tokens read ahead and not yet handed out.
    pub closed spec fn buffered(&self) -> Seq<Token> {
        self.buffer@
    }

    /// Capacity of the history window.
    pub closed spec fn cap(&self) -> nat {
        self.history.capacity()
    }

    /// The reading position.
    pub closed spec fn cur(&self) -> Cur {
        Cur { idx: self.index(), line: self.line as int, pos: self.pos as int, win: self.history.window() }
    }

    pub closed spec fn wf(&self) -> bool {
        &&& self.idx <= self.src@.len()
        &&& self.history.wf()
        &&& self.history.capacity() > 0
    }

    /// Everything the tokenizer will still hand out: buffered tokens first,
    /// then what the unread source yields.
    pub closed spec fn upcoming(&self) -> Seq<LexItem> {
        self.buffered().map_values(|t: Token| token_item(t)) + lex_stream(self.source(), self.index())
    }

    /// A quantity that reading a token makes smaller.
    pub closed spec fn measure(&self) -> nat {
        ((self.source().len() - self.index()) + self.buffered().len()) as nat
    }

    /// The state of the token stream.
    pub closed spec fn tstate(&self) -> TState {
        TState { buf: self.buffered().map_values(|t: Token| t.ty@), idx: self.index() }
    }

    /// What is left to read, in terms of the stream state.
    pub proof fn lemma_measure(&self)
        requires
            self.wf(),
        ensures
            self.measure() == st_measure(self.source(), self.tstate()),
            0 <= self.tstate().idx <= self.source().len(),
    {
    }

    /// Same text, buffer and file.
    pub closed spec fn same_input(&self, other: &Self) -> bool {
        &&& self.source() == other.source()
        &&& self.buffered() == other.buffered()
        &&& self.file == other.file
        &&& self.cap() == other.cap()
    }

    /// A tokenizer over the characters of `source`, with no file name.
    pub fn from_str(source: String) -> (r: Self)
        ensures
            r.wf(),
            r.source() == source@,
            r.tstate() == (TState { buf: seq![], idx: 0 }),
            r.upcoming() == lex_stream(source@, 0),
            r.index() == 0,
            r.buffered().len() == 0,
            r.file.is_none(),
            r.line == 1,
            r.pos == 0,
            r.history.window().len() == 0,
            r.cap() == HIST_CAP,
    {
        let chars = crate::text::string_chars(&source);
        Self::new(chars, None)
    }

    /// A tokenizer over `source`, reporting `file` as the origin.
    pub fn new(source: Vec<char>, file: Option<String>) -> (r: Self)
        ensures
            r.wf(),
            r.source() == source@,
            r.tstate() == (TState { buf: seq![], idx: 0 }),
            r.upcoming() == lex_stream(source@, 0),
            r.index() == 0,
            r.buffered().len() == 0,
            r.file == file,
            r.line == 1,
            r.pos == 0,
            r.start_pos == 0,
            r.history.window().len() == 0,
            r.cap() == HIST_CAP,
    {
        let r = Self {
            src: source,
            idx: 0,
            file,
            line: 1,
            pos: 0,
            buffer: Vec::new(),
            history: History::new(HIST_CAP),
            start_pos: 0,
        };
        assert(r.buffered().map_values(|t: Token| t.ty@) =~= seq![]);
        assert(r.buffered().map_values(|t: Token| token_item(t)) =~= seq![]);
        assert(r.upcoming() =~= lex_stream(r.source(), 0));
        r
    }

    /// The next unread character.
    fn peek(&self) -> (r: Option<char>)
        requires
            self.wf(),
        ensures
            r == char_at(self.source(), self.index()),
    {
        self.peek_n(0)
    }

    /// The unread character `num` places ahead.
    fn peek_n(&self, num: usize) -> (r: Option<char>)
        requires
            self.wf(),
        ensures
            r == char_at(self.source(), self.index() + num),
    {
        if num < self.src.len() - self.idx {
            Some(self.src[self.idx + num])
        } else {
            None
        }
    }

    /// Reads one character, updating line, column and history.
    fn inc(&mut self) -> (r: Option<char>)
        requires
            old(self).wf(),
        ensures
            final(self).wf(),
            final(self).same_input(old(self)),
            final(self).start_pos == old(self).start_pos,
            old(self).index() < old(self).source().len() ==> r == Some(old(self).source()[old(self).index()])
                && final(self).cur() == step(old(self).cur(), old(self).source()[old(self).index()], old(self).cap()),
            old(self).index() >= old(self).source().len() ==> r.is_none() && final(self).cur() == (Cur {
                pos: sat(old(self).pos + 1),
                ..old(self).cur()
            }),
    {
        if self.pos < u32::MAX {
            self.pos = self.pos + 1;
        }
        if self.idx >= self.src.len() {
            return None;
        }
        let n = self.src[self.idx];
        self.idx = self.idx + 1;
        if n == '\n' {
            if self.line < u32::MAX {
                self.line = self.line + 1;
            }
            self.pos = 0;
        }
        self.history.push(n);
        Some(n)
    }

    /// Reads the next character if it is `c`.
    fn take_if(&mut self, c: char) -> (r: bool)
        requires
            old(self).wf(),
        ensures
            final(self).wf(),
            final(self).same_input(old(self)),
            final(self).start_pos == old(self).start_pos,
            r == is_char(old(self).source(), old(self).index(), c),
            r ==> final(self).cur() == step(old(self).cur(), c, old(self).cap()),
            !r ==> final(self).cur() == old(self).cur(),
    {
        if self.peek() == Some(c) {
            self.inc();
            true
        } else {
            false
        }
    }

    /// Whether the next three characters are `arr`; if so, reads them.
    fn peequal(&mut self, arr: [char; 3]) -> (r: bool)
        requires
            old(self).wf(),
        ensures
            final(self).wf(),
            final(self).same_input(old(self)),
            final(self).start_pos == old(self).start_pos,
            r == has3(old(self).source(), old(self).index(), arr[0], arr[1], arr[2]),
            r ==> final(self).cur() == advance(old(self).source(), old(self).cur(), old(self).index() + 3, old(self).cap()),
            !r ==> final(self).cur() == old(self).cur(),
    {
        let mut i: usize = 0;
        while i < 3
            invariant
                self.wf(),
                i <= 3,
                forall|j: int| 0 <= j < i ==> char_at(self.source(), self.index() + j) == Some(arr[j]),
            decreases 3 - i,
        {
            if self.peek_n(i) != Some(arr[i]) {
                return false;
            }
            i += 1;
        }
        let ghost c0 = self.cur();
        let ghost s = self.source();
        let ghost cap = self.cap();
        self.inc();
        self.inc();
        self.inc();
        proof {
            assert(advance(s, c0, c0.idx, cap) == c0);
            assert(advance(s, c0, c0.idx + 1, cap) == step(c0, s[c0.idx], cap));
            assert(advance(s, c0, c0.idx + 2, cap) == step(advance(s, c0, c0.idx + 1, cap), s[c0.idx + 1], cap));
        }
        true
    }

    /// Reads whitespace; tells whether there was any.
    fn skip_whitespace(&mut self) -> (r: bool)
        requires
            old(self).wf(),
        ensures
            final(self).wf(),
            final(self).same_input(old(self)),
            final(self).start_pos == old(self).start_pos,
            old(self).index() <= final(self).index(),
            r == (final(self).index() > old(self).index()),
            final(self).cur() == advance(old(self).source(), old(self).cur(), final(self).index(), old(self).cap()),
            skip_trivia(final(self).source(), final(self).index()) == skip_trivia(old(self).source(), old(self).index()),
            final(self).index() < final(self).source().len() ==> !is_whitespace_char(final(self).source()[final(self).index()]),
    {
        let ghost c0 = self.cur();
        let ghost i0 = self.index();
        let mut f = false;
        loop
            invariant
                self.wf(),
                self.same_input(old(self)),
                self.start_pos == old(self).start_pos,
                c0 == old(self).cur(),
                i0 == old(self).index(),
                i0 <= self.index(),
                f == (self.index() > i0),
                self.cur() == advance(self.source(), c0, self.index(), self.cap()),
                skip_trivia(self.source(), self.index()) == skip_trivia(self.source(), i0),
            ensures
                self.index() < self.source().len() ==> !is_whitespace_char(self.source()[self.index()]),
            decreases self.source().len() - self.index(),
        {
            match self.peek() {
                Some(c) => {
                    if char_is_whitespace(c) {
                        self.inc();
                        f = true;
                    } else {
                        break;
                    }
                },
                None => {
                    break;
                },
            }
        }
        f
    }

    /// Reads one comment if one starts here; tells whether it did.
    fn skip_comments(&mut self) -> (r: bool)
        requires
            old(self).wf(),
            old(self).index() < old(self).source().len() ==> !is_whitespace_char(old(self).source()[old(self).index()]),
        ensures
            final(self).wf(),
            final(self).same_input(old(self)),
            final(self).start_pos == old(self).start_pos,
            r == comment_at(old(self).source(), old(self).index()),
            r ==> final(self).index() > old(self).index(),
            !r ==> final(self).cur() == old(self).cur(),
            final(self).cur() == advance(old(self).source(), old(self).cur(), final(self).index(), old(self).cap()),
            skip_trivia(final(self).source(), final(self).index()) == skip_trivia(old(self).source(), old(self).index()),
    {
        let ghost c0 = self.cur();
        let ghost s = self.source();
        let ghost cap = self.cap();
        let ghost i0 = self.index();
        let c = self.peek_n(0);
        let n = self.peek_n(1);
        if c == Some('/') && n == Some('/') {
            self.inc();
            self.inc();
            proof {
                assert(advance(s, c0, i0, cap) == c0);
                assert(advance(s, c0, i0 + 1, cap) == step(c0, s[i0], cap));
            }
            loop
                invariant_except_break
                    line_comment_end(s, self.index()) == line_comment_end(s, i0 + 2),
                invariant
                    self.wf(),
                    self.same_input(old(self)),
                    self.start_pos == old(self).start_pos,
                    s == self.source(),
                    cap == self.cap(),
                    c0 == old(self).cur(),
                    i0 == old(self).index(),
                    i0 + 2 <= self.index() <= s.len(),
                    self.cur() == advance(s, c0, self.index(), cap),
                ensures
                    self.index() == line_comment_end(s, i0 + 2),
                    self.cur() == advance(s, c0, self.index(), cap),
                decreases s.len() - self.index(),
            {
                match self.peek() {
                    Some(nl) => {
                        self.inc();
                        if nl == '\n' {
                            break;
                        }
                    },
                    None => {
                        break;
                    },
                }
            }
            proof {
                lemma_line_comment_end(s, i0 + 2);
            }
            true
        } else if c == Some('/') && n == Some('*') {
            self.inc();
            self.inc();
            proof {
                assert(advance(s, c0, i0, cap) == c0);
                assert(advance(s, c0, i0 + 1, cap) == step(c0, s[i0], cap));
            }
            loop
                invariant_except_break
                    block_comment_end(s, self.index()) == block_comment_end(s, i0 + 2),
                invariant
                    self.wf(),
                    self.same_input(old(self)),
                    self.start_pos == old(self).start_pos,
                    s == self.source(),
                    cap == self.cap(),
                    c0 == old(self).cur(),
                    i0 == old(self).index(),
                    i0 + 2 <= self.index() <= s.len(),
                    self.cur() == advance(s, c0, self.index(), cap),
                ensures
                    self.index() == block_comment_end(s, i0 + 2),
                    self.cur() == advance(s, c0, self.index(), cap),
                decreases s.len() - self.index(),
            {
                match self.peek_n(0) {
                    Some(ch) => {
                        if ch == '*' && self.peek_n(1) == Some('/') {
                            let ghost i1 = self.index();
                            self.inc();
                            self.inc();
                            proof {
                                assert(advance(s, c0, i1 + 1, cap) == step(advance(s, c0, i1, cap), s[i1], cap));
                            }
                            break;
                        }
                        self.inc();
                    },
                    None => {
                        break;
                    },
                }
            }
            proof {
                lemma_block_comment_end(s, i0 + 2);
            }
            true
        } else {
            false
        }
    }

    /// Whether `n`, read after `prev`, continues the current word.
    fn is_lit_part(prev: char, n: char, is_num: bool, is_hex: bool) -> (r: bool)
        ensures
            r == lit_part(prev, n, is_num, is_hex),
            r && n == '-' ==> prev == 'e' || prev == 'E',
    {
        if is_num {
            n == 'e' || n == 'E' || n == 'b' || n == 'x' || ((n == '-' || n == '+') && !is_hex && (prev == 'e' || prev
                == 'E')) || if is_hex {
                char_is_alphanumeric(n) && n != 'u' && n != 'U'
            } else {
                char_is_numeric(n)
            }
        } else {
            n == '_' || n == '$' || n == 'e' || char_is_alphanumeric(n)
        }
    }

    /// Whether `buf` holds an exponent mark.
    fn chars_have_exponent(buf: &Vec<char>) -> (r: bool)
        ensures
            r == has_exponent(buf@),
    {
        let mut i: usize = 0;
        while i < buf.len()
            invariant
                i <= buf@.len(),
                forall|k: int| 0 <= k < i ==> !(#[trigger] buf@[k] == 'e' || buf@[k] == 'E'),
            decreases buf@.len() - i,
        {
            if buf[i] == 'e' || buf[i] == 'E' {
                return true;
            }
            i += 1;
        }
        false
    }

    /// Where the digits of a hexadecimal or binary word start, if its
    /// two-byte prefix ends on a character boundary.
    fn radix_start_of(buf: &Vec<char>) -> (r: Option<usize>)
        ensures
            match radix_start(buf@) {
                Some(st) => r == Some(st as usize),
                None => r.is_none(),
            },
    {
        if buf.len() >= 2 && (buf[0] as u32) < 0x80 && (buf[1] as u32) < 0x80 {
            Some(2)
        } else if buf.len() >= 1 && 0x80 <= (buf[0] as u32) && (buf[0] as u32) < 0x800 {
            Some(1)
        } else {
            None
        }
    }

    /// Copies `src[from..to]`.
    fn source_slice(&self, from: usize, to: usize) -> (r: Vec<char>)
        requires
            from <= to <= self.src@.len(),
        ensures
            r@ == self.src@.subrange(from as int, to as int),
    {
        let mut v: Vec<char> = Vec::new();
        let mut i = from;
        while i < to
            invariant
                from <= i <= to,
                to <= self.src@.len(),
                v@ == self.src@.subrange(from as int, i as int),
            decreases to - i,
        {
            v.push(self.src[i]);
            i += 1;
            assert(v@ =~= self.src@.subrange(from as int, i as int));
        }
        v
    }

    #[verifier::rlimit(40)]
    /// Reads the rest of a word whose first character `c` was just read;
    /// `neg` when a `-` came right before it.
    fn lex_word(&mut self, c: char, neg: bool) -> (r: Result<TokenType, TokenErr>)
        requires
            old(self).wf(),
            1 <= old(self).index() <= old(self).source().len(),
            c == old(self).source()[old(self).index() - 1],
            neg ==> old(self).index() >= 2 && old(self).source()[old(self).index() - 2] == '-' && is_numeric_char(c),
        ensures
            final(self).wf(),
            final(self).same_input(old(self)),
            final(self).start_pos == old(self).start_pos,
            final(self).index() == lexed_end(word_lex(old(self).source(), old(self).index() - 1, neg)),
            final(self).cur() == advance(old(self).source(), old(self).cur(), final(self).index(), old(self).cap()),
            match word_lex(old(self).source(), old(self).index() - 1, neg) {
                Lexed::Tok(k, _) => r matches Ok(t) && t@ == k,
                Lexed::Fail(e, _) => r == Err::<TokenType, TokenErr>(e),
            },
    {
        let ghost src = self.source();
        let ghost cap = self.cap();
        let ghost c0 = self.cur();
        let w = self.idx - 1;
        let is_num = char_is_numeric(c);
        let mut is_hex = false;
        let mut is_bin = false;
        proof {
            lemma_scan_word(src, w + 1, is_num, false, false);
            lemma_scan_word_flags(src, w + 1, is_num, false, false);
        }
        let ghost s1 = scan_word(src, w + 1, is_num, false, false);
        loop
            invariant
                self.wf(),
                self.same_input(old(self)),
                self.start_pos == old(self).start_pos,
                src == self.source(),
                cap == self.cap(),
                c0 == old(self).cur(),
                c0.idx == w + 1,
                w + 1 <= self.index() <= src.len(),
                self.cur() == advance(src, c0, self.index(), cap),
                scan_word(src, self.index(), is_num, is_hex, is_bin) == s1,
                (is_hex || is_bin) ==> self.index() >= w + 2,
                is_hex ==> exists|k: int| w + 1 <= k < self.index() && #[trigger] src[k] == 'x',
                is_bin ==> exists|k: int| w + 1 <= k < self.index() && #[trigger] src[k] == 'b',
                forall|k: int| w + 1 <= k < self.index() && #[trigger] src[k] == '-' ==> src[k - 1] == 'e' || src[k - 1] == 'E',
            ensures
                self.index() == s1.0,
                is_hex == s1.1,
                is_bin == s1.2,
            decreases src.len() - self.index(),
        {
            match self.peek() {
                Some(c2) => {
                    let prev = self.src[self.idx - 1];
                    if Self::is_lit_part(prev, c2, is_num, is_hex) {
                        let ghost i1 = self.index();
                        if is_num && c2 == 'x' {
                            is_hex = true;
                        }
                        if is_num && c2 == 'b' {
                            is_bin = true;
                        }
                        self.inc();
                        proof {
                            assert(src[i1] == c2);
                            assert(src[i1 - 1] == prev);
                        }
                    } else {
                        break;
                    }
                },
                None => {
                    break;
                },
            }
        }
        let e1 = self.idx;
        let mut is_float = false;
        proof {
            lemma_scan_dots(src, e1 as int, is_num);
        }
        loop
            invariant
                self.wf(),
                self.same_input(old(self)),
                self.start_pos == old(self).start_pos,
                src == self.source(),
                cap == self.cap(),
                c0 == old(self).cur(),
                e1 <= self.index() <= src.len(),
                self.cur() == advance(src, c0, self.index(), cap),
                scan_dots(src, self.index(), is_num) == scan_dots(src, e1 as int, is_num),
                is_float == (self.index() > e1),
                w + 1 <= e1,
                forall|k: int| w + 1 <= k < self.index() && #[trigger] src[k] == '-' ==> src[k - 1] == 'e' || src[k - 1] == 'E',
            ensures
                self.index() == scan_dots(src, e1 as int, is_num),
            decreases src.len() - self.index(),
        {
            if is_num && self.peek() == Some('.') {
                let ghost i1 = self.index();
                self.inc();
                proof {
                    assert(src[i1] == '.');
                }
                is_float = true;
            } else {
                break;
            }
        }
        let e2 = self.idx;
        proof {
            lemma_scan_rest(src, e2 as int, is_num, is_hex);
        }
        loop
            invariant
                self.wf(),
                self.same_input(old(self)),
                self.start_pos == old(self).start_pos,
                src == self.source(),
                cap == self.cap(),
                c0 == old(self).cur(),
                e2 <= self.index() <= src.len(),
                self.cur() == advance(src, c0, self.index(), cap),
                scan_rest(src, self.index(), is_num, is_hex) == scan_rest(src, e2 as int, is_num, is_hex),
                w + 1 <= e2,
                forall|k: int| w + 1 <= k < self.index() && #[trigger] src[k] == '-' ==> src[k - 1] == 'e' || src[k - 1] == 'E',
            ensures
                self.index() == scan_rest(src, e2 as int, is_num, is_hex),
            decreases src.len() - self.index(),
        {
            match self.peek() {
                Some(c2) => {
                    let prev = self.src[self.idx - 1];
                    if Self::is_lit_part(prev, c2, is_num, is_hex) {
                        let ghost i1 = self.index();
                        self.inc();
                        proof {
                            assert(src[i1] == c2);
                            assert(src[i1 - 1] == prev);
                        }
                    } else {
                        break;
                    }
                },
                None => {
                    break;
                },
            }
        }
        let e3 = self.idx;
        let buf = self.source_slice(w, e3);
        let is_uint = match self.peek() {
            Some(ch) => to_ascii_lowercase(ch) == 'u',
            None => false,
        };
        if is_uint {
            self.inc();
        }
        let ghost c4 = self.cur();
        let is_f64 = self.peequal(['f', '6', '4']);
        proof {
            if is_f64 {
                lemma_advance_idx(src, c4, c4.idx + 3, cap);
            }
        }
        let ghost c5 = self.cur();
        let f32_suffix = self.peequal(['f', '3', '2']);
        proof {
            if f32_suffix {
                lemma_advance_idx(src, c5, c5.idx + 3, cap);
            }
            lemma_advance_compose(src, c0, c4.idx, c5.idx, cap);
            lemma_advance_compose(src, c0, c5.idx, self.index(), cap);
        }
        let exponent = is_num && !is_hex && !is_bin && Self::chars_have_exponent(&buf);
        is_float = is_float || f32_suffix || exponent;
        proof {
            lemma_parse_int_in_range(buf@, 10, i32::MIN as int, i32::MAX as int);
            if is_num && neg && (is_hex || is_bin) {
                lemma_signed_radix_nonneg(src, w as int, e1 as int, e3 as int, is_hex, is_bin);
            }
        }
        Self::word_token(buf, is_num, is_hex, is_bin, is_float, is_uint, is_f64, neg)
    }

    /// The token a word's text makes, given how it was read.
    fn word_token(
        buf: Vec<char>,
        is_num: bool,
        is_hex: bool,
        is_bin: bool,
        is_float: bool,
        is_uint: bool,
        is_f64: bool,
        neg: bool,
    ) -> (r: Result<TokenType, TokenErr>)
        requires
            (is_hex || is_bin) ==> buf@.len() >= 2,
            buf@.len() >= 1,
            is_num && neg && !is_float && !is_f64 && !is_uint ==> (signed_value(buf@, is_hex, is_bin) matches Ok(v)
                ==> v >= 0),
        ensures
            match word_value(buf@, is_num, is_hex, is_bin, is_float, is_uint, is_f64, neg) {
                Ok(k) => r matches Ok(t) && t@ == k,
                Err(e) => r == Err::<TokenType, TokenErr>(e),
            },
    {
        if is_num {
            if is_float || is_f64 {
                if float_syntax_ok(&buf) {
                    let text = if neg {
                        let mut t: Vec<char> = Vec::new();
                        t.push('-');
                        crate::text::extend_chars(&mut t, &buf);
                        t
                    } else {
                        buf
                    };
                    let st = string_from_chars(&text);
                    if is_f64 {
                        Ok(TokenType::Literal(Literal::DoubleLit(st)))
                    } else {
                        Ok(TokenType::Literal(Literal::FloatLit(st)))
                    }
                } else {
                    Err(TokenErr::FloatError)
                }
            } else if is_uint {
                let res = if is_hex || is_bin {
                    match Self::radix_start_of(&buf) {
                        Some(st) => parse_u32(&buf, st, if is_hex { 16 } else { 2 }),
                        None => Err(IntErrorKind::InvalidDigit),
                    }
                } else {
                    parse_u32(&buf, 0, 10)
                };
                proof {
                    assert(buf@.subrange(0, buf@.len() as int) =~= buf@);
                }
                match res {
                    Ok(f) => if neg {
                        Err(TokenErr::NegativeUInt(f))
                    } else {
                        Ok(TokenType::Literal(Literal::UIntLit(f)))
                    },
                    Err(e) => Err(TokenErr::IntError(e)),
                }
            } else {
                let res = if is_hex || is_bin {
                    match Self::radix_start_of(&buf) {
                        Some(st) => {
                            proof {
                                lemma_parse_int_in_range(
                                    buf@.subrange(st as int, buf@.len() as int),
                                    if is_hex { 16 } else { 2 },
                                    i32::MIN as int,
                                    i32::MAX as int,
                                );
                            }
                            parse_i32(&buf, st, if is_hex { 16 } else { 2 })
                        },
                        None => Err(IntErrorKind::InvalidDigit),
                    }
                } else {
                    proof {
                        lemma_parse_int_in_range(buf@, 10, i32::MIN as int, i32::MAX as int);
                    }
                    parse_i32(&buf, 0, 10)
                };
                proof {
                    assert(buf@.subrange(0, buf@.len() as int) =~= buf@);
                }
                match res {
                    Ok(f) => {
                        let v = if neg { -f } else { f };
                        Ok(TokenType::Literal(Literal::IntLit(v)))
                    },
                    Err(e) => Err(TokenErr::IntError(e)),
                }
            }
        } else {
            Self::name_token(buf)
        }
    }

    /// The token a name makes: a keyword, a boolean literal or an identifier.
    fn name_token(buf: Vec<char>) -> (r: Result<TokenType, TokenErr>)
        ensures
            match word_value(buf@, false, false, false, false, false, false, false) {
                Ok(k) => r matches Ok(t) && t@ == k,
                Err(e) => r == Err::<TokenType, TokenErr>(e),
            },
    {
        match Keyword::from_chars(&buf) {
            Some(kw) => Ok(TokenType::Keyword(kw)),
            None => {
                let f = vec!['f', 'a', 'l', 's', 'e'];
                let t = vec!['t', 'r', 'u', 'e'];
                assert(f@ =~= false_text());
                assert(t@ =~= true_text());
                if chars_eq(&buf, &f) {
                    Ok(TokenType::Literal(Literal::BoolLit(false)))
                } else if chars_eq(&buf, &t) {
                    Ok(TokenType::Literal(Literal::BoolLit(true)))
                } else {
                    Ok(TokenType::Ident(string_from_chars(&buf)))
                }
            },
        }
    }

    /// A one-character operator, or its compound assignment when `=` follows.
    fn op_or_assign(&mut self, op: Operator) -> (r: TokenType)
        requires
            old(self).wf(),
            old(self).index() >= 1,
        ensures
            final(self).wf(),
            final(self).same_input(old(self)),
            final(self).start_pos == old(self).start_pos,
            with_assign(old(self).source(), old(self).index() - 1, op) matches Lexed::Tok(k, e) && r@ == k
                && final(self).index() == e,
            final(self).cur() == advance(old(self).source(), old(self).cur(), final(self).index(), old(self).cap()),
    {
        let ghost c0 = self.cur();
        if self.take_if('=') {
            proof {
                assert(advance(self.source(), c0, c0.idx, self.cap()) == c0);
            }
            TokenType::OperatorAssign(op)
        } else {
            TokenType::Operator(op)
        }
    }

    /// Reads the rest of the token whose first character `c` was just read.
    #[verifier::rlimit(60)]
    fn lex_token(&mut self, c: char) -> (r: Result<TokenType, TokenErr>)
        requires
            old(self).wf(),
            1 <= old(self).index() <= old(self).source().len(),
            c == old(self).source()[old(self).index() - 1],
        ensures
            final(self).wf(),
            final(self).same_input(old(self)),
            final(self).start_pos == old(self).start_pos,
            final(self).index() == lexed_end(lex_at(old(self).source(), old(self).index() - 1)),
            final(self).cur() == advance(old(self).source(), old(self).cur(), final(self).index(), old(self).cap()),
            match lex_at(old(self).source(), old(self).index() - 1) {
                Lexed::Tok(k, _) => r matches Ok(t) && t@ == k,
                Lexed::Fail(e, _) => r == Err::<TokenType, TokenErr>(e),
            },
    {
        let ghost src = self.source();
        let ghost cap = self.cap();
        let ghost c0 = self.cur();
        proof {
            reveal_with_fuel(advance, 5);
            assert(advance(src, c0, c0.idx, cap) == c0);
        }
        if c == '(' {
            Ok(TokenType::LParen)
        } else if c == ')' {
            Ok(TokenType::RParen)
        } else if c == '{' {
            Ok(TokenType::LBrace)
        } else if c == '}' {
            Ok(TokenType::RBrace)
        } else if c == '[' {
            Ok(TokenType::LBracket)
        } else if c == ']' {
            Ok(TokenType::RBracket)
        } else if c == ',' {
            Ok(TokenType::Comma)
        } else if c == ';' {
            Ok(TokenType::Semi)
        } else if c == ':' {
            Ok(TokenType::Colon)
        } else if c == '?' {
            Ok(TokenType::Question)
        } else if c == '.' {
            Ok(TokenType::Operator(Operator::Dot))
        } else if c == '+' {
            if self.take_if('=') {
                Ok(TokenType::OperatorAssign(Operator::Plus))
            } else if self.take_if('+') {
                Ok(TokenType::Operator(Operator::PlusPlus))
            } else {
                Ok(TokenType::Operator(Operator::Plus))
            }
        } else if c == '*' {
            Ok(self.op_or_assign(Operator::Mul))
        } else if c == '/' {
            Ok(self.op_or_assign(Operator::Div))
        } else if c == '%' {
            Ok(self.op_or_assign(Operator::Modulo))
        } else if c == '<' {
            if self.take_if('-') {
                Ok(TokenType::Operator(Operator::Merge))
            } else if self.take_if('=') {
                Ok(TokenType::Operator(Operator::LessEq))
            } else if self.take_if('<') {
                let ghost c1 = self.cur();
                if self.take_if('=') {
                    Ok(TokenType::OperatorAssign(Operator::Lsh))
                } else {
                    Ok(TokenType::Operator(Operator::Lsh))
                }
            } else {
                Ok(TokenType::Operator(Operator::Less))
            }
        } else if c == '>' {
            if self.take_if('=') {
                Ok(TokenType::Operator(Operator::GreaterEq))
            } else if self.take_if('>') {
                if self.take_if('=') {
                    Ok(TokenType::OperatorAssign(Operator::Rsh))
                } else if self.take_if('>') {
                    if self.take_if('=') {
                        Ok(TokenType::OperatorAssign(Operator::LogicalRsh))
                    } else {
                        Ok(TokenType::Operator(Operator::LogicalRsh))
                    }
                } else {
                    Ok(TokenType::Operator(Operator::Rsh))
                }
            } else {
                Ok(TokenType::Operator(Operator::Greater))
            }
        } else if c == '!' {
            if self.take_if('=') {
                Ok(TokenType::Operator(Operator::Neq))
            } else {
                Ok(TokenType::Operator(Operator::Not))
            }
        } else if c == '=' {
            if self.take_if('=') {
                Ok(TokenType::Operator(Operator::EqEq))
            } else {
                Ok(TokenType::Operator(Operator::Assign))
            }
        } else if c == '|' {
            if self.take_if('|') {
                Ok(TokenType::Operator(Operator::Or))
            } else {
                Ok(self.op_or_assign(Operator::BitOr))
            }
        } else if c == '&' {
            if self.take_if('&') {
                Ok(TokenType::Operator(Operator::And))
            } else {
                Ok(self.op_or_assign(Operator::BitAnd))
            }
        } else if c == '^' {
            Ok(self.op_or_assign(Operator::BitXor))
        } else if c == '~' {
            Ok(self.op_or_assign(Operator::BitNegate))
        } else if c == '-' {
            if self.take_if('=') {
                Ok(TokenType::OperatorAssign(Operator::Minus))
            } else if self.take_if('-') {
                Ok(TokenType::Operator(Operator::MinusMinus))
            } else if self.take_if('>') {
                Ok(TokenType::Operator(Operator::Merge))
            } else {
                let next_is_num = match self.peek() {
                    Some(n) => char_is_numeric(n),
                    None => false,
                };
                if !next_is_num {
                    Ok(TokenType::Operator(Operator::Minus))
                } else {
                    let d = self.inc().unwrap();
                    let ghost c1 = self.cur();
                    let r = self.lex_word(d, true);
                    proof {
                        lemma_word_lex_progress(src, c0.idx, true);
                        lemma_advance_compose(src, c0, c1.idx, self.index(), cap);
                    }
                    r
                }
            }
        } else {
            self.lex_word(c, false)
        }
    }

    /// The position of the last token read, as its context.
    pub fn create_context(&self) -> (r: TokCtx)
        ensures
            r.line == self.line,
            r.start_pos == self.start_pos,
            r.end_pos == self.pos,
            r.file == self.file,
            r.history.window() == self.history.window(),
            r.history.capacity() == self.history.capacity(),
            self.history.wf() ==> r.history.wf(),
    {
        TokCtx {
            line: self.line,
            start_pos: self.start_pos,
            end_pos: self.pos,
            file: crate::token::clone_file(&self.file),
            history: self.history.dup(),
        }
    }

    /// Wraps a lexing error as the result of reading a token.
    fn create_error(&self, inner: TokenErr) -> (r: Option<Result<Token, TokenErr>>)
        ensures
            r == Some(Err::<Token, TokenErr>(inner)),
    {
        Some(Err(inner))
    }

    /// Hands out the next token: a buffered one if any, else one read from the
    /// source. `None` at the end of the source.
    #[verifier::spinoff_prover]
    #[verifier::rlimit(40)]
    pub fn next_token(&mut self) -> (r: Option<Result<Token, TokenErr>>)
        requires
            old(self).wf(),
        ensures
            final(self).wf(),
            final(self).source() == old(self).source(),
            final(self).file == old(self).file,
            final(self).cap() == old(self).cap(),
            r.is_none() <==> old(self).upcoming().len() == 0,
            (item_of(r), final(self).tstate()) == st_next(old(self).source(), old(self).tstate()),
            old(self).buffered().len() > 0 ==> final(self).buffered() == old(self).buffered().drop_first(),
            old(self).buffered().len() == 0 ==> final(self).buffered().len() == 0,
            r.is_none() ==> final(self).upcoming() == old(self).upcoming() && final(self).measure() <= old(self).measure(),
            r is Some ==> final(self).upcoming() == old(self).upcoming().drop_first() && final(self).measure()
                < old(self).measure(),
            r matches Some(Ok(t)) ==> {
                &&& old(self).upcoming()[0] == LexItem::Tok(t.ty@)
                &&& t.ctx.history.wf()
                &&& t.ctx.history.window() == final(self).history.window()
                &&& t.ctx.history.capacity() == final(self).cap()
            },
            r matches Some(Err(e)) ==> old(self).upcoming()[0] == LexItem::Fail(e),
            old(self).buffered().len() > 0 ==> {
                &&& final(self).cur() == old(self).cur()
                &&& final(self).start_pos == old(self).start_pos
                &&& r matches Some(Ok(t))
                &&& t.ty == old(self).buffered()[0].ty
                &&& t.ctx.line == old(self).buffered()[0].ctx.line
                &&& t.ctx.start_pos == old(self).buffered()[0].ctx.start_pos
                &&& t.ctx.end_pos == old(self).buffered()[0].ctx.end_pos
                &&& t.ctx.file == old(self).buffered()[0].ctx.file
            },
            old(self).buffered().len() == 0 ==> final(self).cur() == lexed_cursor(
                old(self).source(),
                old(self).cur(),
                old(self).cap(),
            ),
            old(self).buffered().len() == 0 && r is Some ==> final(self).start_pos == advance(
                old(self).source(),
                old(self).cur(),
                skip_trivia(old(self).source(), old(self).index()) + 1,
                old(self).cap(),
            ).pos,
            old(self).buffered().len() == 0 ==> (r matches Some(Ok(t)) ==> {
                &&& t.ctx.line == final(self).line
                &&& t.ctx.start_pos == final(self).start_pos
                &&& t.ctx.end_pos == final(self).pos
                &&& t.ctx.file == final(self).file
            }),
    {
        let ghost old_items = self.buffered().map_values(|t: Token| token_item(t));
        if self.buffer.len() > 0 {
            let mut t = self.buffer.remove(0);
            t.ctx.history = self.history.dup();
            proof {
                assert(self.tstate().buf =~= old(self).tstate().buf.drop_first());
                assert(self.buffered().map_values(|t: Token| token_item(t)) =~= old_items.drop_first());
                assert(old(self).upcoming() == old_items + lex_stream(self.source(), self.index()));
                assert(self.upcoming() =~= old(self).upcoming().drop_first());
            }
            return Some(Ok(t));
        }
        proof {
            assert(old_items =~= Seq::<LexItem>::empty());
            assert(old(self).upcoming() =~= lex_stream(self.source(), self.index()));
        }
        let ghost src = self.source();
        let ghost cap = self.cap();
        let ghost c0 = self.cur();
        let ghost i0 = self.index();
        proof {
            lemma_skip_trivia(src, i0);
        }
        loop
            invariant
                self.wf(),
                self.source() == src,
                self.cap() == cap,
                self.file == old(self).file,
                self.buffered().len() == 0,
                c0 == old(self).cur(),
                i0 == c0.idx,
                i0 <= self.index() <= src.len(),
                self.cur() == advance(src, c0, self.index(), cap),
                skip_trivia(src, self.index()) == skip_trivia(src, i0),
            ensures
                self.index() == skip_trivia(src, i0),
            decreases src.len() - self.index(),
        {
            let ghost ia = self.index();
            let ghost ca = self.cur();
            let found_ws = self.skip_whitespace();
            let ghost cb = self.cur();
            let found_comment = self.skip_comments();
            proof {
                lemma_advance_compose(src, c0, ia, cb.idx, cap);
                lemma_advance_compose(src, c0, cb.idx, self.index(), cap);
            }
            if !(found_ws || found_comment) {
                break;
            }
        }
        let ghost s = self.index();
        let c = match self.inc() {
            Some(c) => c,
            None => {
                proof {
                    assert(self.tstate().buf =~= Seq::<TokenKind>::empty());
                }
                return None;
            },
        };
        let start_pos = self.pos;
        self.start_pos = start_pos;
        let ghost c1 = self.cur();
        let res = self.lex_token(c);
        proof {
            lemma_lex_at_progress(src, s);
            lemma_advance_compose(src, c0, c1.idx, self.index(), cap);
            assert(lex_stream(src, i0) == seq![lexed_item(lex_at(src, s))] + lex_stream(
                src,
                lexed_end(lex_at(src, s)),
            ));
            assert(self.upcoming() =~= lex_stream(src, self.index()));
            assert(self.tstate().buf =~= Seq::<TokenKind>::empty());
            assert(old(self).tstate().buf =~= Seq::<TokenKind>::empty());
        }
        match res {
            Ok(ty) => Some(Ok(Token { ty, ctx: self.create_context() })),
            Err(e) => self.create_error(e),
        }
    }

    /// The next token, left in place to be handed out again.
    pub fn peek_token(&mut self) -> (r: Option<Result<Token, TokenErr>>)
        requires
            old(self).wf(),
        ensures
            final(self).wf(),
            final(self).source() == old(self).source(),
            final(self).file == old(self).file,
            final(self).cap() == old(self).cap(),
            final(self).measure() <= old(self).measure(),
            r.is_none() <==> old(self).upcoming().len() == 0,
            r.is_none() ==> final(self).upcoming() == old(self).upcoming(),
            r matches Some(Ok(t)) ==> old(self).upcoming()[0] == LexItem::Tok(t.ty@) && final(self).upcoming()
                == old(self).upcoming() && final(self).buffered().len() > 0,
            r matches Some(Err(e)) ==> old(self).upcoming()[0] == LexItem::Fail(e) && final(self).upcoming()
                == old(self).upcoming().drop_first(),
            (item_of(r), final(self).tstate()) == st_peek(old(self).source(), old(self).tstate()),
    {
        self.peek_token_n(0)
    }

    /// The token `n` places ahead, left in place: tokens up to it are read
    /// ahead and kept. Where a token before it cannot be read, that error is
    /// the result and is consumed; where the source ends before it, `None`.
    #[verifier::spinoff_prover]
    #[verifier::rlimit(80)]
    pub fn peek_token_n(&mut self, n: usize) -> (r: Option<Result<Token, TokenErr>>)
        requires
            old(self).wf(),
        ensures
            final(self).wf(),
            final(self).source() == old(self).source(),
            final(self).file == old(self).file,
            final(self).cap() == old(self).cap(),
            final(self).measure() <= old(self).measure(),
            n < old(self).buffered().len() ==> final(self).buffered() == old(self).buffered() && final(self).cur()
                == old(self).cur() && final(self).start_pos == old(self).start_pos,
            ({
                let u = old(self).upcoming();
                &&& all_tokens(u, n + 1) && u.len() <= n ==> r.is_none() && final(self).upcoming() == u
                &&& all_tokens(u, n + 1) && n < u.len() ==> (r matches Some(Ok(t)) && u[n as int] == LexItem::Tok(t.ty@))
                    && final(self).upcoming() == u && final(self).buffered().len() > n
                &&& forall|k: int|
                    0 <= k <= n && k < u.len() && all_tokens(u, k) && #[trigger] u[k] is Fail ==> r == Some(
                        Err::<Token, TokenErr>(u[k]->Fail_0),
                    ) && final(self).upcoming() == u.remove(k)
            }),
            r matches Some(Ok(t)) ==> final(self).buffered().len() > n && {
                let b = final(self).buffered()[n as int];
                &&& b.ty@ == t.ty@
                &&& b.ctx.line == t.ctx.line
                &&& b.ctx.start_pos == t.ctx.start_pos
                &&& b.ctx.end_pos == t.ctx.end_pos
                &&& b.ctx.file == t.ctx.file
            },
            n == 0 ==> (item_of(r), final(self).tstate()) == st_peek(old(self).source(), old(self).tstate()),
    {
        let ghost u = self.upcoming();
        proof {
            assert forall|j: int| 0 <= j < self.buffered().len() implies #[trigger] u[j] == token_item(
                self.buffered()[j],
            ) by {}
        }
        if n < self.buffer.len() {
            let t = self.buffer[n].dup();
            return Some(Ok(t));
        }
        let ghost b0 = self.buffered();
        while self.buffer.len() <= n
            invariant
                self.wf(),
                self.source() == old(self).source(),
                self.file == old(self).file,
                self.cap() == old(self).cap(),
                self.measure() <= old(self).measure(),
                self.upcoming() == u,
                u == old(self).upcoming(),
                b0 == old(self).buffered(),
                self.buffered().len() >= b0.len(),
                n >= b0.len(),
                forall|j: int| 0 <= j < self.buffered().len() ==> #[trigger] u[j] == token_item(self.buffered()[j]),
                self.buffered().len() == b0.len() ==> self.tstate() == old(self).tstate(),
                n == 0 && self.buffered().len() > 0 ==> (Some(LexItem::Tok(self.buffered()[0].ty@)), self.tstate())
                    == st_peek(old(self).source(), old(self).tstate()),
            decreases self.source().len() - self.index(),
        {
            let ghost items = self.buffered().map_values(|t: Token| token_item(t));
            let ghost st0 = self.tstate();
            let mut saved: Vec<Token> = Vec::new();
            std::mem::swap(&mut saved, &mut self.buffer);
            proof {
                assert(self.buffered().map_values(|t: Token| token_item(t)) =~= Seq::<LexItem>::empty());
                assert(u == items + lex_stream(self.source(), self.index()));
                assert(self.upcoming() =~= lex_stream(self.source(), self.index()));
                assert(saved@.map_values(|t: Token| token_item(t)) == items);
            }
            let ghost mid = self.upcoming();
            let ghost mid_st = self.tstate();
            let r = self.next_token();
            match r {
                None => {
                    self.buffer = saved;
                    proof {
                        assert(self.upcoming() =~= u);
                        assert(u.len() == items.len());
                        if n == 0 {
                            assert(self.tstate().buf =~= Seq::<TokenKind>::empty());
                        }
                    }
                    return None;
                },
                Some(Err(e)) => {
                    self.buffer = saved;
                    proof {
                        let k = items.len() as int;
                        if n == 0 {
                            assert(self.tstate().buf =~= Seq::<TokenKind>::empty());
                        }
                        assert(u[k] == LexItem::Fail(e));
                        assert(self.upcoming() =~= u.remove(k));
                        assert forall|k2: int|
                            0 <= k2 <= n && k2 < u.len() && all_tokens(u, k2) && #[trigger] u[k2] is Fail implies k2
                                == k by {
                            if k2 < k {
                                assert(u[k2] == token_item(saved@[k2]));
                            } else if k2 > k {
                                assert(u[k] is Tok);
                            }
                        }
                    }
                    return Some(Err(e));
                },
                Some(Ok(t)) => {
                    let ghost tt = t;
                    saved.push(t);
                    self.buffer = saved;
                    proof {
                        assert(self.buffered().map_values(|t: Token| token_item(t)) =~= items.push(token_item(tt)));
                        assert(self.upcoming() =~= u);
                        if n == 0 {
                            assert(self.tstate().buf =~= seq![tt.ty@]);
                        }
                    }
                },
            }
        }
        let t = self.buffer[n].dup();
        proof {
            assert(u[n as int] == token_item(self.buffered()[n as int]));
        }
        Some(Ok(t))
    }

    /// The next token; at the end of the source, the error `EOF`.
    pub fn expect_any(&mut self) -> (r: Result<Token, TokenErr>)
        requires
            old(self).wf(),
        ensures
            final(self).wf(),
            final(self).source() == old(self).source(),
            final(self).file == old(self).file,
            final(self).cap() == old(self).cap(),
            final(self).measure() <= old(self).measure(),
            old(self).upcoming().len() == 0 ==> r == Err::<Token, TokenErr>(TokenErr::EOF) && final(self).upcoming()
                == old(self).upcoming(),
            old(self).upcoming().len() > 0 ==> final(self).upcoming() == old(self).upcoming().drop_first()
                && final(self).measure() < old(self).measure(),
            r matches Ok(t) ==> old(self).upcoming()[0] == LexItem::Tok(t.ty@),
            old(self).upcoming().len() > 0 ==> (r matches Err(e) ==> old(self).upcoming()[0] == LexItem::Fail(e)),
            final(self).tstate() == st_next(old(self).source(), old(self).tstate()).1,
            match r {
                Ok(t) => st_next(old(self).source(), old(self).tstate()).0 == Some(LexItem::Tok(t.ty@)),
                Err(e) => st_next(old(self).source(), old(self).tstate()).0 == Some(LexItem::Fail(e)) || (st_next(
                    old(self).source(),
                    old(self).tstate(),
                ).0 is None && e == TokenErr::EOF),
            },
    {
        match self.next_token() {
            Some(n) => n,
            None => Err(TokenErr::EOF),
        }
    }

    /// The next token, left in place; at the end of the source, the error `EOF`.
    pub fn expect_any_peeked(&mut self) -> (r: Result<Token, TokenErr>)
        requires
            old(self).wf(),
        ensures
            final(self).wf(),
            final(self).source() == old(self).source(),
            final(self).file == old(self).file,
            final(self).cap() == old(self).cap(),
            final(self).measure() <= old(self).measure(),
            old(self).upcoming().len() == 0 ==> r == Err::<Token, TokenErr>(TokenErr::EOF) && final(self).upcoming()
                == old(self).upcoming(),
            r matches Ok(t) ==> old(self).upcoming()[0] == LexItem::Tok(t.ty@) && final(self).upcoming()
                == old(self).upcoming() && final(self).buffered().len() > 0,
            old(self).upcoming().len() > 0 ==> (r matches Err(e) ==> old(self).upcoming()[0] == LexItem::Fail(e)
                && final(self).upcoming() == old(self).upcoming().drop_first()),
            final(self).tstate() == st_peek(old(self).source(), old(self).tstate()).1,
            match r {
                Ok(t) => st_peek(old(self).source(), old(self).tstate()).0 == Some(LexItem::Tok(t.ty@)),
                Err(e) => st_peek(old(self).source(), old(self).tstate()).0 == Some(LexItem::Fail(e)) || (st_peek(
                    old(self).source(),
                    old(self).tstate(),
                ).0 is None && e == TokenErr::EOF),
            },
    {
        match self.peek_token() {
            Some(n) => n,
            None => Err(TokenErr::EOF),
        }
    }

    /// Reads up to `n` raw source characters, bypassing tokens, position and
    /// history.
    pub fn next_raw_chars(&mut self, n: usize) -> (r: String)
        requires
            old(self).wf(),
        ensures
            final(self).wf(),
            final(self).source() == old(self).source(),
            final(self).buffered() == old(self).buffered(),
            final(self).file == old(self).file,
            final(self).cap() == old(self).cap(),
            final(self).line == old(self).line,
            final(self).pos == old(self).pos,
            final(self).start_pos == old(self).start_pos,
            final(self).history == old(self).history,
            final(self).index() == raw_end(old(self).source(), old(self).index(), n as int),
            r@ == old(self).source().subrange(old(self).index(), final(self).index()),
            final(self).tstate() == (TState { buf: old(self).tstate().buf, idx: raw_end(old(self).source(), old(self).index(), n as int) }),
    {
        let mut out: Vec<char> = Vec::new();
        let end = if n < self.src.len() - self.idx { self.idx + n } else { self.src.len() };
        while self.idx < end
            invariant
                self.wf(),
                self.source() == old(self).source(),
                self.buffered() == old(self).buffered(),
                self.file == old(self).file,
                self.line == old(self).line,
                self.pos == old(self).pos,
                self.start_pos == old(self).start_pos,
                self.history == old(self).history,
                old(self).index() <= self.index() <= end,
                end == raw_end(old(self).source(), old(self).index(), n as int),
                out@ == old(self).source().subrange(old(self).index(), self.index()),
            decreases end - self.idx,
        {
            out.push(self.src[self.idx]);
            self.idx = self.idx + 1;
            assert(out@ =~= old(self).source().subrange(old(self).index(), self.index()));
        }
        string_from_chars(&out)
    }

    /// Up to `n` raw source characters, cut at the first line break (which is
    /// read but not returned).
    pub fn tail(&mut self, n: usize) -> (r: String)
        requires
            old(self).wf(),
        ensures
            final(self).wf(),
            final(self).source() == old(self).source(),
            final(self).buffered() == old(self).buffered(),
            final(self).file == old(self).file,
            final(self).cap() == old(self).cap(),
            final(self).line == old(self).line,
            final(self).pos == old(self).pos,
            final(self).start_pos == old(self).start_pos,
            final(self).history == old(self).history,
            final(self).index() == raw_end(old(self).source(), old(self).index(), n as int),
            r@ == before_newline(old(self).source().subrange(old(self).index(), final(self).index())),
            final(self).tstate() == (TState { buf: old(self).tstate().buf, idx: raw_end(old(self).source(), old(self).index(), n as int) }),
    {
        let raw = self.next_raw_chars(n);
        let chars = crate::text::string_chars(&raw);
        let mut out: Vec<char> = Vec::new();
        let mut i: usize = 0;
        while i < chars.len() && chars[i] != '\n'
            invariant
                i <= chars@.len(),
                forall|j: int| 0 <= j < i ==> chars@[j] != '\n',
                out@ == chars@.subrange(0, i as int),
            decreases chars@.len() - i,
        {
            out.push(chars[i]);
            i += 1;
            assert(out@ =~= chars@.subrange(0, i as int));
        }
        proof {
            lemma_before_newline(chars@, i as int);
        }
        string_from_chars(&out)
    }

    /// The raw characters after the current token that an error shows.
    pub fn tail_default(&mut self) -> (r: String)
        requires
            old(self).wf(),
        ensures
            final(self).wf(),
            final(self).source() == old(self).source(),
            final(self).buffered() == old(self).buffered(),
            final(self).file == old(self).file,
            final(self).cap() == old(self).cap(),
            final(self).line == old(self).line,
            final(self).pos == old(self).pos,
            final(self).start_pos == old(self).start_pos,
            final(self).history == old(self).history,
            final(self).index() == raw_end(old(self).source(), old(self).index(), TAIL_CAP as int),
            r@ == before_newline(old(self).source().subrange(old(self).index(), final(self).index())),
            final(self).tstate() == st_tail(old(self).source(), old(self).tstate()),
    {
        self.tail(TAIL_CAP)
    }
}

/// The reading position after reading the next token from the source at `c0`
/// (at the end: after skipping what remains, with the column moved once more).
pub open spec fn lexed_cursor(src: Seq<char>, c0: Cur, cap: nat) -> Cur {
    let s = skip_trivia(src, c0.idx);
    if s >= src.len() {
        let c1 = advance(src, c0, s, cap);
        Cur { pos: sat(c1.pos + 1), ..c1 }
    } else {
        advance(src, c0, lexed_end(lex_at(src, s)), cap)
    }
}

} // verus!

verus! {

/// Where reading `n` raw characters from `i` stops.
pub open spec fn raw_end(src: Seq<char>, i: int, n: int) -> int {
    if i + n < src.len() { i + n } else { src.len() as int }
}

/// The characters of `s` before its first line break (all of `s` if it has none).
pub open spec fn before_newline(s: Seq<char>) -> Seq<char>
    decreases s.len(),
{
    if s.len() == 0 || s[0] == '\n' {
        seq![]
    } else {
        seq![s[0]] + before_newline(s.drop_first())
    }
}

/// `before_newline` is the prefix up to the first line break.
pub proof fn lemma_before_newline(s: Seq<char>, i: int)
    requires
        0 <= i <= s.len(),
        forall|j: int| 0 <= j < i ==> s[j] != '\n',
        i == s.len() || s[i] == '\n',
    ensures
        before_newline(s) == s.subrange(0, i),
    decreases i,
{
    if i == 0 {
        assert(s.subrange(0, 0) =~= Seq::<char>::empty());
    } else {
        lemma_before_newline(s.drop_first(), i - 1);
        assert(s.subrange(0, i) =~= seq![s[0]] + s.drop_first().subrange(0, i - 1));
    }
}

} // verus!
