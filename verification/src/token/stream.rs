//! The token stream as a mathematical state: what was read ahead, and where
//! reading in the source goes on.
use vstd::prelude::*;
use crate::token::{Token, TokenKind};
use crate::token::lexicon::{TokenErr, LexItem, skip_trivia, lex_at, lexed_end, lexed_item};
use crate::token::tokenizer::{raw_end, TAIL_CAP};

verus! {

/// Tokens read ahead (all well-formed), and the index of the next unread
/// source character.
pub struct TState {
    pub buf: Seq<TokenKind>,
    pub idx: int,
}

/// What is left to read; it shrinks with every token read.
pub open spec fn st_measure(src: Seq<char>, st: TState) -> nat {
    if 0 <= st.idx <= src.len() {
        (st.buf.len() + (src.len() - st.idx)) as nat
    } else {
        st.buf.len()
    }
}

pub open spec fn lt(src: Seq<char>, a: TState, b: TState) -> bool {
    st_measure(src, a) < st_measure(src, b)
}

pub open spec fn le(src: Seq<char>, a: TState, b: TState) -> bool {
    st_measure(src, a) <= st_measure(src, b)
}

/// Reading the next token: the first one read ahead, else one lexed from
/// the source; `None` at the end.
pub open spec fn st_next(src: Seq<char>, st: TState) -> (Option<LexItem>, TState) {
    if st.buf.len() > 0 {
        (Some(LexItem::Tok(st.buf[0])), TState { buf: st.buf.drop_first(), idx: st.idx })
    } else {
        let s = skip_trivia(src, st.idx);
        if s >= src.len() {
            (None, TState { buf: seq![], idx: s })
        } else {
            let l = lex_at(src, s);
            (Some(lexed_item(l)), TState { buf: seq![], idx: lexed_end(l) })
        }
    }
}

/// Looking at the next token; a token lexed for it is kept for later, an
/// error is consumed.
pub open spec fn st_peek(src: Seq<char>, st: TState) -> (Option<LexItem>, TState) {
    if st.buf.len() > 0 {
        (Some(LexItem::Tok(st.buf[0])), st)
    } else {
        let (r, s1) = st_next(src, st);
        match r {
            Some(LexItem::Tok(k)) => (r, TState { buf: seq![k], idx: s1.idx }),
            _ => (r, s1),
        }
    }
}

/// Reading the raw characters that an error message shows after its token.
pub open spec fn st_tail(src: Seq<char>, st: TState) -> TState {
    TState { buf: st.buf, idx: raw_end(src, st.idx, TAIL_CAP as int) }
}

/// The stream item a read gives: a token, a lexing error, or nothing.
pub open spec fn item_of(r: Option<Result<Token, TokenErr>>) -> Option<LexItem> {
    match r {
        Some(Ok(t)) => Some(LexItem::Tok(t.ty@)),
        Some(Err(e)) => Some(LexItem::Fail(e)),
        None => None,
    }
}

} // verus!

verus! {

/// Looking at the next token and then reading it gives what reading it
/// directly gives, the same item and the same state after; a failed look
/// is itself the read. Looking twice gives what looking once gives.
pub proof fn law_peek_then_next(src: Seq<char>, st: TState)
    ensures
        ({
            let p = st_peek(src, st);
            &&& p.0 matches Some(LexItem::Tok(_)) ==> st_next(src, p.1) == st_next(src, st)
            &&& !(p.0 matches Some(LexItem::Tok(_))) ==> p == st_next(src, st)
            &&& p.0 matches Some(LexItem::Tok(_)) ==> st_peek(src, p.1) == p
        }),
{
    let p = st_peek(src, st);
    if st.buf.len() == 0 {
        let (r, s1) = st_next(src, st);
        if let Some(LexItem::Tok(k)) = r {
            let s2 = TState { buf: seq![k], idx: s1.idx };
            assert(s2.buf.drop_first() =~= Seq::<TokenKind>::empty());
            assert(s1.buf =~= Seq::<TokenKind>::empty());
        }
    }
}

} // verus!
