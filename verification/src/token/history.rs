//! A fixed-capacity ring buffer of the most recently read source characters,
//! used to show the source line around an error.
use vstd::prelude::*;
use crate::text::string_from_chars;

verus! {

/// The last `min(len, capacity)` characters pushed, oldest first.
#[derive(Clone, Debug)]
pub struct History {
    contents: Vec<char>,
    seam: usize,
    pub(crate) len: usize,
}

/// `s` rotated left by `k` places.
pub open spec fn rotate_left(s: Seq<char>, k: int) -> Seq<char> {
    s.subrange(k, s.len() as int) + s.subrange(0, k)
}

/// The slot after `i` in a ring of `cap` slots.
pub open spec fn next_slot(i: int, cap: int) -> int {
    if i + 1 < cap { i + 1 } else { 0 }
}

/// The window of a history after pushing `c`: the old window with `c` appended,
/// dropping the oldest character once `cap` characters are held.
pub open spec fn window_push(w: Seq<char>, c: char, cap: nat) -> Seq<char> {
    if w.len() < cap {
        w.push(c)
    } else {
        w.push(c).drop_first()
    }
}

impl History {
    /// Number of characters the buffer can hold.
    pub closed spec fn capacity(&self) -> nat {
        self.contents@.len()
    }

    /// Internal consistency of the ring buffer.
    pub closed spec fn wf(&self) -> bool {
        &&& self.len <= self.contents@.len()
        &&& self.contents@.len() > 0 ==> self.seam < self.contents@.len()
        &&& self.len < self.contents@.len() ==> self.seam == self.len
    }

    /// The characters held, oldest first.
    pub closed spec fn window(&self) -> Seq<char> {
        let cap = self.contents@.len();
        if self.len < cap {
            self.contents@.subrange(1, self.len + 1)
        } else if cap == 0 {
            Seq::empty()
        } else {
            rotate_left(self.contents@, next_slot(self.seam as int, cap as int))
        }
    }

    /// Whether the buffer is internally consistent.
    pub fn is_wf(&self) -> (r: bool)
        ensures
            r == self.wf(),
    {
        let cap = self.contents.len();
        self.len <= cap && (cap == 0 || self.seam < cap) && (self.len >= cap || self.seam == self.len)
    }

    /// An empty history that can hold `cap` characters.
    pub fn new(cap: usize) -> (r: Self)
        ensures
            r.wf(),
            r.capacity() == cap,
            r.window() == Seq::<char>::empty(),
    {
        let mut contents = Vec::new();
        let mut i: usize = 0;
        while i < cap
            invariant
                i <= cap,
                contents@.len() == i,
            decreases cap - i,
        {
            contents.push('\0');
            i += 1;
        }
        let r = Self { contents, seam: 0, len: 0 };
        assert(r.window() =~= Seq::<char>::empty());
        r
    }

    /// Records one more character.
    pub fn push(&mut self, c: char)
        requires
            old(self).wf(),
            old(self).capacity() > 0,
        ensures
            final(self).wf(),
            final(self).capacity() == old(self).capacity(),
            final(self).window() == window_push(old(self).window(), c, old(self).capacity()),
    {
        let cap = self.contents.len();
        let new_index = if self.seam + 1 < cap { self.seam + 1 } else { 0 };
        let ghost old_contents = self.contents@;
        let ghost old_len = self.len;
        let ghost old_seam = self.seam;
        if self.len < cap {
            self.len = self.len + 1;
        }
        self.contents.set(new_index, c);
        self.seam = new_index;
        proof {
            let w = self.window();
            let ow = if old_len < cap {
                old_contents.subrange(1, old_len + 1)
            } else {
                rotate_left(old_contents, next_slot(old_seam as int, cap as int))
            };
            if old_len + 1 < cap {
                assert(w =~= ow.push(c));
            } else if old_len + 1 == cap {
                assert(new_index == 0);
                assert(w =~= ow.push(c));
            } else {
                let k = new_index as int;
                let k2 = next_slot(k, cap as int);
                if k + 1 < cap {
                    assert(k2 == k + 1);
                    assert(w =~= ow.push(c).drop_first());
                } else {
                    assert(k2 == 0);
                    assert(w =~= ow.push(c).drop_first());
                }
            }
        }
    }

    /// A copy holding the same characters.
    pub fn dup(&self) -> (r: Self)
        ensures
            self.wf() ==> r.wf(),
            r.capacity() == self.capacity(),
            r.window() == self.window(),
    {
        let mut contents: Vec<char> = Vec::new();
        let mut i: usize = 0;
        while i < self.contents.len()
            invariant
                i <= self.contents@.len(),
                contents@ == self.contents@.subrange(0, i as int),
            decreases self.contents@.len() - i,
        {
            contents.push(self.contents[i]);
            i += 1;
            assert(contents@ =~= self.contents@.subrange(0, i as int));
        }
        assert(contents@ =~= self.contents@);
        Self { contents, seam: self.seam, len: self.len }
    }

    /// The held characters as a string, oldest first.
    pub fn reconstruct(&self) -> (r: String)
        requires
            self.wf(),
        ensures
            r@ == self.window(),
    {
        let cap = self.contents.len();
        let mut s: Vec<char> = Vec::new();
        if self.len < cap {
            let mut i: usize = 0;
            while i < self.len
                invariant
                    self.wf(),
                    cap == self.contents@.len(),
                    self.len < cap,
                    i <= self.len,
                    s@ == self.contents@.subrange(1, i + 1),
                decreases self.len - i,
            {
                s.push(self.contents[i + 1]);
                i += 1;
                assert(s@ =~= self.contents@.subrange(1, i + 1));
            }
        } else if cap > 0 {
            let start = if self.seam + 1 < cap { self.seam + 1 } else { 0 };
            let mut idx = start;
            let mut count: usize = 0;
            while count < cap
                invariant
                    self.wf(),
                    cap == self.contents@.len(),
                    cap > 0,
                    start < cap,
                    count <= cap,
                    idx == (if start + count < cap { start + count } else { start + count - cap }),
                    s@ == rotate_left(self.contents@, start as int).subrange(0, count as int),
                decreases cap - count,
            {
                proof {
                    let r = rotate_left(self.contents@, start as int);
                    if start + count < cap {
                        assert(idx == start + count);
                        assert(r[count as int] == self.contents@[idx as int]);
                    } else {
                        assert(idx == start + count - cap);
                        assert(r[count as int] == self.contents@[idx as int]);
                    }
                }
                s.push(self.contents[idx]);
                idx = if idx + 1 < cap { idx + 1 } else { 0 };
                count += 1;
                assert(s@ =~= rotate_left(self.contents@, start as int).subrange(0, count as int));
            }
            assert(rotate_left(self.contents@, start as int).subrange(0, cap as int) =~= rotate_left(
                self.contents@,
                start as int,
            ));
        } else {
            assert(s@ =~= self.window());
        }
        string_from_chars(&s)
    }
}

/// The window after pushing the characters of `s` in order onto window `w`.
pub open spec fn window_push_all(w: Seq<char>, s: Seq<char>, cap: nat) -> Seq<char>
    decreases s.len(),
{
    if s.len() == 0 {
        w
    } else {
        window_push(window_push_all(w, s.drop_last(), cap), s.last(), cap)
    }
}

/// A history that starts empty holds the last `min(n, cap)` of the `n`
/// characters pushed onto it, oldest first.
pub proof fn law_history_keeps_last(s: Seq<char>, cap: nat)
    ensures
        window_push_all(seq![], s, cap) == s.subrange(
            s.len() - (if s.len() < cap { s.len() as int } else { cap as int }),
            s.len() as int,
        ),
    decreases s.len(),
{
    if s.len() > 0 {
        law_history_keeps_last(s.drop_last(), cap);
        let p = s.drop_last();
        let k: int = if p.len() < cap { p.len() as int } else { cap as int };
        let w = p.subrange(p.len() - k, p.len() as int);
        assert(w.len() == k);
        if w.len() < cap {
            assert(w.push(s.last()) =~= s.subrange(s.len() - (k + 1), s.len() as int));
        } else {
            assert(w.push(s.last()).drop_first() =~= s.subrange(s.len() - (cap as int), s.len() as int));
        }
    } else {
        assert(s.subrange(0, 0) =~= seq![]);
    }
}

} // verus!
