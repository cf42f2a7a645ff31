use vstd::prelude::*;

verus! {

/// The byte that a scanner reads at position `i` of `input`: the byte itself
/// inside the input, and 0 (end of input) anywhere past it.
pub open spec fn byte_at(input: Seq<u8>, i: int) -> u8 {
    if 0 <= i < input.len() {
        input[i]
    } else {
        0
    }
}

/// The position after reading at `i`: reading moves one byte forward, but
/// never further than one past the end of the input.
pub open spec fn adv(input: Seq<u8>, i: int) -> int {
    if i <= input.len() {
        i + 1
    } else {
        i
    }
}

/// The first index at or after `i` where `p` holds, or `limit` where it holds nowhere in between.
pub open spec fn first_from(p: spec_fn(int) -> bool, i: int, limit: int) -> int
    decreases limit - i,
{
    if i >= limit || p(i) {
        i
    } else {
        first_from(p, i + 1, limit)
    }
}

/// `first_from` is the index `k` that a scan stops at: `p` fails everywhere before it and holds
/// at it, unless the scan ran up to `limit`.
pub proof fn lemma_first_from(p: spec_fn(int) -> bool, i: int, limit: int, k: int)
    requires
        i <= k,
        forall|j: int| i <= j < k ==> !#[trigger] p(j),
        p(k) || k >= limit,
        k <= limit || k == i,
    ensures
        first_from(p, i, limit) == k,
    decreases limit - i,
{
    if i >= limit || p(i) {
        if i < k {
            assert(!p(i));
        }
    } else {
        lemma_first_from(p, i + 1, limit, k);
    }
}

/// A scan that has passed every index from `i` up to `n` without `p` holding stops at `n` or later.
pub proof fn lemma_first_from_covers(p: spec_fn(int) -> bool, i: int, limit: int, n: int)
    requires
        i <= n,
        i <= limit,
        forall|j: int| i <= j < n ==> !#[trigger] p(j),
    ensures
        i <= first_from(p, i, limit) <= limit,
        n <= first_from(p, i, limit) || first_from(p, i, limit) == limit,
        first_from(p, i, limit) < limit ==> p(first_from(p, i, limit)),
    decreases limit - i,
{
    if i < limit && !p(i) {
        if i < n {
            lemma_first_from_covers(p, i + 1, limit, n);
        } else {
            lemma_first_from_covers(p, i + 1, limit, i + 1);
        }
    }
}

/// A scan from `i` stops at no index before `first_from`.
pub proof fn lemma_first_from_before(p: spec_fn(int) -> bool, i: int, limit: int, j: int)
    requires
        i <= j < first_from(p, i, limit),
    ensures
        !p(j),
    decreases limit - i,
{
    if i < limit && !p(i) && i < j {
        lemma_first_from_before(p, i + 1, limit, j);
    }
}

/// What went wrong while lexing.
#[derive(Clone, Copy, Debug, PartialEq, Eq, Structural)]
pub enum LexErrorKind {
    UnexpectedEof,
    BadHexEscape,
    BadCodepoint(u32),
    UnknownEscape(u8),
    BadUtf8,
}

/// A lexing error and the scanner position at which it was found.
#[derive(Clone, Copy, Debug, PartialEq, Eq, Structural)]
pub struct LexError {
    pub kind: LexErrorKind,
    pub at: usize,
}

/// A cursor over the bytes of a source text.
///
/// Reading past the end yields 0; the position then stays one past the end.
pub struct Scanner<'a> {
    pub input: &'a [u8],
    pub pos: usize,
}

impl<'a> Scanner<'a> {
    /// The scanner's position is at most one past the end, and that position fits in `usize`.
    pub open spec fn wf(&self) -> bool {
        &&& self.pos <= self.input@.len() + 1
        &&& self.input@.len() < usize::MAX
    }

    /// The byte at the current position.
    pub open spec fn cur(&self) -> u8 {
        byte_at(self.input@, self.pos as int)
    }

    pub fn new(input: &'a [u8]) -> (s: Scanner<'a>)
        requires
            input@.len() < usize::MAX,
        ensures
            s.input@ == input@,
            s.pos == 0,
            s.wf(),
    {
        Scanner { input, pos: 0 }
    }

    /// The byte at the current position, without moving.
    pub fn peek(&self) -> (c: u8)
        requires
            self.wf(),
        ensures
            c == self.cur(),
    {
        if self.pos < self.input.len() {
            self.input[self.pos]
        } else {
            0
        }
    }

    /// Moves one byte forward (not past one beyond the end).
    pub fn next(&mut self)
        requires
            old(self).wf(),
        ensures
            final(self).wf(),
            final(self).input == old(self).input,
            final(self).pos == adv(old(self).input@, old(self).pos as int),
    {
        if self.pos <= self.input.len() {
            self.pos = self.pos + 1;
        }
    }

    /// Returns the byte at the current position and moves past it.
    pub fn read(&mut self) -> (c: u8)
        requires
            old(self).wf(),
        ensures
            c == old(self).cur(),
            final(self).wf(),
            final(self).input == old(self).input,
            final(self).pos == adv(old(self).input@, old(self).pos as int),
    {
        let c = self.peek();
        self.next();
        c
    }

    /// Moves one byte back.
    pub fn back(&mut self)
        requires
            old(self).wf(),
            old(self).pos > 0,
        ensures
            final(self).wf(),
            final(self).input == old(self).input,
            final(self).pos == old(self).pos - 1,
    {
        self.pos = self.pos - 1;
    }

    /// An error of the given kind at the current position.
    pub fn err(&self, kind: LexErrorKind) -> (e: LexError)
        ensures
            e == (LexError { kind, at: self.pos }),
    {
        LexError { kind, at: self.pos }
    }
}

/// Reading a byte inside the input (or at its end) and then moving back leaves the scanner
/// where it was: `read` moves to `adv(input, pos)` and `back` one byte back from there.
pub proof fn law_read_then_back(input: Seq<u8>, pos: int)
    requires
        0 <= pos <= input.len(),
    ensures
        adv(input, pos) - 1 == pos,
{
}

} // verus!
