//! The sink abstraction the muxer writes through, and an in-memory sink.
//!
//! A sink is modelled by the byte stream it has accepted so far (`out`), a
//! write offset into that stream (`pos`), and whether it supports
//! repositioning (`is_seekable`). Writing splices bytes into the stream at
//! the current offset; when the offset sits at the end of the stream this is
//! plain appending, and repositioning backwards is what makes the
//! reserve-placeholder-then-backpatch protocol possible.

use vstd::prelude::*;

verus! {

/// The stream that results from writing `b` into `s` at offset `pos`:
/// bytes before `pos` are kept, the written range is replaced, and any
/// tail beyond the written range is kept.
pub open spec fn write_at(s: Seq<u8>, pos: int, b: Seq<u8>) -> Seq<u8> {
    s.take(pos) + b + if pos + b.len() < s.len() {
        s.skip(pos + b.len())
    } else {
        Seq::<u8>::empty()
    }
}

/// Two consecutive writes splice the concatenation of their bytes.
pub proof fn lemma_write_at_concat(s: Seq<u8>, pos: int, a: Seq<u8>, b: Seq<u8>)
    requires
        0 <= pos <= s.len(),
    ensures
        write_at(write_at(s, pos, a), pos + a.len(), b) == write_at(s, pos, a + b),
{
    assert(write_at(write_at(s, pos, a), pos + a.len(), b) =~= write_at(s, pos, a + b));
}

/// A write never shrinks the stream and ends exactly at `pos + b.len()`.
pub proof fn lemma_write_at_len(s: Seq<u8>, pos: int, b: Seq<u8>)
    requires
        0 <= pos <= s.len(),
    ensures
        write_at(s, pos, b).len() == if pos + b.len() < s.len() {
            s.len() as int
        } else {
            pos + b.len()
        },
        s.len() <= write_at(s, pos, b).len(),
        write_at(s, pos, b).subrange(pos, pos + b.len() as int) == b,
        write_at(s, pos, b).take(pos) == s.take(pos),
{
    assert(write_at(s, pos, b).subrange(pos, pos + b.len() as int) =~= b);
    assert(write_at(s, pos, b).take(pos) =~= s.take(pos));
}

/// The stream grew by exactly `n` bytes past the first sink's offset, and
/// everything before that offset is untouched.
pub open spec fn advances<W: Writer>(w0: W, w1: W, n: int) -> bool {
    &&& w1.pos() == w0.pos() + n
    &&& 0 <= w0.pos() <= w0.out().len()
    &&& w1.pos() <= w1.out().len()
    &&& forall|j: int| 0 <= j < w0.pos() ==> w1.out()[j] == w0.out()[j]
}

/// A successful write at the end of one advance continues it.
pub proof fn lemma_advances_trans<W: Writer>(w0: W, w1: W, w2: W, n: int, m: int)
    requires
        advances(w0, w1, n),
        advances(w1, w2, m),
        n >= 0,
    ensures
        advances(w0, w2, n + m),
{
}

/// The second sink state has only grown the stream: the offset moved
/// forward and every byte before the first offset is untouched.
pub open spec fn extends<W: Writer>(w0: W, w1: W) -> bool {
    &&& 0 <= w0.pos() <= w0.out().len()
    &&& w0.pos() <= w1.pos() <= w1.out().len()
    &&& forall|j: int| 0 <= j < w0.pos() ==> w1.out()[j] == w0.out()[j]
}

pub proof fn lemma_extends_trans<W: Writer>(w0: W, w1: W, w2: W)
    requires
        extends(w0, w1),
        extends(w1, w2),
    ensures
        extends(w0, w2),
{
}

/// A write changes nothing outside the spliced range.
pub proof fn lemma_write_at_outside(s: Seq<u8>, pos: int, b: Seq<u8>, j: int)
    requires
        0 <= pos <= s.len(),
        0 <= j < s.len(),
        j < pos || j >= pos + b.len(),
    ensures
        write_at(s, pos, b)[j] == s[j],
{
    if j >= pos + b.len() {
        assert(pos + b.len() < s.len());
        assert(write_at(s, pos, b)[j] == s.skip(pos + b.len())[j - pos - b.len()]);
    }
}

/// A successful write only grows the stream.
pub proof fn lemma_write_extends<W: Writer>(w0: W, w1: W, b: Seq<u8>)
    requires
        0 <= w0.pos() <= w0.out().len(),
        w1.out() == write_at(w0.out(), w0.pos(), b),
        w1.pos() == w0.pos() + b.len(),
    ensures
        extends(w0, w1),
{
    lemma_write_at_len(w0.out(), w0.pos(), b);
}

/// A write whose bytes are known advances the stream by their count.
pub proof fn lemma_write_advances<W: Writer>(w0: W, w1: W, b: Seq<u8>)
    requires
        0 <= w0.pos() <= w0.out().len(),
        w1.out() == write_at(w0.out(), w0.pos(), b),
        w1.pos() == w0.pos() + b.len(),
    ensures
        advances(w0, w1, b.len() as int),
{
    lemma_write_at_len(w0.out(), w0.pos(), b);
}

/// What the muxer requires of an output sink.
///
/// Every method contract is stated over the abstract stream; the in-memory
/// sink below implements the trait under full verification, and a file-backed
/// sink outside the library can implement the same interface.
pub trait Writer: Sized {
    /// The bytes the sink has accepted so far.
    spec fn out(&self) -> Seq<u8>;

    /// The current write offset into the stream.
    spec fn pos(&self) -> int;

    /// Whether the sink supports repositioning (backpatching).
    spec fn is_seekable(&self) -> bool;

    /// Abstract well-formedness of the sink.
    spec fn inv(&self) -> bool;

    /// A well-formed sink's offset lies inside the stream, and stream
    /// positions fit the wire format's 64-bit offsets.
    proof fn lemma_inv(&self)
        requires
            self.inv(),
        ensures
            0 <= self.pos() <= self.out().len() <= u64::MAX,
    ;

    /// Write `buf` at the current offset. On success the bytes are spliced
    /// into the stream and the offset advances past them; on failure the
    /// stream contents are unspecified (a sink may have accepted a prefix).
    fn write(&mut self, buf: &[u8]) -> (ok: bool)
        requires
            old(self).inv(),
            old(self).pos() + buf@.len() <= u64::MAX,
        ensures
            final(self).inv(),
            final(self).is_seekable() == old(self).is_seekable(),
            ok ==> final(self).out() == write_at(old(self).out(), old(self).pos(), buf@)
                && final(self).pos() == old(self).pos() + buf@.len(),
    ;

    /// The current write offset.
    fn get_position(&self) -> (p: u64)
        requires
            self.inv(),
        ensures
            p == self.pos(),
    ;

    /// Move the write offset. A sink that reports failure must leave the
    /// stream and the offset unchanged.
    fn set_position(&mut self, position: u64) -> (ok: bool)
        requires
            old(self).inv(),
        ensures
            final(self).inv(),
            final(self).is_seekable() == old(self).is_seekable(),
            final(self).out() == old(self).out(),
            ok ==> final(self).pos() == position,
            !ok ==> final(self).pos() == old(self).pos(),
    ;

    /// Whether `set_position` can reach previously written bytes.
    fn seekable(&self) -> (s: bool)
        requires
            self.inv(),
        ensures
            s == self.is_seekable(),
    ;

    /// Hook for external indexing: called with an element's id and the
    /// stream offset where that element starts.
    fn element_start_notify(&self, element_id: u64, position: u64) {
    }
}

/// An in-memory sink: the whole stream is kept in a growable buffer, and
/// any offset inside it can be sought. Always succeeds.
pub struct MemWriter {
    buf: Vec<u8>,
    cursor: usize,
}

impl MemWriter {
    pub fn new() -> (w: MemWriter)
        ensures
            w.inv(),
            w.out() == Seq::<u8>::empty(),
            w.pos() == 0,
            w.is_seekable(),
    {
        MemWriter { buf: Vec::new(), cursor: 0 }
    }

    /// The bytes written so far.
    pub fn data(&self) -> (r: &Vec<u8>)
        ensures
            r@ == self.out(),
    {
        &self.buf
    }
}

impl Writer for MemWriter {
    closed spec fn out(&self) -> Seq<u8> {
        self.buf@
    }

    closed spec fn pos(&self) -> int {
        self.cursor as int
    }

    closed spec fn is_seekable(&self) -> bool {
        true
    }

    closed spec fn inv(&self) -> bool {
        self.cursor <= self.buf@.len() && self.buf@.len() <= u64::MAX
    }

    proof fn lemma_inv(&self) {
    }

    fn write(&mut self, buf: &[u8]) -> (ok: bool) {
        let n: usize = buf.len();
        if n > usize::MAX - self.cursor {
            return false;
        }
        let ghost s0: Seq<u8> = self.buf@;
        let ghost p: int = self.cursor as int;
        let mut i: usize = 0;
        while i < n
            invariant
                i <= n,
                n == buf@.len(),
                p == self.cursor as int,
                p + n <= usize::MAX,
                p + n <= u64::MAX,
                self.cursor <= s0.len() <= u64::MAX,
                self.buf@ == write_at(s0, p, buf@.take(i as int)),
                self.buf@.len() == if p + i < s0.len() {
                    s0.len() as int
                } else {
                    p + i
                },
            decreases n - i,
        {
            let idx: usize = self.cursor + i;
            if idx < self.buf.len() {
                self.buf.set(idx, buf[i]);
                assert(self.buf@ =~= write_at(s0, p, buf@.take(i + 1)));
            } else {
                self.buf.push(buf[i]);
                assert(self.buf@ =~= write_at(s0, p, buf@.take(i + 1)));
            }
            i = i + 1;
        }
        assert(buf@.take(n as int) =~= buf@);
        self.cursor = self.cursor + n;
        true
    }

    fn get_position(&self) -> (p: u64) {
        self.cursor as u64
    }

    fn set_position(&mut self, position: u64) -> (ok: bool) {
        if position <= self.buf.len() as u64 {
            self.cursor = position as usize;
            true
        } else {
            false
        }
    }

    fn seekable(&self) -> (s: bool) {
        true
    }
}

} // verus!
