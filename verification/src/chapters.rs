//! The Chapters element: an edition entry holding the chapter atoms.

use vstd::prelude::*;

use crate::chapter::{chapter_payload, chapter_wf, lemma_displays_size_nonneg, Chapter};
use crate::ids;
use crate::util::{
    lemma_master_header_bytes_len, master_elem_size, master_header_bytes, EbmlMasterElementSize,
    WriteEbmlMasterElement,
};
use crate::writer::{extends, lemma_extends_trans, lemma_write_extends, Writer};

verus! {

/// Byte count of the chapter atoms from index `i` on, headers included.
pub open spec fn chapters_size_from(cs: Seq<Chapter>, i: int) -> int
    decreases cs.len() - i,
{
    if i < 0 || i >= cs.len() {
        0
    } else {
        master_elem_size(ids::MkvChapterAtom as int) + chapter_payload(cs[i])
            + chapters_size_from(cs, i + 1)
    }
}

proof fn lemma_chapters_size_nonneg(cs: Seq<Chapter>, i: int)
    requires
        forall|k: int| 0 <= k < cs.len() ==> chapter_wf(#[trigger] cs[k]),
    ensures
        chapters_size_from(cs, i) >= 0,
    decreases cs.len() - i,
{
    if 0 <= i < cs.len() {
        lemma_displays_size_nonneg(cs[i].displays_@, 0);
        lemma_chapters_size_nonneg(cs, i + 1);
    }
}

/// The chapter list of a segment.
pub struct Chapters {
    /// Array for storage of chapter objects.
    pub chapters_: Vec<Chapter>,
}

impl Chapters {
    /// Every held chapter is well formed and the whole payload fits the
    /// wire format's sizes.
    pub open spec fn wf(self) -> bool {
        &&& forall|k: int| 0 <= k < self.chapters_@.len() ==> chapter_wf(#[trigger] self.chapters_@[k])
        &&& chapters_size_from(self.chapters_@, 0) + 64 <= u64::MAX
    }

    pub fn new() -> (c: Chapters)
        ensures
            c.chapters_@.len() == 0,
    {
        Chapters { chapters_: Vec::new() }
    }

    pub fn count(&self) -> (r: usize)
        ensures
            r == self.chapters_@.len(),
    {
        self.chapters_.len()
    }

    pub fn AddChapter(&mut self, chapter: Chapter)
        ensures
            final(self).chapters_@ == old(self).chapters_@.push(chapter),
    {
        self.chapters_.push(chapter);
    }

    /// Exact byte count of the element's children: each chapter atom with
    /// its own header.
    pub fn PayloadSize(&self) -> (r: u64)
        requires
            self.wf(),
        ensures
            r == chapters_size_from(self.chapters_@, 0),
    {
        let mut payload_size: u64 = 0;
        let n = self.chapters_.len();
        let mut i: usize = 0;
        while i < n
            invariant
                self.wf(),
                n == self.chapters_@.len(),
                i <= n,
                payload_size + chapters_size_from(self.chapters_@, i as int) == chapters_size_from(
                    self.chapters_@,
                    0,
                ),
            decreases n - i,
        {
            proof {
                lemma_chapters_size_nonneg(self.chapters_@, i + 1);
            }
            let chapter_payload_size = self.chapters_[i].PayloadSize();
            payload_size += EbmlMasterElementSize(ids::MkvChapterAtom, chapter_payload_size)
                + chapter_payload_size;
            i = i + 1;
        }
        payload_size
    }

    /// Write the Chapters element: its header, one edition entry, and the
    /// chapter atoms; the body checks that the edition entry spans exactly
    /// the declared bytes before reporting success.
    pub fn Write<W: Writer>(&self, writer: &mut W) -> (r: bool)
        requires
            old(writer).inv(),
            self.wf(),
        ensures
            final(writer).inv(),
            final(writer).is_seekable() == old(writer).is_seekable(),
            r ==> extends(*old(writer), *final(writer)) && final(writer).pos() == old(writer).pos()
                + crate::util::uint_width(ids::MkvChapters as int) + crate::util::coded_width(
                chapters_size_from(self.chapters_@, 0),
            ) + master_elem_size(ids::MkvEditionEntry as int) + chapters_size_from(
                self.chapters_@,
                0,
            ),
    {
        proof {
            writer.lemma_inv();
        }
        let payload_size = self.PayloadSize();
        let edition_size = EbmlMasterElementSize(ids::MkvEditionEntry, payload_size)
            + payload_size;

        let ghost w0 = *writer;
        if !WriteEbmlMasterElement(writer, ids::MkvChapters, payload_size) {
            return false;
        }
        proof {
            lemma_master_header_bytes_len(ids::MkvChapters as int, payload_size as int);
            lemma_write_extends(
                w0,
                *writer,
                master_header_bytes(ids::MkvChapters as int, payload_size as int),
            );
        }
        let start = writer.get_position();

        let ghost w1 = *writer;
        if !WriteEbmlMasterElement(writer, ids::MkvEditionEntry, payload_size) {
            return false;
        }
        proof {
            lemma_master_header_bytes_len(ids::MkvEditionEntry as int, payload_size as int);
            lemma_write_extends(
                w1,
                *writer,
                master_header_bytes(ids::MkvEditionEntry as int, payload_size as int),
            );
            lemma_extends_trans(w0, w1, *writer);
        }
        let n = self.chapters_.len();
        let mut i: usize = 0;
        while i < n
            invariant
                self.wf(),
                n == self.chapters_@.len(),
                i <= n,
                writer.inv(),
                writer.is_seekable() == old(writer).is_seekable(),
                extends(w0, *writer),
            decreases n - i,
        {
            let ghost wi = *writer;
            if !self.chapters_[i].Write(writer) {
                return false;
            }
            proof {
                lemma_extends_trans(w0, wi, *writer);
            }
            i = i + 1;
        }
        let stop = writer.get_position();
        if stop < start || stop - start != edition_size {
            return false;
        }
        true
    }
}

} // verus!
