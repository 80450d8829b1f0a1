//! The Cues element: the seek index of cue points.

use vstd::prelude::*;

use crate::cue_point::{cue_point_payload, CuePoint};
use crate::ids;
use crate::util::{
    coded_width, lemma_master_header_bytes_len, master_elem_size, master_header_bytes,
    uint_elem_size, uint_width, EbmlMasterElementSize, WriteEbmlMasterElement,
};
use crate::writer::{extends, lemma_extends_trans, lemma_write_extends, Writer};

verus! {

/// Byte count of the cue points from index `i` on, headers included.
pub open spec fn cues_size_from(cs: Seq<CuePoint>, i: int) -> int
    decreases cs.len() - i,
{
    if i < 0 || i >= cs.len() {
        0
    } else {
        uint_elem_size(ids::MkvCuePoint as int, cue_point_payload(cs[i]), 0) + cue_point_payload(
            cs[i],
        ) + cues_size_from(cs, i + 1)
    }
}

proof fn lemma_cues_size_nonneg(cs: Seq<CuePoint>, i: int)
    ensures
        cues_size_from(cs, i) >= 0,
    decreases cs.len() - i,
{
    if 0 <= i < cs.len() {
        lemma_cues_size_nonneg(cs, i + 1);
    }
}

/// The seek index of a segment.
#[derive(Debug)]
pub struct Cues {
    /// CuePoint list.
    pub cue_entries_: Vec<CuePoint>,
    /// Whether added cue points write their block number out when it is
    /// not the default of 1.
    pub output_block_number_: bool,
}

impl Cues {
    /// The whole index fits the wire format's sizes.
    pub open spec fn wf(self) -> bool {
        cues_size_from(self.cue_entries_@, 0) + 64 <= u64::MAX
    }

    pub fn cue_entries_size(&self) -> (r: usize)
        ensures
            r == self.cue_entries_@.len(),
    {
        self.cue_entries_.len()
    }

    pub fn set_output_block_number(&mut self, output_block_number: bool)
        ensures
            final(self).output_block_number_ == output_block_number,
            final(self).cue_entries_ == old(self).cue_entries_,
    {
        self.output_block_number_ = output_block_number;
    }

    pub fn output_block_number(&self) -> (r: bool)
        ensures
            r == self.output_block_number_,
    {
        self.output_block_number_
    }

    pub fn new() -> (c: Cues)
        ensures
            c.cue_entries_@.len() == 0,
            c.output_block_number_,
    {
        Cues { cue_entries_: Vec::new(), output_block_number_: true }
    }

    /// Append a cue point, stamped with this index's block-number policy.
    pub fn AddCue(&mut self, cue: CuePoint) -> (r: bool)
        ensures
            r,
            final(self).output_block_number_ == old(self).output_block_number_,
            final(self).cue_entries_@ == old(self).cue_entries_@.push(
                CuePoint { output_block_number_: old(self).output_block_number_, ..cue },
            ),
    {
        let mut cue = cue;
        cue.set_output_block_number(self.output_block_number_);
        self.cue_entries_.push(cue);
        true
    }

    /// The cue point at an index, if there is one.
    pub fn GetCueByIndex(&self, index: usize) -> (r: Option<&CuePoint>)
        ensures
            match r {
                Some(c) => index < self.cue_entries_@.len() && *c
                    == self.cue_entries_@[index as int],
                None => index >= self.cue_entries_@.len(),
            },
    {
        if index >= self.cue_entries_.len() {
            return None;
        }
        Some(&self.cue_entries_[index])
    }

    /// Declared size of the whole element, header included.
    pub fn Size(&self) -> (r: u64)
        requires
            self.wf(),
        ensures
            r == cues_size_from(self.cue_entries_@, 0) + master_elem_size(ids::MkvCues as int),
    {
        let mut size: u64 = 0;
        let n = self.cue_entries_.len();
        let mut i: usize = 0;
        while i < n
            invariant
                self.wf(),
                n == self.cue_entries_@.len(),
                i <= n,
                size + cues_size_from(self.cue_entries_@, i as int) == cues_size_from(
                    self.cue_entries_@,
                    0,
                ),
            decreases n - i,
        {
            proof {
                lemma_cues_size_nonneg(self.cue_entries_@, i + 1);
            }
            size += self.cue_entries_[i].Size();
            i = i + 1;
        }
        size + EbmlMasterElementSize(ids::MkvCues, size)
    }

    /// Write the element: its header, then exactly the declared bytes of
    /// cue points, which the body checks before reporting success.
    pub fn Write<W: Writer>(&self, writer: &mut W) -> (r: bool)
        requires
            old(writer).inv(),
            self.wf(),
        ensures
            final(writer).inv(),
            final(writer).is_seekable() == old(writer).is_seekable(),
            r ==> extends(*old(writer), *final(writer)) && final(writer).pos() == old(writer).pos()
                + uint_width(ids::MkvCues as int) + coded_width(
                cues_size_from(self.cue_entries_@, 0),
            ) + cues_size_from(self.cue_entries_@, 0),
    {
        proof {
            writer.lemma_inv();
        }
        let mut size: u64 = 0;
        let n = self.cue_entries_.len();
        let mut i: usize = 0;
        while i < n
            invariant
                self.wf(),
                n == self.cue_entries_@.len(),
                i <= n,
                size + cues_size_from(self.cue_entries_@, i as int) == cues_size_from(
                    self.cue_entries_@,
                    0,
                ),
            decreases n - i,
        {
            proof {
                lemma_cues_size_nonneg(self.cue_entries_@, i + 1);
            }
            size += self.cue_entries_[i].Size();
            i = i + 1;
        }
        let ghost w0 = *writer;
        if !WriteEbmlMasterElement(writer, ids::MkvCues, size) {
            return false;
        }
        proof {
            lemma_master_header_bytes_len(ids::MkvCues as int, size as int);
            lemma_write_extends(
                w0,
                *writer,
                master_header_bytes(ids::MkvCues as int, size as int),
            );
        }
        let payload_position = writer.get_position();
        let mut k: usize = 0;
        while k < n
            invariant
                self.wf(),
                n == self.cue_entries_@.len(),
                k <= n,
                writer.inv(),
                writer.is_seekable() == old(writer).is_seekable(),
                extends(w0, *writer),
            decreases n - k,
        {
            let ghost wk = *writer;
            if !self.cue_entries_[k].Write(writer) {
                return false;
            }
            proof {
                lemma_extends_trans(w0, wk, *writer);
            }
            k = k + 1;
        }
        let stop_position = writer.get_position();
        if stop_position < payload_position || stop_position - payload_position != size {
            return false;
        }
        true
    }
}

} // verus!
