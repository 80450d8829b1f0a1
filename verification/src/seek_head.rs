//! The SeekHead index: a fixed-capacity table of (id, position) entries.
//!
//! Space for the element is reserved up front as a void element sized to
//! the theoretical maximum entry width, so the reservation never needs
//! resizing; finalization seeks back, writes the populated entries, and
//! pads the unused remainder with a fresh void element.

use vstd::prelude::*;

use crate::ids;
use crate::util::{
    lemma_master_header_bytes_len, lemma_uint_elem_bytes_len, master_elem_size,
    master_header_bytes, uint_elem_bytes, uint_elem_size, uint_width, void_bytes,
    EbmlElementSizeArgU64, EbmlMasterElementSize, WriteEbmlElementArgU64, WriteEbmlMasterElement,
    WriteVoidElement,
};
use crate::writer::{lemma_write_at_concat, write_at, Writer};

verus! {

/// Number of seek entries the table reserves room for.
pub const kSeekEntryCount: usize = 5;

/// The first slot holding a zero (free) id, or the table's length when
/// every slot is taken.
pub open spec fn first_free(entry_ids: Seq<u32>) -> int
    decreases entry_ids.len(),
{
    if entry_ids.len() == 0 {
        0
    } else if entry_ids[0] == 0 {
        0
    } else {
        1 + first_free(entry_ids.drop_first())
    }
}

proof fn lemma_first_free_at(entry_ids: Seq<u32>, i: int)
    requires
        0 <= i < entry_ids.len(),
        entry_ids[i] == 0,
        forall|k: int| 0 <= k < i ==> entry_ids[k] != 0,
    ensures
        first_free(entry_ids) == i,
    decreases entry_ids.len(),
{
    if i > 0 {
        lemma_first_free_at(entry_ids.drop_first(), i - 1);
    }
}

proof fn lemma_first_free_full(entry_ids: Seq<u32>)
    requires
        forall|k: int| 0 <= k < entry_ids.len() ==> entry_ids[k] != 0,
    ensures
        first_free(entry_ids) == entry_ids.len(),
    decreases entry_ids.len(),
{
    if entry_ids.len() > 0 {
        lemma_first_free_full(entry_ids.drop_first());
    }
}

/// The declared payload of one populated entry: its SeekID and
/// SeekPosition elements.
pub open spec fn seek_entry_payload(id: u32, position: u64) -> int {
    uint_elem_size(ids::MkvSeekID as int, id as int, 0) + uint_elem_size(
        ids::MkvSeekPosition as int,
        position as int,
        0,
    )
}

/// The declared payload of the SeekHead from slot `i` on: one Seek
/// element, header per the id-derived account, per populated slot.
pub open spec fn seek_payload_from(entry_ids: Seq<u32>, entry_pos: Seq<u64>, i: int) -> int
    decreases entry_ids.len() - i,
{
    if i < 0 || i >= entry_ids.len() {
        0
    } else {
        (if entry_ids[i] != 0 {
            master_elem_size(ids::MkvSeek as int) + seek_entry_payload(entry_ids[i], entry_pos[i])
        } else {
            0
        }) + seek_payload_from(entry_ids, entry_pos, i + 1)
    }
}

/// The bytes of one populated slot's Seek element: its header followed by
/// the SeekID and SeekPosition elements; a free slot writes nothing.
pub open spec fn seek_slot_bytes(entry_ids: Seq<u32>, entry_pos: Seq<u64>, k: int) -> Seq<u8> {
    if 0 <= k < entry_ids.len() && entry_ids[k] != 0 {
        master_header_bytes(ids::MkvSeek as int, seek_entry_payload(entry_ids[k], entry_pos[k]))
            + uint_elem_bytes(
            ids::MkvSeekID as int,
            entry_ids[k] as int,
            uint_width(entry_ids[k] as int),
        ) + uint_elem_bytes(
            ids::MkvSeekPosition as int,
            entry_pos[k] as int,
            uint_width(entry_pos[k] as int),
        )
    } else {
        Seq::<u8>::empty()
    }
}

/// The bytes of the populated entries in the first `k` slots, in slot
/// order.
pub open spec fn seek_entries_upto(entry_ids: Seq<u32>, entry_pos: Seq<u64>, k: int) -> Seq<u8>
    decreases k,
{
    if k <= 0 {
        Seq::<u8>::empty()
    } else {
        seek_entries_upto(entry_ids, entry_pos, k - 1) + seek_slot_bytes(
            entry_ids,
            entry_pos,
            k - 1,
        )
    }
}

/// The byte span of the whole reservation: the SeekHead header account
/// plus every slot at its widest.
pub open spec fn seek_total_size() -> int {
    master_elem_size(ids::MkvSeekHead as int) + kSeekEntryCount * (master_elem_size(
        ids::MkvSeek as int,
    ) + uint_elem_size(ids::MkvSeekID as int, 0xffffffff, 0) + uint_elem_size(
        ids::MkvSeekPosition as int,
        0xffffffffffffffff,
        0,
    ))
}

proof fn lemma_seek_payload_nonneg(entry_ids: Seq<u32>, entry_pos: Seq<u64>, i: int)
    ensures
        seek_payload_from(entry_ids, entry_pos, i) >= 0,
    decreases entry_ids.len() - i,
{
    if 0 <= i < entry_ids.len() {
        lemma_seek_payload_nonneg(entry_ids, entry_pos, i + 1);
    }
}

/// A fixed-capacity seek index over the same reserve-then-backpatch
/// protocol the clusters use.
pub struct SeekHead {
    /// Seek entry id element list; 0 marks a free slot.
    pub seek_entry_id_: Vec<u32>,
    /// Seek entry position element list.
    pub seek_entry_pos_: Vec<u64>,
    /// The stream position of the SeekHead element's reservation.
    pub start_pos_: u64,
}

impl SeekHead {
    /// The table's shape: exactly `kSeekEntryCount` slots on both lists.
    pub open spec fn wf(self) -> bool {
        self.seek_entry_id_@.len() == kSeekEntryCount && self.seek_entry_pos_@.len()
            == kSeekEntryCount
    }

    pub fn new() -> (s: SeekHead)
        ensures
            s.wf(),
            forall|i: int| 0 <= i < kSeekEntryCount ==> s.seek_entry_id_@[i] == 0,
            forall|i: int| 0 <= i < kSeekEntryCount ==> s.seek_entry_pos_@[i] == 0,
            s.start_pos_ == 0,
    {
        let mut entry_ids: Vec<u32> = Vec::new();
        let mut entry_pos: Vec<u64> = Vec::new();
        let mut i: usize = 0;
        while i < kSeekEntryCount
            invariant
                i <= kSeekEntryCount,
                entry_ids@.len() == i,
                entry_pos@.len() == i,
                forall|k: int| 0 <= k < i ==> entry_ids@[k] == 0,
                forall|k: int| 0 <= k < i ==> entry_pos@[k] == 0,
            decreases kSeekEntryCount - i,
        {
            entry_ids.push(0);
            entry_pos.push(0);
            i = i + 1;
        }
        SeekHead { seek_entry_id_: entry_ids, seek_entry_pos_: entry_pos, start_pos_: 0 }
    }

    /// The byte width reserved for one entry: a Seek element holding the
    /// widest possible SeekID and SeekPosition payloads.
    pub fn MaxEntrySize(&self) -> (r: u64)
        ensures
            r == master_elem_size(ids::MkvSeek as int) + uint_elem_size(
                ids::MkvSeekID as int,
                0xffffffff,
                0,
            ) + uint_elem_size(ids::MkvSeekPosition as int, 0xffffffffffffffff, 0),
    {
        let max_entry_payload_size = EbmlElementSizeArgU64(ids::MkvSeekID, 0xffffffff)
            + EbmlElementSizeArgU64(ids::MkvSeekPosition, 0xffffffffffffffff);
        let max_entry_size = EbmlMasterElementSize(ids::MkvSeek, max_entry_payload_size)
            + max_entry_payload_size;
        max_entry_size
    }

    /// Reserve the whole index as one void element and record where the
    /// reservation starts.
    pub fn Write<W: Writer>(&mut self, writer: &mut W) -> (r: bool)
        requires
            old(writer).inv(),
        ensures
            final(writer).inv(),
            final(writer).is_seekable() == old(writer).is_seekable(),
            final(self).seek_entry_id_ == old(self).seek_entry_id_,
            final(self).seek_entry_pos_ == old(self).seek_entry_pos_,
            r ==> ({
                let total = master_elem_size(ids::MkvSeekHead as int) + kSeekEntryCount * (
                master_elem_size(ids::MkvSeek as int) + uint_elem_size(
                    ids::MkvSeekID as int,
                    0xffffffff,
                    0,
                ) + uint_elem_size(ids::MkvSeekPosition as int, 0xffffffffffffffff, 0));
                &&& final(self).start_pos_ == old(writer).pos()
                &&& final(writer).out() == write_at(
                    old(writer).out(),
                    old(writer).pos(),
                    void_bytes(total),
                )
                &&& final(writer).pos() == old(writer).pos() + total
            }),
    {
        let entry_size = (kSeekEntryCount as u64) * self.MaxEntrySize();
        let size = EbmlMasterElementSize(ids::MkvSeekHead, entry_size);

        let start_pos = writer.get_position();
        let bytes_written = WriteVoidElement(writer, size + entry_size);
        if bytes_written == 0 {
            return false;
        }
        self.start_pos_ = start_pos;
        true
    }

    /// Put an entry in the first free slot; fails when the table is full.
    pub fn AddSeekEntry(&mut self, id: u32, pos: u64) -> (r: bool)
        requires
            old(self).wf(),
        ensures
            final(self).wf(),
            final(self).start_pos_ == old(self).start_pos_,
            r == (first_free(old(self).seek_entry_id_@) < kSeekEntryCount),
            r ==> final(self).seek_entry_id_@ == old(self).seek_entry_id_@.update(
                first_free(old(self).seek_entry_id_@),
                id,
            ) && final(self).seek_entry_pos_@ == old(self).seek_entry_pos_@.update(
                first_free(old(self).seek_entry_id_@),
                pos,
            ),
            !r ==> *final(self) == *old(self),
    {
        let mut i: usize = 0;
        while i < kSeekEntryCount
            invariant
                old(self).wf(),
                i <= kSeekEntryCount,
                *self == *old(self),
                forall|k: int| 0 <= k < i ==> self.seek_entry_id_@[k] != 0,
            decreases kSeekEntryCount - i,
        {
            if self.seek_entry_id_[i] == 0 {
                proof {
                    lemma_first_free_at(self.seek_entry_id_@, i as int);
                }
                self.seek_entry_id_.set(i, id);
                self.seek_entry_pos_.set(i, pos);
                return true;
            }
            i = i + 1;
        }
        proof {
            lemma_first_free_full(self.seek_entry_id_@);
        }
        false
    }

    /// The id in a slot; an out-of-range index reads as all-ones.
    pub fn GetId(&self, index: usize) -> (r: u32)
        requires
            self.wf(),
        ensures
            r == if index < kSeekEntryCount {
                self.seek_entry_id_@[index as int]
            } else {
                u32::MAX
            },
    {
        if index >= kSeekEntryCount {
            u32::MAX
        } else {
            self.seek_entry_id_[index]
        }
    }

    /// The position in a slot; an out-of-range index reads as all-ones.
    pub fn GetPosition(&self, index: usize) -> (r: u64)
        requires
            self.wf(),
        ensures
            r == if index < kSeekEntryCount {
                self.seek_entry_pos_@[index as int]
            } else {
                u64::MAX
            },
    {
        if index >= kSeekEntryCount {
            u64::MAX
        } else {
            self.seek_entry_pos_[index]
        }
    }

    /// Overwrite one slot.
    pub fn SetSeekEntry(&mut self, index: usize, id: u32, position: u64) -> (r: bool)
        requires
            old(self).wf(),
        ensures
            final(self).wf(),
            final(self).start_pos_ == old(self).start_pos_,
            r == (index < kSeekEntryCount),
            r ==> final(self).seek_entry_id_@ == old(self).seek_entry_id_@.update(
                index as int,
                id,
            ) && final(self).seek_entry_pos_@ == old(self).seek_entry_pos_@.update(
                index as int,
                position,
            ),
            !r ==> *final(self) == *old(self),
    {
        if index >= kSeekEntryCount {
            return false;
        }
        self.seek_entry_id_.set(index, id);
        self.seek_entry_pos_.set(index, position);
        true
    }

    /// Seek back to the reservation and write the populated entries in
    /// slot order, padding what remains of the reserved space with a void
    /// element; the write offset is restored afterwards. On a sink that
    /// cannot seek, or with no populated slot, there is nothing to do.
    /// Bytes before the reservation stay as they were.
    #[verifier::loop_isolation(false)]
    #[verifier::rlimit(100)]
    pub fn Finalize<W: Writer>(&self, writer: &mut W) -> (r: bool)
        requires
            old(writer).inv(),
            self.wf(),
        ensures
            final(writer).inv(),
            final(writer).is_seekable() == old(writer).is_seekable(),
            !old(writer).is_seekable() ==> r && final(writer).out() == old(writer).out() && final(writer).pos() == old(writer).pos(),
            old(writer).is_seekable() && seek_payload_from(
                self.seek_entry_id_@,
                self.seek_entry_pos_@,
                0,
            ) == 0 ==> r && final(writer).out() == old(writer).out() && final(writer).pos() == old(writer).pos(),
            r && old(writer).is_seekable() && seek_payload_from(
                self.seek_entry_id_@,
                self.seek_entry_pos_@,
                0,
            ) > 0 ==> ({
                let payload = seek_payload_from(self.seek_entry_id_@, self.seek_entry_pos_@, 0);
                let written = master_header_bytes(ids::MkvSeekHead as int, payload)
                    + seek_entries_upto(
                    self.seek_entry_id_@,
                    self.seek_entry_pos_@,
                    kSeekEntryCount as int,
                );
                let body = written + void_bytes(seek_total_size() - written.len());
                &&& written.len() <= seek_total_size()
                &&& final(writer).out() == write_at(
                    old(writer).out(),
                    self.start_pos_ as int,
                    body,
                )
                &&& final(writer).pos() == old(writer).pos()
            }),
            r && old(writer).is_seekable() ==> final(writer).pos() == old(writer).pos() && forall|j: int|
                0 <= j < self.start_pos_ && j < old(writer).out().len() ==> final(writer).out()[j]
                    == old(writer).out()[j],
    {
        let ghost out0 = old(writer).out();
        let ghost p0 = old(writer).pos();
        let ghost eids = self.seek_entry_id_@;
        let ghost epos = self.seek_entry_pos_@;
        proof {
            writer.lemma_inv();
        }
        if !writer.seekable() {
            return true;
        }
        let mut payload_size: u64 = 0;
        let mut entry_size: Vec<u64> = Vec::new();
        let mut i: usize = 0;
        while i < kSeekEntryCount
            invariant
                i <= kSeekEntryCount,
                entry_size@.len() == i,
                payload_size <= i * 40,
                payload_size + seek_payload_from(eids, epos, i as int) == seek_payload_from(
                    eids,
                    epos,
                    0,
                ),
                forall|m: int|
                    0 <= m < i ==> #[trigger] entry_size@[m] == (if eids[m] != 0 {
                        seek_entry_payload(eids[m], epos[m])
                    } else {
                        0
                    }),
            decreases kSeekEntryCount - i,
        {
            proof {
                lemma_seek_payload_nonneg(eids, epos, i + 1);
            }
            if self.seek_entry_id_[i] != 0 {
                let mut es = EbmlElementSizeArgU64(ids::MkvSeekID, self.seek_entry_id_[i] as u64);
                es += EbmlElementSizeArgU64(ids::MkvSeekPosition, self.seek_entry_pos_[i]);
                payload_size += EbmlMasterElementSize(ids::MkvSeek, es) + es;
                entry_size.push(es);
            } else {
                entry_size.push(0);
            }
            i = i + 1;
        }
        // No seek entries.
        if payload_size == 0 {
            return true;
        }
        let pos = writer.get_position();
        if !writer.set_position(self.start_pos_) {
            return false;
        }
        proof {
            writer.lemma_inv();
        }
        let ghost start = self.start_pos_ as int;
        let ghost out1 = writer.out();
        if !WriteEbmlMasterElement(writer, ids::MkvSeekHead, payload_size) {
            return false;
        }
        let ghost header = master_header_bytes(ids::MkvSeekHead as int, payload_size as int);
        proof {
            writer.lemma_inv();
            lemma_master_header_bytes_len(ids::MkvSeekHead as int, payload_size as int);
            assert(header + seek_entries_upto(eids, epos, 0) =~= header);
        }
        let mut k: usize = 0;
        while k < kSeekEntryCount
            invariant
                entry_size@.len() == kSeekEntryCount,
                k <= kSeekEntryCount,
                writer.inv(),
                writer.is_seekable() == old(writer).is_seekable(),
                writer.out() == write_at(out1, start, header + seek_entries_upto(eids, epos, k as int)),
                writer.pos() == start + (header + seek_entries_upto(eids, epos, k as int)).len(),
            decreases kSeekEntryCount - k,
        {
            let ghost acc = header + seek_entries_upto(eids, epos, k as int);
            if self.seek_entry_id_[k] != 0 {
                let ghost wk = *writer;
                if !WriteEbmlMasterElement(writer, ids::MkvSeek, entry_size[k]) {
                    return false;
                }
                let ghost mh = master_header_bytes(ids::MkvSeek as int, entry_size@[k as int] as int);
                proof {
                    writer.lemma_inv();
                    lemma_master_header_bytes_len(ids::MkvSeek as int, entry_size@[k as int] as int);
                    lemma_write_at_concat(out1, start, acc, mh);
                }
                if !WriteEbmlElementArgU64(writer, ids::MkvSeekID, self.seek_entry_id_[k] as u64) {
                    return false;
                }
                let ghost ide = uint_elem_bytes(
                    ids::MkvSeekID as int,
                    eids[k as int] as int,
                    uint_width(eids[k as int] as int),
                );
                proof {
                    writer.lemma_inv();
                    lemma_uint_elem_bytes_len(
                        ids::MkvSeekID as int,
                        eids[k as int] as int,
                        uint_width(eids[k as int] as int),
                    );
                    lemma_write_at_concat(out1, start, acc + mh, ide);
                }
                if !WriteEbmlElementArgU64(writer, ids::MkvSeekPosition, self.seek_entry_pos_[k]) {
                    return false;
                }
                let ghost pose = uint_elem_bytes(
                    ids::MkvSeekPosition as int,
                    epos[k as int] as int,
                    uint_width(epos[k as int] as int),
                );
                proof {
                    writer.lemma_inv();
                    lemma_uint_elem_bytes_len(
                        ids::MkvSeekPosition as int,
                        epos[k as int] as int,
                        uint_width(epos[k as int] as int),
                    );
                    lemma_write_at_concat(out1, start, acc + mh + ide, pose);
                    assert(acc + mh + ide + pose =~= header + seek_entries_upto(
                        eids,
                        epos,
                        k + 1,
                    ));
                }
            } else {
                proof {
                    assert(acc =~= header + seek_entries_upto(eids, epos, k + 1));
                }
            }
            k = k + 1;
        }
        let total_entry_size = (kSeekEntryCount as u64) * self.MaxEntrySize();
        let total_size = EbmlMasterElementSize(ids::MkvSeekHead, total_entry_size)
            + total_entry_size;
        let here = writer.get_position();
        if here < self.start_pos_ || here - self.start_pos_ > total_size {
            return false;
        }
        let size_left = total_size - (here - self.start_pos_);

        let ghost written = header + seek_entries_upto(eids, epos, kSeekEntryCount as int);
        let ghost w_bv = *writer;
        let bytes_written = WriteVoidElement(writer, size_left);
        if bytes_written == 0 {
            return false;
        }
        proof {
            writer.lemma_inv();
            lemma_write_at_concat(out1, start, written, void_bytes(size_left as int));
            crate::writer::lemma_write_at_len(
                out1,
                start,
                written + void_bytes(size_left as int),
            );
            assert forall|j: int| 0 <= j < start && j < out0.len() implies writer.out()[j]
                == out0[j] by {
                assert(writer.out().take(start)[j] == out1.take(start)[j]);
            }
        }
        if !writer.set_position(pos) {
            return false;
        }
        true
    }
}

} // verus!