//! A frame: one encoded access unit and its metadata, together with its two
//! wire encodings — the compact SimpleBlock and the verbose
//! Block-in-BlockGroup form.

use vstd::prelude::*;
use vstd::slice::slice_to_vec;

use crate::ids;
use crate::util::{
    be_bytes, bin_elem_bytes, bin_elem_size, coded_width, i64_bits, i64_to_bits, id_bytes,
    int_elem_bytes, int_elem_size, lemma_be_bytes_len, lemma_bin_elem_bytes_len,
    lemma_int_elem_bytes_len, lemma_master_header_bytes_len, lemma_uint_elem_bytes_len,
    lemma_vint_bytes_len, master_elem_size, master_header_bytes, uint_elem_bytes, uint_elem_size,
    uint_width, vint_bytes, EbmlElementSizeArgI64, EbmlElementSizeArgSlice, EbmlElementSizeArgU64,
    EbmlMasterElementSize, GetCodedUIntSize, GetUIntSize, SerializeInt, WriteEbmlElementArgI64,
    WriteEbmlElementArgSlice, WriteEbmlElementArgU64, WriteEbmlMasterElement, WriteID, WriteUInt,
};
use crate::writer::{lemma_write_at_concat, write_at, Writer};

verus! {

/// Track numbers must stay in [1,126] so a block header fits 4 bytes.
pub const MAX_TRACK_NUMBER: u64 = 126;

/// Two frames agree on every field (payloads by content).
pub open spec fn frame_like(a: Frame, b: Frame) -> bool {
    &&& a.add_id_ == b.add_id_
    &&& a.additional_@ == b.additional_@
    &&& a.duration_ == b.duration_
    &&& a.duration_set_ == b.duration_set_
    &&& a.frame_@ == b.frame_@
    &&& a.is_key_ == b.is_key_
    &&& a.track_number_ == b.track_number_
    &&& a.timestamp_ == b.timestamp_
    &&& a.discard_padding_ == b.discard_padding_
    &&& a.reference_block_timestamp_ == b.reference_block_timestamp_
    &&& a.reference_block_timestamp_set_ == b.reference_block_timestamp_set_
}

/// The compact SimpleBlock encoding over plain values: id, size declaring
/// 4 header bytes plus the payload, track var-uint, 2-byte relative
/// timecode, flags, then the raw payload.
pub open spec fn simple_block_bytes_of(track: int, timecode: int, key: bool, data: Seq<u8>) -> Seq<
    u8,
> {
    id_bytes(ids::MkvSimpleBlock as int) + vint_bytes(
        4 + data.len() as int,
        coded_width(4 + data.len() as int),
    ) + vint_bytes(track, coded_width(track)) + be_bytes(i64_bits(timecode), 2) + be_bytes(
        if key {
            0x80
        } else {
            0
        },
        1,
    ) + data
}

/// Data that will be written to a block, with its timing and flags.
#[derive(Debug, Clone)]
pub struct Frame {
    /// Id of the additional data.
    pub add_id_: u64,
    /// Additional (side-data) payload; empty when absent.
    pub additional_: Vec<u8>,
    /// Duration of the frame in nanoseconds.
    pub duration_: u64,
    /// Whether a duration has been attached; an attached duration forces
    /// the Block-in-BlockGroup encoding.
    pub duration_set_: bool,
    /// The encoded payload.
    pub frame_: Vec<u8>,
    /// Whether the block's key flag should be set.
    pub is_key_: bool,
    /// Track the data belongs to.
    pub track_number_: u64,
    /// Timestamp of the data in nanoseconds, absolute.
    pub timestamp_: u64,
    /// Discard padding for the frame.
    pub discard_padding_: i64,
    /// Reference block timestamp.
    pub reference_block_timestamp_: i64,
    /// Whether the reference block timestamp has been attached.
    pub reference_block_timestamp_set_: bool,
}

impl Frame {
    /// A frame qualifies for the compact SimpleBlock form exactly when it
    /// carries none of the fields only a BlockGroup can hold.
    pub open spec fn can_be_simple_block_spec(self) -> bool {
        self.additional_@.len() == 0 && self.discard_padding_ == 0 && !self.duration_set_
    }

    /// Validity: a payload exists, the track number is in range, and a
    /// frame that needs the BlockGroup form is a key frame or carries a
    /// reference timestamp.
    pub open spec fn is_valid_spec(self) -> bool {
        &&& self.frame_@.len() > 0
        &&& 1 <= self.track_number_ <= MAX_TRACK_NUMBER
        &&& (self.can_be_simple_block_spec() || self.is_key_
            || self.reference_block_timestamp_set_)
    }

    /// Payload lengths small enough that every element size computed from
    /// this frame fits the wire format's 64-bit sizes.
    pub open spec fn wf(self) -> bool {
        self.frame_@.len() + self.additional_@.len() + 200 <= u64::MAX
    }

    pub fn add_id(&self) -> (r: u64)
        ensures
            r == self.add_id_,
    {
        self.add_id_
    }

    pub fn additional(&self) -> (r: &Vec<u8>)
        ensures
            r@ == self.additional_@,
    {
        &self.additional_
    }

    pub fn additional_length(&self) -> (r: u64)
        ensures
            r == self.additional_@.len(),
    {
        self.additional_.len() as u64
    }

    pub fn set_duration(&mut self, duration: u64)
        ensures
            *final(self) == (Frame { duration_: duration, duration_set_: true, ..*old(self) }),
    {
        self.duration_ = duration;
        self.duration_set_ = true;
    }

    pub fn duration(&self) -> (r: u64)
        ensures
            r == self.duration_,
    {
        self.duration_
    }

    pub fn duration_set(&self) -> (r: bool)
        ensures
            r == self.duration_set_,
    {
        self.duration_set_
    }

    pub fn frame(&self) -> (r: &Vec<u8>)
        ensures
            r@ == self.frame_@,
    {
        &self.frame_
    }

    pub fn set_is_key(&mut self, key: bool)
        ensures
            *final(self) == (Frame { is_key_: key, ..*old(self) }),
    {
        self.is_key_ = key;
    }

    pub fn is_key(&self) -> (r: bool)
        ensures
            r == self.is_key_,
    {
        self.is_key_
    }

    pub fn length(&self) -> (r: u64)
        ensures
            r == self.frame_@.len(),
    {
        self.frame_.len() as u64
    }

    pub fn set_track_number(&mut self, track_number: u64)
        ensures
            *final(self) == (Frame { track_number_: track_number, ..*old(self) }),
    {
        self.track_number_ = track_number;
    }

    pub fn track_number(&self) -> (r: u64)
        ensures
            r == self.track_number_,
    {
        self.track_number_
    }

    pub fn set_timestamp(&mut self, timestamp: u64)
        ensures
            *final(self) == (Frame { timestamp_: timestamp, ..*old(self) }),
    {
        self.timestamp_ = timestamp;
    }

    pub fn timestamp(&self) -> (r: u64)
        ensures
            r == self.timestamp_,
    {
        self.timestamp_
    }

    pub fn set_discard_padding(&mut self, discard_padding: i64)
        ensures
            *final(self) == (Frame { discard_padding_: discard_padding, ..*old(self) }),
    {
        self.discard_padding_ = discard_padding;
    }

    pub fn discard_padding(&self) -> (r: i64)
        ensures
            r == self.discard_padding_,
    {
        self.discard_padding_
    }

    pub fn set_reference_block_timestamp(&mut self, reference_block_timestamp: i64)
        ensures
            *final(self) == (Frame {
                reference_block_timestamp_: reference_block_timestamp,
                reference_block_timestamp_set_: true,
                ..*old(self)
            }),
    {
        self.reference_block_timestamp_ = reference_block_timestamp;
        self.reference_block_timestamp_set_ = true;
    }

    pub fn reference_block_timestamp(&self) -> (r: i64)
        ensures
            r == self.reference_block_timestamp_,
    {
        self.reference_block_timestamp_
    }

    pub fn reference_block_timestamp_set(&self) -> (r: bool)
        ensures
            r == self.reference_block_timestamp_set_,
    {
        self.reference_block_timestamp_set_
    }

    pub fn new() -> (f: Frame)
        ensures
            f.add_id_ == 0,
            f.additional_@ == Seq::<u8>::empty(),
            f.duration_ == 0,
            !f.duration_set_,
            f.frame_@ == Seq::<u8>::empty(),
            !f.is_key_,
            f.track_number_ == 0,
            f.timestamp_ == 0,
            f.discard_padding_ == 0,
            f.reference_block_timestamp_ == 0,
            !f.reference_block_timestamp_set_,
    {
        Frame {
            add_id_: 0,
            additional_: Vec::new(),
            duration_: 0,
            duration_set_: false,
            frame_: Vec::new(),
            is_key_: false,
            track_number_: 0,
            timestamp_: 0,
            discard_padding_: 0,
            reference_block_timestamp_: 0,
            reference_block_timestamp_set_: false,
        }
    }

    /// A field-for-field copy whose relation to the original is known.
    pub fn duplicate(&self) -> (r: Frame)
        ensures
            r.add_id_ == self.add_id_,
            r.additional_@ == self.additional_@,
            r.duration_ == self.duration_,
            r.duration_set_ == self.duration_set_,
            r.frame_@ == self.frame_@,
            r.is_key_ == self.is_key_,
            r.track_number_ == self.track_number_,
            r.timestamp_ == self.timestamp_,
            r.discard_padding_ == self.discard_padding_,
            r.reference_block_timestamp_ == self.reference_block_timestamp_,
            r.reference_block_timestamp_set_ == self.reference_block_timestamp_set_,
            r.wf() == self.wf(),
            r.is_valid_spec() == self.is_valid_spec(),
            frame_like(r, *self),
    {
        Frame {
            add_id_: self.add_id_,
            additional_: slice_to_vec(self.additional_.as_slice()),
            duration_: self.duration_,
            duration_set_: self.duration_set_,
            frame_: slice_to_vec(self.frame_.as_slice()),
            is_key_: self.is_key_,
            track_number_: self.track_number_,
            timestamp_: self.timestamp_,
            discard_padding_: self.discard_padding_,
            reference_block_timestamp_: self.reference_block_timestamp_,
            reference_block_timestamp_set_: self.reference_block_timestamp_set_,
        }
    }

    /// Store the payload by value.
    pub fn Init(&mut self, frame: &[u8]) -> (r: bool)
        ensures
            r,
            final(self).frame_@ == frame@,
            final(self).add_id_ == old(self).add_id_,
            final(self).additional_ == old(self).additional_,
            final(self).duration_ == old(self).duration_,
            final(self).duration_set_ == old(self).duration_set_,
            final(self).is_key_ == old(self).is_key_,
            final(self).track_number_ == old(self).track_number_,
            final(self).timestamp_ == old(self).timestamp_,
            final(self).discard_padding_ == old(self).discard_padding_,
            final(self).reference_block_timestamp_ == old(self).reference_block_timestamp_,
            final(self).reference_block_timestamp_set_ == old(
                self,
            ).reference_block_timestamp_set_,
    {
        self.frame_ = slice_to_vec(frame);
        true
    }

    /// Attach block-additional content under the given id.
    pub fn AddAdditionalData(&mut self, additional: &[u8], add_id: u64) -> (r: bool)
        ensures
            r,
            final(self).additional_@ == additional@,
            final(self).add_id_ == add_id,
            final(self).frame_ == old(self).frame_,
            final(self).duration_ == old(self).duration_,
            final(self).duration_set_ == old(self).duration_set_,
            final(self).is_key_ == old(self).is_key_,
            final(self).track_number_ == old(self).track_number_,
            final(self).timestamp_ == old(self).timestamp_,
            final(self).discard_padding_ == old(self).discard_padding_,
            final(self).reference_block_timestamp_ == old(self).reference_block_timestamp_,
            final(self).reference_block_timestamp_set_ == old(
                self,
            ).reference_block_timestamp_set_,
    {
        self.additional_ = slice_to_vec(additional);
        self.add_id_ = add_id;
        true
    }

    /// Whether the frame satisfies the validity invariant.
    pub fn IsValid(&self) -> (r: bool)
        ensures
            r == self.is_valid_spec(),
    {
        if self.frame_.is_empty() {
            return false;
        }
        if self.track_number_ == 0 || self.track_number_ > MAX_TRACK_NUMBER {
            return false;
        }
        if !self.CanBeSimpleBlock() && !self.is_key_ && !self.reference_block_timestamp_set_ {
            return false;
        }
        true
    }

    /// Whether the frame qualifies for the compact SimpleBlock form.
    pub fn CanBeSimpleBlock(&self) -> (r: bool)
        ensures
            r == self.can_be_simple_block_spec(),
    {
        self.additional_.len() == 0 && self.discard_padding_ == 0 && !self.duration_set_
    }
}

/// Sizes and scaled values a BlockGroup write needs, computed bottom-up
/// before any byte is written.
struct BlockSizes {
    group_payload: u64,
    additions_payload: u64,
    more_payload: u64,
    reference_timecode: u64,
    duration: u64,
}

impl Frame {
    /// The compact SimpleBlock encoding of this frame.
    pub open spec fn simple_block_bytes(self, timecode: int) -> Seq<u8> {
        simple_block_bytes_of(
            self.track_number_ as int,
            timecode,
            self.is_key_,
            self.frame_@,
        )
    }

    /// The reference timestamp scaled to the segment timebase, read from
    /// the stored value's bit pattern.
    pub open spec fn ref_timecode(self, timecode_scale: int) -> int {
        i64_bits(self.reference_block_timestamp_ as int) / timecode_scale
    }

    /// The frame duration scaled to the segment timebase.
    pub open spec fn scaled_duration(self, timecode_scale: int) -> int {
        self.duration_ as int / timecode_scale
    }

    /// Declared payload of the BlockMore element.
    #[verifier::opaque]
    pub open spec fn block_more_payload_size(self) -> int {
        uint_elem_size(ids::MkvBlockAddID as int, self.add_id_ as int, 0) + bin_elem_size(
            ids::MkvBlockAdditional as int,
            self.additional_@.len() as int,
        )
    }

    /// Declared payload of the BlockAdditions element.
    #[verifier::opaque]
    pub open spec fn block_additions_payload_size(self) -> int {
        master_elem_size(ids::MkvBlockMore as int) + self.block_more_payload_size()
    }

    /// Declared payload of the BlockGroup element, as this library
    /// accounts for it.
    #[verifier::opaque]
    pub open spec fn block_group_payload_size(self, timecode_scale: int) -> int {
        master_elem_size(ids::MkvBlock as int) + 4 + self.frame_@.len() as int + (if self.additional_@.len()
            > 0 {
            master_elem_size(ids::MkvBlockAdditions as int) + self.block_additions_payload_size()
        } else {
            0
        }) + (if self.duration_ as int / timecode_scale > 0 {
            uint_elem_size(
                ids::MkvBlockDuration as int,
                self.duration_ as int / timecode_scale,
                0,
            )
        } else {
            0
        }) + (if self.discard_padding_ != 0 {
            int_elem_size(ids::MkvDiscardPadding as int, self.discard_padding_ as int)
        } else {
            0
        }) + (if !self.is_key_ {
            uint_elem_size(ids::MkvReferenceBlock as int, self.ref_timecode(timecode_scale), 0)
        } else {
            0
        })
    }

    /// The bytes of the BlockAdditions subtree.
    #[verifier::opaque]
    pub open spec fn block_additions_bytes(self) -> Seq<u8> {
        master_header_bytes(ids::MkvBlockAdditions as int, self.block_additions_payload_size())
            + master_header_bytes(ids::MkvBlockMore as int, self.block_more_payload_size())
            + uint_elem_bytes(
            ids::MkvBlockAddID as int,
            self.add_id_ as int,
            uint_width(self.add_id_ as int),
        ) + bin_elem_bytes(ids::MkvBlockAdditional as int, self.additional_@)
    }

    /// The optional elements that close a BlockGroup: additions, discard
    /// padding, reference block and duration, each present only when the
    /// frame calls for it.
    #[verifier::opaque]
    pub open spec fn block_tail_bytes(self, timecode_scale: int) -> Seq<u8> {
        (if self.additional_@.len() > 0 {
            self.block_additions_bytes()
        } else {
            Seq::<u8>::empty()
        }) + (if self.discard_padding_ != 0 {
            int_elem_bytes(ids::MkvDiscardPadding as int, self.discard_padding_ as int)
        } else {
            Seq::<u8>::empty()
        }) + (if !self.is_key_ {
            uint_elem_bytes(
                ids::MkvReferenceBlock as int,
                self.ref_timecode(timecode_scale),
                uint_width(self.ref_timecode(timecode_scale)),
            )
        } else {
            Seq::<u8>::empty()
        }) + (if self.scaled_duration(timecode_scale) > 0 {
            uint_elem_bytes(
                ids::MkvBlockDuration as int,
                self.scaled_duration(timecode_scale),
                uint_width(self.scaled_duration(timecode_scale)),
            )
        } else {
            Seq::<u8>::empty()
        })
    }

    /// The verbose Block-in-BlockGroup encoding of the frame.
    #[verifier::opaque]
    pub open spec fn block_group_bytes(self, timecode: int, timecode_scale: int) -> Seq<u8> {
        master_header_bytes(
            ids::MkvBlockGroup as int,
            self.block_group_payload_size(timecode_scale),
        ) + master_header_bytes(ids::MkvBlock as int, 4 + self.frame_@.len() as int) + vint_bytes(
            self.track_number_ as int,
            coded_width(self.track_number_ as int),
        ) + be_bytes(i64_bits(timecode), 2) + be_bytes(0, 1) + self.frame_@
            + self.block_tail_bytes(timecode_scale)
    }

    /// Write the frame in the compact SimpleBlock form at the given
    /// relative timecode. Returns the declared element size, or 0 when the
    /// sink fails.
    pub fn WriteSimpleBlock<W: Writer>(&self, writer: &mut W, timecode: i64) -> (r: u64)
        requires
            old(writer).inv(),
            self.wf(),
        ensures
            final(writer).inv(),
            final(writer).is_seekable() == old(writer).is_seekable(),
            r != 0 ==> ({
                let b = self.simple_block_bytes(timecode as int);
                &&& final(writer).out() == write_at(old(writer).out(), old(writer).pos(), b)
                &&& final(writer).pos() == old(writer).pos() + b.len()
                &&& r == 1 + coded_width(4 + self.frame_@.len() as int) + 4 + self.frame_@.len() as int
            }),
    {
        let ghost out0 = old(writer).out();
        let ghost p0 = old(writer).pos();
        proof {
            writer.lemma_inv();
        }
        if !WriteID(writer, ids::MkvSimpleBlock) {
            return 0;
        }
        let size = self.length() + 4;
        if !WriteUInt(writer, size) {
            return 0;
        }
        let ghost acc1 = id_bytes(ids::MkvSimpleBlock as int) + vint_bytes(
            size as int,
            coded_width(size as int),
        );
        proof {
            lemma_be_bytes_len(ids::MkvSimpleBlock as int, 1);
            lemma_write_at_concat(
                out0,
                p0,
                id_bytes(ids::MkvSimpleBlock as int),
                vint_bytes(size as int, coded_width(size as int)),
            );
            lemma_vint_bytes_len(size as int, coded_width(size as int));
        }
        if !WriteUInt(writer, self.track_number()) {
            return 0;
        }
        let ghost acc2 = acc1 + vint_bytes(
            self.track_number_ as int,
            coded_width(self.track_number_ as int),
        );
        proof {
            lemma_write_at_concat(
                out0,
                p0,
                acc1,
                vint_bytes(self.track_number_ as int, coded_width(self.track_number_ as int)),
            );
            lemma_vint_bytes_len(
                self.track_number_ as int,
                coded_width(self.track_number_ as int),
            );
        }
        if !SerializeInt(writer, i64_to_bits(timecode), 2) {
            return 0;
        }
        let ghost acc3 = acc2 + be_bytes(i64_bits(timecode as int), 2);
        proof {
            lemma_write_at_concat(out0, p0, acc2, be_bytes(i64_bits(timecode as int), 2));
            lemma_be_bytes_len(i64_bits(timecode as int), 2);
        }
        let flags: u64 = if self.is_key() {
            0x80
        } else {
            0
        };
        if !SerializeInt(writer, flags, 1) {
            return 0;
        }
        let ghost acc4 = acc3 + be_bytes(flags as int, 1);
        proof {
            lemma_write_at_concat(out0, p0, acc3, be_bytes(flags as int, 1));
            lemma_be_bytes_len(flags as int, 1);
        }
        let p = writer.get_position();
        if self.frame_.len() as u64 > u64::MAX - p {
            return 0;
        }
        if !writer.write(self.frame_.as_slice()) {
            return 0;
        }
        proof {
            lemma_write_at_concat(out0, p0, acc4, self.frame_@);
        }
        let size_field_width: u64 = match GetCodedUIntSize(size) {
            Some(c) => c as u64,
            None => {
                return 0;
            },
        };
        GetUIntSize(ids::MkvSimpleBlock) as u64 + size_field_width + 4 + self.length()
    }

    /// Write the optional elements that close a BlockGroup.
    #[verifier::rlimit(100)]
    #[verifier::spinoff_prover]
    fn WriteBlockTail<W: Writer>(
        &self,
        writer: &mut W,
        Ghost(tsc): Ghost<int>,
        block_additions_payload_size: u64,
        block_more_payload_size: u64,
        reference_block_timestamp: u64,
        duration: u64,
    ) -> (ok: bool)
        requires
            old(writer).inv(),
            self.wf(),
            self.additional_@.len() > 0 ==> block_additions_payload_size
                == self.block_additions_payload_size(),
            self.additional_@.len() > 0 ==> block_more_payload_size
                == self.block_more_payload_size(),
            reference_block_timestamp == self.ref_timecode(tsc),
            duration == self.scaled_duration(tsc),
        ensures
            final(writer).inv(),
            final(writer).is_seekable() == old(writer).is_seekable(),
            ok ==> final(writer).out() == write_at(
                old(writer).out(),
                old(writer).pos(),
                self.block_tail_bytes(tsc),
            ) && final(writer).pos() == old(writer).pos() + self.block_tail_bytes(tsc).len(),
    {
        let ghost out0 = old(writer).out();
        let ghost p0 = old(writer).pos();
        proof {
            writer.lemma_inv();
        }
        proof {
            reveal(Frame::block_tail_bytes);
        }
        let ghost seg_a = if self.additional_@.len() > 0 {
            self.block_additions_bytes()
        } else {
            Seq::<u8>::empty()
        };
        if !self.additional_.is_empty() {
            if !WriteEbmlMasterElement(writer, ids::MkvBlockAdditions, block_additions_payload_size)
            {
                return false;
            }
            let ghost a1 = master_header_bytes(
                ids::MkvBlockAdditions as int,
                self.block_additions_payload_size(),
            );
            proof {
                lemma_master_header_bytes_len(
                    ids::MkvBlockAdditions as int,
                    self.block_additions_payload_size(),
                );
            }
            if !WriteEbmlMasterElement(writer, ids::MkvBlockMore, block_more_payload_size) {
                return false;
            }
            let ghost a2 = master_header_bytes(
                ids::MkvBlockMore as int,
                self.block_more_payload_size(),
            );
            proof {
                lemma_write_at_concat(out0, p0, a1, a2);
                lemma_master_header_bytes_len(
                    ids::MkvBlockMore as int,
                    self.block_more_payload_size(),
                );
            }
            if !WriteEbmlElementArgU64(writer, ids::MkvBlockAddID, self.add_id_) {
                return false;
            }
            let ghost a3 = uint_elem_bytes(
                ids::MkvBlockAddID as int,
                self.add_id_ as int,
                uint_width(self.add_id_ as int),
            );
            proof {
                lemma_write_at_concat(out0, p0, a1 + a2, a3);
                lemma_uint_elem_bytes_len(
                    ids::MkvBlockAddID as int,
                    self.add_id_ as int,
                    uint_width(self.add_id_ as int),
                );
            }
            if !WriteEbmlElementArgSlice(
                writer,
                ids::MkvBlockAdditional,
                self.additional_.as_slice(),
            ) {
                return false;
            }
            let ghost a4 = bin_elem_bytes(ids::MkvBlockAdditional as int, self.additional_@);
            proof {
                lemma_write_at_concat(out0, p0, a1 + a2 + a3, a4);
                lemma_bin_elem_bytes_len(ids::MkvBlockAdditional as int, self.additional_@);
                reveal(Frame::block_additions_bytes);
                assert(seg_a == a1 + a2 + a3 + a4);
            }
        } else {
            proof {
                assert(write_at(out0, p0, seg_a) =~= out0);
            }
        }
        let ghost acc7 = seg_a + if self.discard_padding_ != 0 {
            int_elem_bytes(ids::MkvDiscardPadding as int, self.discard_padding_ as int)
        } else {
            Seq::<u8>::empty()
        };
        if self.discard_padding_ != 0 {
            if !WriteEbmlElementArgI64(writer, ids::MkvDiscardPadding, self.discard_padding_) {
                return false;
            }
            proof {
                lemma_write_at_concat(
                    out0,
                    p0,
                    seg_a,
                    int_elem_bytes(ids::MkvDiscardPadding as int, self.discard_padding_ as int),
                );
                lemma_int_elem_bytes_len(
                    ids::MkvDiscardPadding as int,
                    self.discard_padding_ as int,
                );
            }
        } else {
            proof {
                assert(acc7 =~= seg_a);
            }
        }
        let ghost acc8 = acc7 + if !self.is_key_ {
            uint_elem_bytes(
                ids::MkvReferenceBlock as int,
                self.ref_timecode(tsc),
                uint_width(self.ref_timecode(tsc)),
            )
        } else {
            Seq::<u8>::empty()
        };
        if !self.is_key_ {
            if !WriteEbmlElementArgU64(writer, ids::MkvReferenceBlock, reference_block_timestamp) {
                return false;
            }
            proof {
                lemma_write_at_concat(
                    out0,
                    p0,
                    acc7,
                    uint_elem_bytes(
                        ids::MkvReferenceBlock as int,
                        self.ref_timecode(tsc),
                        uint_width(self.ref_timecode(tsc)),
                    ),
                );
                lemma_uint_elem_bytes_len(
                    ids::MkvReferenceBlock as int,
                    self.ref_timecode(tsc),
                    uint_width(self.ref_timecode(tsc)),
                );
            }
        } else {
            proof {
                assert(acc8 =~= acc7);
            }
        }
        let ghost acc9 = acc8 + if self.scaled_duration(tsc) > 0 {
            uint_elem_bytes(
                ids::MkvBlockDuration as int,
                self.scaled_duration(tsc),
                uint_width(self.scaled_duration(tsc)),
            )
        } else {
            Seq::<u8>::empty()
        };
        if duration > 0 {
            if !WriteEbmlElementArgU64(writer, ids::MkvBlockDuration, duration) {
                return false;
            }
            proof {
                lemma_write_at_concat(
                    out0,
                    p0,
                    acc8,
                    uint_elem_bytes(
                        ids::MkvBlockDuration as int,
                        self.scaled_duration(tsc),
                        uint_width(self.scaled_duration(tsc)),
                    ),
                );
                lemma_uint_elem_bytes_len(
                    ids::MkvBlockDuration as int,
                    self.scaled_duration(tsc),
                    uint_width(self.scaled_duration(tsc)),
                );
            }
        } else {
            proof {
                assert(acc9 =~= acc8);
            }
        }
        proof {
            assert(acc9 == self.block_tail_bytes(tsc));
        }
        true
    }

    /// Compute every size a BlockGroup write declares.
    #[verifier::rlimit(100)]
    fn ComputeBlockSizes(&self, timecode_scale: u64) -> (r: BlockSizes)
        requires
            self.wf(),
            timecode_scale >= 1,
        ensures
            r.group_payload == self.block_group_payload_size(timecode_scale as int),
            r.group_payload + 16 <= u64::MAX,
            self.additional_@.len() > 0 ==> r.additions_payload
                == self.block_additions_payload_size(),
            self.additional_@.len() > 0 ==> r.more_payload == self.block_more_payload_size(),
            r.reference_timecode == self.ref_timecode(timecode_scale as int),
            r.duration == self.scaled_duration(timecode_scale as int),
    {
        proof {
            reveal(Frame::block_more_payload_size);
            reveal(Frame::block_additions_payload_size);
            reveal(Frame::block_group_payload_size);
        }
        let mut block_additional_elem_size: u64 = 0;
        let mut block_addid_elem_size: u64 = 0;
        let mut block_more_payload_size: u64 = 0;
        let mut block_more_elem_size: u64 = 0;
        let mut block_additions_payload_size: u64 = 0;
        let mut block_additions_elem_size: u64 = 0;
        if !self.additional_.is_empty() {
            block_additional_elem_size = EbmlElementSizeArgSlice(
                ids::MkvBlockAdditional,
                self.additional_.as_slice(),
            );
            block_addid_elem_size = EbmlElementSizeArgU64(ids::MkvBlockAddID, self.add_id_);

            block_more_payload_size = block_addid_elem_size + block_additional_elem_size;
            block_more_elem_size = EbmlMasterElementSize(ids::MkvBlockMore, block_more_payload_size)
                + block_more_payload_size;
            block_additions_payload_size = block_more_elem_size;
            block_additions_elem_size = EbmlMasterElementSize(
                ids::MkvBlockAdditions,
                block_additions_payload_size,
            ) + block_additions_payload_size;
        }
        let mut discard_padding_elem_size: u64 = 0;
        if self.discard_padding_ != 0 {
            discard_padding_elem_size = EbmlElementSizeArgI64(
                ids::MkvDiscardPadding,
                self.discard_padding_,
            );
        }
        let reference_block_timestamp = i64_to_bits(self.reference_block_timestamp_)
            / timecode_scale;
        let mut reference_block_elem_size: u64 = 0;
        if !self.is_key_ {
            reference_block_elem_size = EbmlElementSizeArgU64(
                ids::MkvReferenceBlock,
                reference_block_timestamp,
            );
        }
        let duration = self.duration_ / timecode_scale;
        let mut block_duration_elem_size: u64 = 0;
        if duration > 0 {
            block_duration_elem_size = EbmlElementSizeArgU64(ids::MkvBlockDuration, duration);
        }
        let block_payload_size = 4 + self.length();
        let block_elem_size = EbmlMasterElementSize(ids::MkvBlock, block_payload_size)
            + block_payload_size;
        let block_group_payload_size = block_elem_size + block_additions_elem_size
            + block_duration_elem_size + discard_padding_elem_size + reference_block_elem_size;
        BlockSizes {
            group_payload: block_group_payload_size,
            additions_payload: block_additions_payload_size,
            more_payload: block_more_payload_size,
            reference_timecode: reference_block_timestamp,
            duration: duration,
        }
    }

    /// Write the frame in the Block-in-BlockGroup form at the given
    /// relative timecode. Returns the declared element size, or 0 when the
    /// sink fails.
    #[verifier::rlimit(100)]
    pub fn WriteBlock<W: Writer>(&self, writer: &mut W, timecode: i64, timecode_scale: u64) -> (r:
        u64)
        requires
            old(writer).inv(),
            self.wf(),
            timecode_scale >= 1,
        ensures
            final(writer).inv(),
            final(writer).is_seekable() == old(writer).is_seekable(),
            r != 0 ==> ({
                let b = self.block_group_bytes(timecode as int, timecode_scale as int);
                &&& final(writer).out() == write_at(old(writer).out(), old(writer).pos(), b)
                &&& final(writer).pos() == old(writer).pos() + b.len()
                &&& r == master_elem_size(ids::MkvBlockGroup as int)
                    + self.block_group_payload_size(timecode_scale as int)
            }),
    {
        let ghost out0 = old(writer).out();
        let ghost p0 = old(writer).pos();
        let ghost tsc = timecode_scale as int;
        proof {
            writer.lemma_inv();
        }
        let sizes = self.ComputeBlockSizes(timecode_scale);
        let block_group_payload_size = sizes.group_payload;
        let block_payload_size = 4 + self.length();
        if !WriteEbmlMasterElement(writer, ids::MkvBlockGroup, block_group_payload_size) {
            return 0;
        }
        let ghost acc1 = master_header_bytes(
            ids::MkvBlockGroup as int,
            self.block_group_payload_size(tsc),
        );
        proof {
            lemma_master_header_bytes_len(
                ids::MkvBlockGroup as int,
                self.block_group_payload_size(tsc),
            );
        }
        if !WriteEbmlMasterElement(writer, ids::MkvBlock, block_payload_size) {
            return 0;
        }
        let ghost acc2 = acc1 + master_header_bytes(
            ids::MkvBlock as int,
            4 + self.frame_@.len() as int,
        );
        proof {
            lemma_write_at_concat(
                out0,
                p0,
                acc1,
                master_header_bytes(ids::MkvBlock as int, 4 + self.frame_@.len() as int),
            );
            lemma_master_header_bytes_len(ids::MkvBlock as int, 4 + self.frame_@.len() as int);
        }
        if !WriteUInt(writer, self.track_number_) {
            return 0;
        }
        let ghost acc3 = acc2 + vint_bytes(
            self.track_number_ as int,
            coded_width(self.track_number_ as int),
        );
        proof {
            lemma_write_at_concat(
                out0,
                p0,
                acc2,
                vint_bytes(self.track_number_ as int, coded_width(self.track_number_ as int)),
            );
            lemma_vint_bytes_len(
                self.track_number_ as int,
                coded_width(self.track_number_ as int),
            );
        }
        if !SerializeInt(writer, i64_to_bits(timecode), 2) {
            return 0;
        }
        let ghost acc4 = acc3 + be_bytes(i64_bits(timecode as int), 2);
        proof {
            lemma_write_at_concat(out0, p0, acc3, be_bytes(i64_bits(timecode as int), 2));
            lemma_be_bytes_len(i64_bits(timecode as int), 2);
        }
        // For a Block, flags is always 0.
        if !SerializeInt(writer, 0, 1) {
            return 0;
        }
        let ghost acc5 = acc4 + be_bytes(0, 1);
        proof {
            lemma_write_at_concat(out0, p0, acc4, be_bytes(0, 1));
            lemma_be_bytes_len(0, 1);
        }
        let p = writer.get_position();
        if self.frame_.len() as u64 > u64::MAX - p {
            return 0;
        }
        if !writer.write(self.frame_.as_slice()) {
            return 0;
        }
        let ghost acc6 = acc5 + self.frame_@;
        proof {
            lemma_write_at_concat(out0, p0, acc5, self.frame_@);
        }
        if !self.WriteBlockTail(
            writer,
            Ghost(tsc),
            sizes.additions_payload,
            sizes.more_payload,
            sizes.reference_timecode,
            sizes.duration,
        ) {
            return 0;
        }
        proof {
            lemma_write_at_concat(out0, p0, acc6, self.block_tail_bytes(tsc));
            reveal(Frame::block_group_bytes);
        }
        EbmlMasterElementSize(ids::MkvBlockGroup, block_group_payload_size)
            + block_group_payload_size
    }
}

/// A frame that carries additional data can never use the compact
/// SimpleBlock form.
pub proof fn lemma_additional_forces_block_group(f: Frame)
    requires
        f.additional_@.len() > 0,
    ensures
        !f.can_be_simple_block_spec(),
{
}

} // verus!
