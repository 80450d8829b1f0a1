//! A cue point: one index entry mapping a timecode to the cluster (and
//! block) where the matching key frame lives.

use vstd::prelude::*;

use crate::ids;
use crate::util::{
    coded_width, lemma_master_header_bytes_len, lemma_uint_elem_bytes_len, master_elem_size,
    master_header_bytes, uint_elem_bytes, uint_elem_size, uint_width, EbmlElementSizeArgU64,
    EbmlMasterElementSize, WriteEbmlElementArgU64, WriteEbmlMasterElement,
};
use crate::writer::{extends, lemma_extends_trans, lemma_write_extends, Writer};

verus! {

/// One cue point in a Cues element.
#[derive(Debug)]
pub struct CuePoint {
    /// Absolute timecode according to the segment time base.
    pub time_: u64,
    /// The Track element associated with the CuePoint.
    pub track_: u64,
    /// The position of the Cluster containing the Block.
    pub cluster_pos_: u64,
    /// Number of the Block within the Cluster, starting from 1.
    pub block_number_: u64,
    /// Whether the muxer writes the block number out when it is not the
    /// default of 1.
    pub output_block_number_: bool,
}

/// Byte count of the CueTrackPositions element's children.
pub open spec fn cue_track_pos_payload(c: CuePoint) -> int {
    uint_elem_size(ids::MkvCueClusterPosition as int, c.cluster_pos_ as int, 0) + uint_elem_size(
        ids::MkvCueTrack as int,
        c.track_ as int,
        0,
    ) + (if c.output_block_number_ && c.block_number_ > 1 {
        uint_elem_size(ids::MkvCueBlockNumber as int, c.block_number_ as int, 0)
    } else {
        0
    })
}

/// Byte count of one CuePoint's children.
pub open spec fn cue_point_payload(c: CuePoint) -> int {
    uint_elem_size(ids::MkvCueTime as int, c.time_ as int, 0) + master_elem_size(
        ids::MkvCueTrackPositions as int,
    ) + cue_track_pos_payload(c)
}

impl CuePoint {
    pub fn set_time(&mut self, time: u64)
        ensures
            *final(self) == (CuePoint { time_: time, ..*old(self) }),
    {
        self.time_ = time;
    }

    pub fn time(&self) -> (r: u64)
        ensures
            r == self.time_,
    {
        self.time_
    }

    pub fn set_track(&mut self, track: u64)
        ensures
            *final(self) == (CuePoint { track_: track, ..*old(self) }),
    {
        self.track_ = track;
    }

    pub fn track(&self) -> (r: u64)
        ensures
            r == self.track_,
    {
        self.track_
    }

    pub fn set_cluster_pos(&mut self, cluster_pos: u64)
        ensures
            *final(self) == (CuePoint { cluster_pos_: cluster_pos, ..*old(self) }),
    {
        self.cluster_pos_ = cluster_pos;
    }

    pub fn cluster_pos(&self) -> (r: u64)
        ensures
            r == self.cluster_pos_,
    {
        self.cluster_pos_
    }

    pub fn set_block_number(&mut self, block_number: u64)
        ensures
            *final(self) == (CuePoint { block_number_: block_number, ..*old(self) }),
    {
        self.block_number_ = block_number;
    }

    pub fn block_number(&self) -> (r: u64)
        ensures
            r == self.block_number_,
    {
        self.block_number_
    }

    pub fn set_output_block_number(&mut self, output_block_number: bool)
        ensures
            *final(self) == (CuePoint { output_block_number_: output_block_number, ..*old(self) }),
    {
        self.output_block_number_ = output_block_number;
    }

    pub fn output_block_number(&self) -> (r: bool)
        ensures
            r == self.output_block_number_,
    {
        self.output_block_number_
    }

    pub fn new() -> (c: CuePoint)
        ensures
            c.time_ == 0,
            c.track_ == 0,
            c.cluster_pos_ == 0,
            c.block_number_ == 1,
            c.output_block_number_,
    {
        CuePoint {
            time_: 0,
            track_: 0,
            cluster_pos_: 0,
            block_number_: 1,
            output_block_number_: true,
        }
    }

    /// Exact byte count of the element's children.
    pub fn PayloadSize(&self) -> (r: u64)
        ensures
            r == cue_point_payload(*self),
    {
        let mut size: u64 = EbmlElementSizeArgU64(ids::MkvCueClusterPosition, self.cluster_pos_);
        size += EbmlElementSizeArgU64(ids::MkvCueTrack, self.track_);
        if self.output_block_number_ && self.block_number_ > 1 {
            size += EbmlElementSizeArgU64(ids::MkvCueBlockNumber, self.block_number_);
        }
        let track_pos_size = EbmlMasterElementSize(ids::MkvCueTrackPositions, size) + size;
        EbmlElementSizeArgU64(ids::MkvCueTime, self.time_) + track_pos_size
    }

    /// Declared size of the whole cue point.
    pub fn Size(&self) -> (r: u64)
        ensures
            r == uint_elem_size(ids::MkvCuePoint as int, cue_point_payload(*self), 0)
                + cue_point_payload(*self),
    {
        let payload_size = self.PayloadSize();
        EbmlElementSizeArgU64(ids::MkvCuePoint, payload_size) + payload_size
    }

    /// Write the cue point: its header, then exactly `PayloadSize()` bytes
    /// of children, which the body checks before reporting success. A cue
    /// point without a track or cluster position is rejected unwritten.
    pub fn Write<W: Writer>(&self, writer: &mut W) -> (r: bool)
        requires
            old(writer).inv(),
        ensures
            final(writer).inv(),
            final(writer).is_seekable() == old(writer).is_seekable(),
            self.track_ < 1 || self.cluster_pos_ < 1 ==> !r && final(writer).out() == old(
                writer,
            ).out() && final(writer).pos() == old(writer).pos(),
            r ==> extends(*old(writer), *final(writer)) && final(writer).pos() == old(writer).pos()
                + uint_width(ids::MkvCuePoint as int) + coded_width(cue_point_payload(*self))
                + cue_point_payload(*self),
    {
        proof {
            writer.lemma_inv();
        }
        if self.track_ < 1 || self.cluster_pos_ < 1 {
            return false;
        }
        let mut size: u64 = EbmlElementSizeArgU64(ids::MkvCueClusterPosition, self.cluster_pos_);
        size += EbmlElementSizeArgU64(ids::MkvCueTrack, self.track_);
        if self.output_block_number_ && self.block_number_ > 1 {
            size += EbmlElementSizeArgU64(ids::MkvCueBlockNumber, self.block_number_);
        }
        let track_pos_size = EbmlMasterElementSize(ids::MkvCueTrackPositions, size) + size;
        let payload_size = EbmlElementSizeArgU64(ids::MkvCueTime, self.time_) + track_pos_size;

        let ghost w0 = *writer;
        if !WriteEbmlMasterElement(writer, ids::MkvCuePoint, payload_size) {
            return false;
        }
        proof {
            lemma_master_header_bytes_len(ids::MkvCuePoint as int, payload_size as int);
            lemma_write_extends(
                w0,
                *writer,
                master_header_bytes(ids::MkvCuePoint as int, payload_size as int),
            );
        }
        let payload_position = writer.get_position();

        let ghost w1 = *writer;
        if !WriteEbmlElementArgU64(writer, ids::MkvCueTime, self.time_) {
            return false;
        }
        proof {
            lemma_uint_elem_bytes_len(
                ids::MkvCueTime as int,
                self.time_ as int,
                uint_width(self.time_ as int),
            );
            lemma_write_extends(
                w1,
                *writer,
                uint_elem_bytes(
                    ids::MkvCueTime as int,
                    self.time_ as int,
                    uint_width(self.time_ as int),
                ),
            );
            lemma_extends_trans(w0, w1, *writer);
        }
        let ghost w2 = *writer;
        if !WriteEbmlMasterElement(writer, ids::MkvCueTrackPositions, size) {
            return false;
        }
        proof {
            lemma_master_header_bytes_len(ids::MkvCueTrackPositions as int, size as int);
            lemma_write_extends(
                w2,
                *writer,
                master_header_bytes(ids::MkvCueTrackPositions as int, size as int),
            );
            lemma_extends_trans(w0, w2, *writer);
        }
        let ghost w3 = *writer;
        if !WriteEbmlElementArgU64(writer, ids::MkvCueTrack, self.track_) {
            return false;
        }
        proof {
            lemma_uint_elem_bytes_len(
                ids::MkvCueTrack as int,
                self.track_ as int,
                uint_width(self.track_ as int),
            );
            lemma_write_extends(
                w3,
                *writer,
                uint_elem_bytes(
                    ids::MkvCueTrack as int,
                    self.track_ as int,
                    uint_width(self.track_ as int),
                ),
            );
            lemma_extends_trans(w0, w3, *writer);
        }
        let ghost w4 = *writer;
        if !WriteEbmlElementArgU64(writer, ids::MkvCueClusterPosition, self.cluster_pos_) {
            return false;
        }
        proof {
            lemma_uint_elem_bytes_len(
                ids::MkvCueClusterPosition as int,
                self.cluster_pos_ as int,
                uint_width(self.cluster_pos_ as int),
            );
            lemma_write_extends(
                w4,
                *writer,
                uint_elem_bytes(
                    ids::MkvCueClusterPosition as int,
                    self.cluster_pos_ as int,
                    uint_width(self.cluster_pos_ as int),
                ),
            );
            lemma_extends_trans(w0, w4, *writer);
        }
        if self.output_block_number_ && self.block_number_ > 1 {
            let ghost w5 = *writer;
            if !WriteEbmlElementArgU64(writer, ids::MkvCueBlockNumber, self.block_number_) {
                return false;
            }
            proof {
                lemma_uint_elem_bytes_len(
                    ids::MkvCueBlockNumber as int,
                    self.block_number_ as int,
                    uint_width(self.block_number_ as int),
                );
                lemma_write_extends(
                    w5,
                    *writer,
                    uint_elem_bytes(
                        ids::MkvCueBlockNumber as int,
                        self.block_number_ as int,
                        uint_width(self.block_number_ as int),
                    ),
                );
                lemma_extends_trans(w0, w5, *writer);
            }
        }
        let stop_position = writer.get_position();
        if stop_position < payload_position || stop_position - payload_position != payload_size {
            return false;
        }
        true
    }
}

} // verus!
