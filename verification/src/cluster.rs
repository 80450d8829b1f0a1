//! The Cluster: a time window of blocks, with the hold-back queue, the
//! k-way timestamp merge, and the two-phase (stream now, patch size later)
//! finalization.
//!
//! A Cluster moves through three states: empty, header written, finalized.
//! The header reserves an 8-byte unknown-size field whose stream offset is
//! kept in `size_position_`; a seekable sink gets that field overwritten
//! with the accumulated payload size at finalization.

use vstd::prelude::*;

use crate::frame::{frame_like, Frame};
use crate::ids;
use crate::util::{
    be_bytes, coded_width, id_bytes, lemma_be_bytes_len, lemma_uint_elem_bytes_len,
    lemma_vint_bytes_len, master_elem_size, uint_elem_bytes, uint_elem_size, uint_width,
    vint_bytes, EbmlElementSizeArgsU64, EbmlMasterElementSize, SerializeInt, WriteEbmlElementArgsU64,
    WriteID, WriteUIntSize, EBML_UNKNOWN_VALUE, MAX_BLOCK_TIMECODE,
};
use crate::writer::{
    extends, lemma_extends_trans, lemma_write_advances, lemma_write_at_concat, lemma_write_at_len,
    lemma_write_extends, write_at, Writer,
};

verus! {

/// The frames held back for one track, oldest first.
pub struct FrameQueue {
    pub track: u64,
    pub frames: Vec<Frame>,
}

/// The timestamp of the last block written for one track.
pub struct TrackTime {
    pub track: u64,
    pub timestamp: u64,
}

/// Frames queued across a table of per-track queues.
pub open spec fn queued_count(qs: Seq<FrameQueue>) -> int
    decreases qs.len(),
{
    if qs.len() == 0 {
        0
    } else {
        qs[0].frames@.len() + queued_count(qs.drop_first())
    }
}

proof fn lemma_queued_count_remove(qs: Seq<FrameQueue>, i: int)
    requires
        0 <= i < qs.len(),
    ensures
        queued_count(qs.remove(i)) == queued_count(qs) - qs[i].frames@.len(),
    decreases qs.len(),
{
    if i == 0 {
        assert(qs.remove(0) =~= qs.drop_first());
    } else {
        assert(qs.remove(i).drop_first() =~= qs.drop_first().remove(i - 1));
        assert(qs.remove(i)[0] == qs[0]);
        lemma_queued_count_remove(qs.drop_first(), i - 1);
    }
}

proof fn lemma_queued_count_push(qs: Seq<FrameQueue>, q: FrameQueue)
    ensures
        queued_count(qs.push(q)) == queued_count(qs) + q.frames@.len(),
    decreases qs.len(),
{
    if qs.len() == 0 {
        assert(qs.push(q).drop_first() =~= Seq::<FrameQueue>::empty());
    } else {
        assert(qs.push(q).drop_first() =~= qs.drop_first().push(q));
        lemma_queued_count_push(qs.drop_first(), q);
    }
    assert(qs.push(q)[0].frames@.len() + queued_count(qs.push(q).drop_first()) == queued_count(
        qs.push(q),
    ));
}

proof fn lemma_queued_count_empty(qs: Seq<FrameQueue>)
    requires
        forall|j: int| 0 <= j < qs.len() ==> qs[j].frames@.len() == 0,
    ensures
        queued_count(qs) == 0,
    decreases qs.len(),
{
    if qs.len() > 0 {
        assert(qs.drop_first() =~= qs.subrange(1, qs.len() as int));
        lemma_queued_count_empty(qs.drop_first());
    }
}

proof fn lemma_queued_count_nonneg(qs: Seq<FrameQueue>)
    ensures
        queued_count(qs) >= 0,
    decreases qs.len(),
{
    if qs.len() > 0 {
        lemma_queued_count_nonneg(qs.drop_first());
    }
}

/// The first index holding this track's queue, or the table's length when
/// the track has none.
pub open spec fn queue_index_of(qs: Seq<FrameQueue>, track: u64) -> int
    decreases qs.len(),
{
    if qs.len() == 0 {
        0
    } else if qs[0].track == track {
        0
    } else {
        1 + queue_index_of(qs.drop_first(), track)
    }
}

/// The frames held back for this track, oldest first; empty when the
/// track has no queue.
pub open spec fn track_queue(qs: Seq<FrameQueue>, track: u64) -> Seq<Frame> {
    if queue_index_of(qs, track) < qs.len() {
        qs[queue_index_of(qs, track)].frames@
    } else {
        Seq::<Frame>::empty()
    }
}

proof fn lemma_queue_index_at(qs: Seq<FrameQueue>, track: u64, i: int)
    requires
        0 <= i < qs.len(),
        qs[i].track == track,
        forall|k: int| 0 <= k < i ==> qs[k].track != track,
    ensures
        queue_index_of(qs, track) == i,
    decreases qs.len(),
{
    if i > 0 {
        lemma_queue_index_at(qs.drop_first(), track, i - 1);
    }
}

proof fn lemma_queue_index_full(qs: Seq<FrameQueue>, track: u64)
    requires
        forall|k: int| 0 <= k < qs.len() ==> qs[k].track != track,
    ensures
        queue_index_of(qs, track) == qs.len(),
    decreases qs.len(),
{
    if qs.len() > 0 {
        lemma_queue_index_full(qs.drop_first(), track);
    }
}

/// The first index holding this track's last-block time, or the table's
/// length when the track has none.
pub open spec fn time_index_of(ts: Seq<TrackTime>, track: u64) -> int
    decreases ts.len(),
{
    if ts.len() == 0 {
        0
    } else if ts[0].track == track {
        0
    } else {
        1 + time_index_of(ts.drop_first(), track)
    }
}

/// The timestamp of the last block written for this track, if one was.
pub open spec fn last_time_of(ts: Seq<TrackTime>, track: u64) -> Option<u64> {
    if time_index_of(ts, track) < ts.len() {
        Some(ts[time_index_of(ts, track)].timestamp)
    } else {
        None
    }
}

proof fn lemma_time_index_at(ts: Seq<TrackTime>, track: u64, i: int)
    requires
        0 <= i < ts.len(),
        ts[i].track == track,
        forall|k: int| 0 <= k < i ==> ts[k].track != track,
    ensures
        time_index_of(ts, track) == i,
    decreases ts.len(),
{
    if i > 0 {
        lemma_time_index_at(ts.drop_first(), track, i - 1);
    }
}

proof fn lemma_time_index_full(ts: Seq<TrackTime>, track: u64)
    requires
        forall|k: int| 0 <= k < ts.len() ==> ts[k].track != track,
    ensures
        time_index_of(ts, track) == ts.len(),
    decreases ts.len(),
{
    if ts.len() > 0 {
        lemma_time_index_full(ts.drop_first(), track);
    }
}

/// A time window of blocks within the output stream.
pub struct Cluster {
    /// Number of blocks added to the cluster.
    pub blocks_added_: i32,
    /// Whether the cluster has been closed.
    pub finalized_: bool,
    /// Whether the cluster's timecode is always written in 8 bytes.
    pub fixed_size_timecode_: bool,
    /// Whether the cluster's header has been written.
    pub header_written_: bool,
    /// The size of the cluster's elements in bytes, as declared.
    pub payload_size_: u64,
    /// The stream position used for cue points.
    pub position_for_cues_: i64,
    /// The stream position of the cluster's size field, -1 before the
    /// header is written.
    pub size_position_: i64,
    /// The absolute timecode of the cluster.
    pub timecode_: u64,
    /// The timecode scale of the segment containing the cluster.
    pub timecode_scale_: u64,
    /// Whether the last frame of each track is held back so it can carry
    /// an explicit duration; finalization must then drain the queues.
    pub write_last_frame_with_duration_: bool,
    /// The hold-back table: one queue of deferred frames per track.
    pub stored_frames_: Vec<FrameQueue>,
    /// The timestamp of the last block written, per track.
    pub last_block_timestamp_: Vec<TrackTime>,
}

impl Cluster {
    /// The fixed-size flag as the width argument the timecode element
    /// writer takes: 8 forces an 8-byte payload, 0 picks the minimal one.
    pub open spec fn timecode_fixed_arg(self) -> int {
        if self.fixed_size_timecode_ {
            8
        } else {
            0
        }
    }

    /// Each track number appears at most once in the hold-back table and
    /// at most once in the last-block-time table; constructors establish
    /// this and every method keeps it.
    pub open spec fn tracks_unique(self) -> bool {
        &&& forall|i: int, j: int|
            0 <= i < j < self.stored_frames_@.len() ==> (#[trigger] self.stored_frames_@[i]).track
                != (#[trigger] self.stored_frames_@[j]).track
        &&& forall|i: int, j: int|
            0 <= i < j < self.last_block_timestamp_@.len() ==> (
            #[trigger] self.last_block_timestamp_@[i]).track != (
            #[trigger] self.last_block_timestamp_@[j]).track
    }

    /// The bytes of the cluster's header: the Cluster id, the 8-byte
    /// unknown-size field, and the Timecode element.
    pub open spec fn cluster_header_bytes(self) -> Seq<u8> {
        id_bytes(ids::MkvCluster as int) + be_bytes(EBML_UNKNOWN_VALUE as int, 8) + uint_elem_bytes(
            ids::MkvTimecode as int,
            self.timecode_ as int,
            if self.fixed_size_timecode_ {
                8
            } else {
                uint_width(self.timecode_ as int)
            },
        )
    }

    /// Whether a frame timestamp lands in the window this cluster accepts:
    /// its scaled value may not precede the cluster timecode nor exceed it
    /// by more than the largest relative timecode.
    pub open spec fn rel_in_range(self, timestamp: int) -> bool {
        &&& self.timecode_ <= timestamp / (self.timecode_scale_ as int)
        &&& timestamp / (self.timecode_scale_ as int) - self.timecode_ <= MAX_BLOCK_TIMECODE
    }

    /// The relative timecode of a frame timestamp.
    pub open spec fn rel_timecode(self, timestamp: int) -> int {
        timestamp / (self.timecode_scale_ as int) - self.timecode_
    }

    /// The bytes a frame occupies on the wire, in whichever block form it
    /// requires, at relative timecode `rel`.
    pub open spec fn frame_block_bytes(frame: Frame, rel: int, timecode_scale: int) -> Seq<u8> {
        if frame.can_be_simple_block_spec() {
            frame.simple_block_bytes(rel)
        } else {
            frame.block_group_bytes(rel, timecode_scale)
        }
    }

    /// The declared size of a frame's block, in whichever form it requires.
    pub open spec fn frame_block_size(frame: Frame, timecode_scale: int) -> int {
        if frame.can_be_simple_block_spec() {
            1 + coded_width(4 + frame.frame_@.len() as int) + 4 + frame.frame_@.len() as int
        } else {
            master_elem_size(ids::MkvBlockGroup as int) + frame.block_group_payload_size(
                timecode_scale,
            )
        }
    }

    pub fn new(
        timecode: u64,
        cues_pos: i64,
        timecode_scale: u64,
        write_last_frame_with_duration: bool,
        fixed_size_timecode: bool,
    ) -> (c: Cluster)
        ensures
            c.blocks_added_ == 0,
            !c.finalized_,
            c.fixed_size_timecode_ == fixed_size_timecode,
            !c.header_written_,
            c.payload_size_ == 0,
            c.position_for_cues_ == cues_pos,
            c.size_position_ == -1,
            c.timecode_ == timecode,
            c.timecode_scale_ == timecode_scale,
            c.write_last_frame_with_duration_ == write_last_frame_with_duration,
            c.stored_frames_@.len() == 0,
            c.last_block_timestamp_@.len() == 0,
            c.tracks_unique(),
    {
        Cluster {
            blocks_added_: 0,
            finalized_: false,
            fixed_size_timecode_: fixed_size_timecode,
            header_written_: false,
            payload_size_: 0,
            position_for_cues_: cues_pos,
            size_position_: -1,
            timecode_: timecode,
            timecode_scale_: timecode_scale,
            write_last_frame_with_duration_: write_last_frame_with_duration,
            stored_frames_: Vec::new(),
            last_block_timestamp_: Vec::new(),
        }
    }

    pub fn size_position(&self) -> (r: i64)
        ensures
            r == self.size_position_,
    {
        self.size_position_
    }

    pub fn blocks_added(&self) -> (r: i32)
        ensures
            r == self.blocks_added_,
    {
        self.blocks_added_
    }

    pub fn payload_size(&self) -> (r: u64)
        ensures
            r == self.payload_size_,
    {
        self.payload_size_
    }

    pub fn position_for_cues(&self) -> (r: i64)
        ensures
            r == self.position_for_cues_,
    {
        self.position_for_cues_
    }

    pub fn timecode(&self) -> (r: u64)
        ensures
            r == self.timecode_,
    {
        self.timecode_
    }

    pub fn timecode_scale(&self) -> (r: u64)
        ensures
            r == self.timecode_scale_,
    {
        self.timecode_scale_
    }

    pub fn set_write_last_frame_with_duration(&mut self, write_last_frame_with_duration: bool)
        ensures
            *final(self) == (Cluster {
                write_last_frame_with_duration_: write_last_frame_with_duration,
                ..*old(self)
            }),
    {
        self.write_last_frame_with_duration_ = write_last_frame_with_duration;
    }

    pub fn write_last_frame_with_duration(&self) -> (r: bool)
        ensures
            r == self.write_last_frame_with_duration_,
    {
        self.write_last_frame_with_duration_
    }

    /// Add a declared element size to the cluster's payload accumulator.
    fn AddPayloadSize(&mut self, size: u64) -> (r: bool)
        ensures
            r == (old(self).payload_size_ + size <= u64::MAX),
            r ==> *final(self) == (Cluster {
                payload_size_: (old(self).payload_size_ + size) as u64,
                ..*old(self)
            }),
            !r ==> *final(self) == *old(self),
    {
        if size > u64::MAX - self.payload_size_ {
            return false;
        }
        self.payload_size_ = self.payload_size_ + size;
        true
    }

    /// The declared size of the whole cluster element: its header plus the
    /// accumulated payload.
    pub fn Size(&self) -> (r: u64)
        requires
            self.payload_size_ + 16 <= u64::MAX,
        ensures
            r == master_elem_size(ids::MkvCluster as int) + self.payload_size_,
    {
        EbmlMasterElementSize(ids::MkvCluster, 0xFFFFFFFFFFFFFFFF) + self.payload_size_
    }

    /// Write the cluster's header: the Cluster id, an 8-byte unknown-size
    /// placeholder whose position is recorded for backpatching, and the
    /// Timecode element.
    fn WriteClusterHeader<W: Writer>(&mut self, writer: &mut W) -> (r: bool)
        requires
            old(writer).inv(),
        ensures
            final(writer).inv(),
            final(writer).is_seekable() == old(writer).is_seekable(),
            final(self).finalized_ == old(self).finalized_,
            final(self).stored_frames_ == old(self).stored_frames_,
            final(self).last_block_timestamp_ == old(self).last_block_timestamp_,
            final(self).blocks_added_ == old(self).blocks_added_,
            final(self).timecode_ == old(self).timecode_,
            final(self).timecode_scale_ == old(self).timecode_scale_,
            final(self).fixed_size_timecode_ == old(self).fixed_size_timecode_,
            final(self).write_last_frame_with_duration_ == old(self).write_last_frame_with_duration_,
            final(self).position_for_cues_ == old(self).position_for_cues_,
            old(self).finalized_ ==> !r && *final(self) == *old(self) && final(writer).out() == old(writer).out() && final(writer).pos() == old(writer).pos(),
            r ==> ({
                &&& final(writer).out() == write_at(
                    old(writer).out(),
                    old(writer).pos(),
                    old(self).cluster_header_bytes(),
                )
                &&& final(writer).pos() == old(writer).pos()
                    + old(self).cluster_header_bytes().len()
                &&& final(self).header_written_
                &&& final(self).size_position_ == old(writer).pos() + uint_width(
                    ids::MkvCluster as int,
                )
                &&& final(self).payload_size_ == old(self).payload_size_ + uint_elem_size(
                    ids::MkvTimecode as int,
                    old(self).timecode_ as int,
                    old(self).timecode_fixed_arg(),
                )
            }),
    {
        let ghost out0 = old(writer).out();
        let ghost p0 = old(writer).pos();
        proof {
            writer.lemma_inv();
        }
        if self.finalized_ {
            return false;
        }
        if !WriteID(writer, ids::MkvCluster) {
            return false;
        }
        // Save for later.
        let sp = writer.get_position();
        if sp > 0x7FFF_FFFF_FFFF_FFFF {
            return false;
        }
        self.size_position_ = sp as i64;
        // The cluster's final size is unknown while its blocks stream out,
        // so an 8-byte coded "unknown" value holds the place.
        if !SerializeInt(writer, EBML_UNKNOWN_VALUE, 8) {
            return false;
        }
        proof {
            lemma_be_bytes_len(ids::MkvCluster as int, uint_width(ids::MkvCluster as int));
            lemma_write_at_concat(
                out0,
                p0,
                id_bytes(ids::MkvCluster as int),
                be_bytes(EBML_UNKNOWN_VALUE as int, 8),
            );
            lemma_be_bytes_len(EBML_UNKNOWN_VALUE as int, 8);
        }
        let timecode_size: u64 = if self.fixed_size_timecode_ {
            8
        } else {
            0
        };
        let timecode = self.timecode();
        if !WriteEbmlElementArgsU64(writer, ids::MkvTimecode, timecode, timecode_size) {
            return false;
        }
        proof {
            lemma_write_at_concat(
                out0,
                p0,
                id_bytes(ids::MkvCluster as int) + be_bytes(EBML_UNKNOWN_VALUE as int, 8),
                uint_elem_bytes(
                    ids::MkvTimecode as int,
                    self.timecode_ as int,
                    if self.fixed_size_timecode_ {
                        8int
                    } else {
                        uint_width(self.timecode_ as int)
                    },
                ),
            );
            lemma_uint_elem_bytes_len(
                ids::MkvTimecode as int,
                self.timecode_ as int,
                if self.fixed_size_timecode_ {
                    8int
                } else {
                    uint_width(self.timecode_ as int)
                },
            );
        }
        let tsize = EbmlElementSizeArgsU64(ids::MkvTimecode, timecode, timecode_size);
        if !self.AddPayloadSize(tsize) {
            return false;
        }
        self.header_written_ = true;
        true
    }

    /// Make sure the cluster can accept a block: it is not finalized and
    /// its header is on the stream.
    fn PreWriteBlock<W: Writer>(&mut self, writer: &mut W) -> (r: bool)
        requires
            old(writer).inv(),
        ensures
            final(writer).inv(),
            final(writer).is_seekable() == old(writer).is_seekable(),
            final(self).finalized_ == old(self).finalized_,
            final(self).stored_frames_ == old(self).stored_frames_,
            final(self).last_block_timestamp_ == old(self).last_block_timestamp_,
            final(self).blocks_added_ == old(self).blocks_added_,
            final(self).timecode_ == old(self).timecode_,
            final(self).timecode_scale_ == old(self).timecode_scale_,
            final(self).fixed_size_timecode_ == old(self).fixed_size_timecode_,
            final(self).write_last_frame_with_duration_ == old(self).write_last_frame_with_duration_,
            final(self).position_for_cues_ == old(self).position_for_cues_,
            old(self).finalized_ ==> !r && *final(self) == *old(self) && final(writer).out() == old(writer).out() && final(writer).pos() == old(writer).pos(),
            r ==> final(self).header_written_ && extends(*old(writer), *final(writer)),
            r && old(self).header_written_ ==> *final(self) == *old(self) && final(writer).out()
                == old(writer).out() && final(writer).pos() == old(writer).pos(),
            r && !old(self).header_written_ ==> final(writer).out() == write_at(
                old(writer).out(),
                old(writer).pos(),
                old(self).cluster_header_bytes(),
            ) && final(writer).pos() == old(writer).pos() + old(self).cluster_header_bytes().len() && final(self).payload_size_ == old(self).payload_size_
                + uint_elem_size(
                ids::MkvTimecode as int,
                old(self).timecode_ as int,
                old(self).timecode_fixed_arg(),
            ) && final(self).size_position_ == old(writer).pos() + uint_width(
                ids::MkvCluster as int,
            ),
    {
        proof {
            writer.lemma_inv();
        }
        if self.finalized_ {
            return false;
        }
        if !self.header_written_ {
            let ghost w0 = *writer;
            let ghost c0 = *self;
            if !self.WriteClusterHeader(writer) {
                return false;
            }
            proof {
                lemma_write_advances(w0, *writer, c0.cluster_header_bytes());
            }
        }
        true
    }

    /// Account for one written block.
    fn PostWriteBlock(&mut self, element_size: u64) -> (r: bool)
        ensures
            r ==> old(self).payload_size_ + element_size <= u64::MAX && old(self).blocks_added_
                < i32::MAX && *final(self) == (Cluster {
                payload_size_: (old(self).payload_size_ + element_size) as u64,
                blocks_added_: (old(self).blocks_added_ + 1) as i32,
                ..*old(self)
            }),
            !r ==> *final(self) == *old(self),
    {
        if self.blocks_added_ == i32::MAX {
            return false;
        }
        if element_size > u64::MAX - self.payload_size_ {
            return false;
        }
        self.payload_size_ = self.payload_size_ + element_size;
        self.blocks_added_ = self.blocks_added_ + 1;
        true
    }

    /// The relative timecode of a scaled timestamp, or -1 when it falls
    /// outside the window this cluster accepts.
    fn GetRelativeTimecode(&self, abs_timecode: u64) -> (r: i64)
        ensures
            r == if self.timecode_ <= abs_timecode && abs_timecode - self.timecode_
                <= MAX_BLOCK_TIMECODE {
                abs_timecode - self.timecode_
            } else {
                -1
            },
    {
        if abs_timecode < self.timecode_ {
            return -1;
        }
        let rel = abs_timecode - self.timecode_;
        if rel > 0x7FFF {
            return -1;
        }
        rel as i64
    }

    /// Write one frame as a block at its relative timecode, in whichever
    /// block form the frame requires. Returns the declared element size,
    /// or 0 when the frame is invalid, its timestamp falls outside the
    /// cluster's window, the timecode scale is 0, or the sink fails; a
    /// rejected frame changes nothing, neither here nor on the stream.
    pub fn WriteFrame<W: Writer>(&mut self, writer: &mut W, frame: &Frame) -> (r: u64)
        requires
            old(writer).inv(),
            frame.wf(),
        ensures
            final(writer).inv(),
            final(writer).is_seekable() == old(writer).is_seekable(),
            *final(self) == *old(self),
            !frame.is_valid_spec() || old(self).timecode_scale_ == 0 || (old(self).timecode_scale_
                >= 1 && !old(self).rel_in_range(frame.timestamp_ as int)) ==> r == 0 && final(writer).out() == old(writer).out() && final(writer).pos() == old(writer).pos(),
            r != 0 ==> ({
                let rel = old(self).rel_timecode(frame.timestamp_ as int);
                let b = Self::frame_block_bytes(*frame, rel, old(self).timecode_scale_ as int);
                &&& frame.is_valid_spec()
                &&& old(self).timecode_scale_ >= 1
                &&& old(self).rel_in_range(frame.timestamp_ as int)
                &&& final(writer).out() == write_at(old(writer).out(), old(writer).pos(), b)
                &&& final(writer).pos() == old(writer).pos() + b.len()
                &&& r == Self::frame_block_size(*frame, old(self).timecode_scale_ as int)
            }),
    {
        if !frame.IsValid() || self.timecode_scale_ == 0 {
            return 0;
        }
        // A block's timecode is a signed 16-bit offset from the cluster's
        // own timecode; as a simplification only non-negative offsets are
        // accepted.
        let scaled = frame.timestamp() / self.timecode_scale_;
        let relative_timecode = self.GetRelativeTimecode(scaled);
        if relative_timecode < 0 || relative_timecode > MAX_BLOCK_TIMECODE {
            return 0;
        }
        if frame.CanBeSimpleBlock() {
            frame.WriteSimpleBlock(writer, relative_timecode)
        } else {
            frame.WriteBlock(writer, relative_timecode, self.timecode_scale_)
        }
    }

    /// The timestamp of the last block written for a track, if any.
    fn get_last_time(&self, track: u64) -> (r: Option<u64>)
        ensures
            r == last_time_of(self.last_block_timestamp_@, track),
    {
        let n = self.last_block_timestamp_.len();
        let mut i: usize = 0;
        while i < n
            invariant
                n == self.last_block_timestamp_@.len(),
                i <= n,
                forall|k: int|
                    0 <= k < i ==> (#[trigger] self.last_block_timestamp_@[k]).track != track,
            decreases n - i,
        {
            if self.last_block_timestamp_[i].track == track {
                proof {
                    lemma_time_index_at(self.last_block_timestamp_@, track, i as int);
                }
                return Some(self.last_block_timestamp_[i].timestamp);
            }
            i = i + 1;
        }
        proof {
            lemma_time_index_full(self.last_block_timestamp_@, track);
        }
        None
    }

    /// Record the timestamp of the last block written for a track: the
    /// track's entry is replaced, or appended when the track has none.
    fn set_last_time(&mut self, track: u64, timestamp: u64)
        ensures
            final(self).blocks_added_ == old(self).blocks_added_,
            final(self).finalized_ == old(self).finalized_,
            final(self).fixed_size_timecode_ == old(self).fixed_size_timecode_,
            final(self).header_written_ == old(self).header_written_,
            final(self).payload_size_ == old(self).payload_size_,
            final(self).position_for_cues_ == old(self).position_for_cues_,
            final(self).size_position_ == old(self).size_position_,
            final(self).timecode_ == old(self).timecode_,
            final(self).timecode_scale_ == old(self).timecode_scale_,
            final(self).write_last_frame_with_duration_ == old(self).write_last_frame_with_duration_,
            final(self).stored_frames_ == old(self).stored_frames_,
            final(self).last_block_timestamp_@ == if time_index_of(
                old(self).last_block_timestamp_@,
                track,
            ) < old(self).last_block_timestamp_@.len() {
                old(self).last_block_timestamp_@.update(
                    time_index_of(old(self).last_block_timestamp_@, track),
                    (TrackTime { track, timestamp }),
                )
            } else {
                old(self).last_block_timestamp_@.push(TrackTime { track, timestamp })
            },
            last_time_of(final(self).last_block_timestamp_@, track) == Some(timestamp),
            old(self).tracks_unique() ==> final(self).tracks_unique(),
    {
        let n = self.last_block_timestamp_.len();
        let mut i: usize = 0;
        while i < n
            invariant
                n == self.last_block_timestamp_@.len(),
                i <= n,
                *self == *old(self),
                forall|k: int|
                    0 <= k < i ==> (#[trigger] self.last_block_timestamp_@[k]).track != track,
            decreases n - i,
        {
            if self.last_block_timestamp_[i].track == track {
                proof {
                    lemma_time_index_at(self.last_block_timestamp_@, track, i as int);
                }
                self.last_block_timestamp_.set(i, TrackTime { track, timestamp });
                proof {
                    lemma_time_index_at(self.last_block_timestamp_@, track, i as int);
                    assert(old(self).tracks_unique() ==> self.tracks_unique()) by {
                        if old(self).tracks_unique() {
                            assert(forall|k: int|
                                0 <= k < self.last_block_timestamp_@.len() ==> (
                                #[trigger] self.last_block_timestamp_@[k]).track == old(self).last_block_timestamp_@[k].track);
                        }
                    }
                }
                return ;
            }
            i = i + 1;
        }
        proof {
            lemma_time_index_full(self.last_block_timestamp_@, track);
        }
        self.last_block_timestamp_.push(TrackTime { track, timestamp });
        proof {
            lemma_time_index_at(self.last_block_timestamp_@, track, n as int);
        }
    }

    /// Write a frame now: make sure the header is on the stream, write the
    /// block, account for it, and remember the track's last timestamp.
    fn DoWriteFrame<W: Writer>(&mut self, writer: &mut W, frame: &Frame) -> (r: bool)
        requires
            old(writer).inv(),
            frame.wf(),
        ensures
            final(writer).inv(),
            final(writer).is_seekable() == old(writer).is_seekable(),
            final(self).finalized_ == old(self).finalized_,
            final(self).stored_frames_ == old(self).stored_frames_,
            final(self).timecode_ == old(self).timecode_,
            final(self).timecode_scale_ == old(self).timecode_scale_,
            final(self).fixed_size_timecode_ == old(self).fixed_size_timecode_,
            final(self).write_last_frame_with_duration_ == old(self).write_last_frame_with_duration_,
            final(self).position_for_cues_ == old(self).position_for_cues_,
            !frame.is_valid_spec() ==> !r && *final(self) == *old(self) && final(writer).out()
                == old(writer).out() && final(writer).pos() == old(writer).pos(),
            old(self).finalized_ ==> !r,
            old(self).tracks_unique() ==> final(self).tracks_unique(),
            r ==> final(self).header_written_ && !final(self).finalized_ && final(self).blocks_added_ == old(self).blocks_added_ + 1 && extends(
                *old(writer),
                *final(writer),
            ),
            r ==> ({
                let hb = if old(self).header_written_ {
                    Seq::<u8>::empty()
                } else {
                    old(self).cluster_header_bytes()
                };
                let rel = old(self).rel_timecode(frame.timestamp_ as int);
                let fb = Cluster::frame_block_bytes(
                    *frame,
                    rel,
                    old(self).timecode_scale_ as int,
                );
                &&& frame.is_valid_spec()
                &&& old(self).timecode_scale_ >= 1
                &&& old(self).rel_in_range(frame.timestamp_ as int)
                &&& final(writer).out() == write_at(old(writer).out(), old(writer).pos(), hb + fb)
                &&& final(writer).pos() == old(writer).pos() + hb.len() + fb.len()
                &&& final(self).payload_size_ == old(self).payload_size_ + (
                if old(self).header_written_ {
                    0int
                } else {
                    uint_elem_size(
                        ids::MkvTimecode as int,
                        old(self).timecode_ as int,
                        old(self).timecode_fixed_arg(),
                    )
                }) + Cluster::frame_block_size(*frame, old(self).timecode_scale_ as int)
                &&& last_time_of(final(self).last_block_timestamp_@, frame.track_number_)
                    == Some(frame.timestamp_)
            }),
    {
        proof {
            writer.lemma_inv();
        }
        if !frame.IsValid() {
            return false;
        }
        let ghost w0 = *writer;
        let ghost c0 = *self;
        if !self.PreWriteBlock(writer) {
            return false;
        }
        let ghost w1 = *writer;
        let ghost fb = Cluster::frame_block_bytes(
            *frame,
            c0.rel_timecode(frame.timestamp_ as int),
            c0.timecode_scale_ as int,
        );
        let element_size = self.WriteFrame(writer, frame);
        if element_size == 0 {
            return false;
        }
        proof {
            writer.lemma_inv();
            lemma_write_advances(w1, *writer, fb);
            lemma_extends_trans(w0, w1, *writer);
            if !c0.header_written_ {
                lemma_write_at_concat(w0.out(), w0.pos(), c0.cluster_header_bytes(), fb);
            } else {
                assert(Seq::<u8>::empty() + fb =~= fb);
            }
        }
        if !self.PostWriteBlock(element_size) {
            return false;
        }
        self.set_last_time(frame.track_number(), frame.timestamp());
        true
    }

    /// Whether every non-empty queue's oldest frame has a timestamp at or
    /// past `ts`.
    fn none_earlier(queues: &Vec<FrameQueue>, ts: u64) -> (r: bool)
        ensures
            r == forall|k: int|
                0 <= k < queues@.len() ==> (queues@[k].frames@.len() > 0
                    ==> queues@[k].frames@[0].timestamp_ >= ts),
    {
        let n = queues.len();
        let mut i: usize = 0;
        while i < n
            invariant
                n == queues@.len(),
                i <= n,
                forall|k: int|
                    0 <= k < i ==> (queues@[k].frames@.len() > 0 ==> queues@[k].frames@[0].timestamp_
                        >= ts),
            decreases n - i,
        {
            if !queues[i].frames.is_empty() {
                if queues[i].frames[0].timestamp() < ts {
                    return false;
                }
            }
            i = i + 1;
        }
        true
    }

    /// The index of this track's queue, searching from the front.
    fn find_queue(&self, track: u64) -> (r: Option<usize>)
        ensures
            match r {
                Some(i) => i as int == queue_index_of(self.stored_frames_@, track) && i
                    < self.stored_frames_@.len() && self.stored_frames_@[i as int].track == track,
                None => queue_index_of(self.stored_frames_@, track)
                    == self.stored_frames_@.len() && forall|k: int|
                    0 <= k < self.stored_frames_@.len() ==> (
                    #[trigger] self.stored_frames_@[k]).track != track,
            },
    {
        let n = self.stored_frames_.len();
        let mut i: usize = 0;
        while i < n
            invariant
                n == self.stored_frames_@.len(),
                i <= n,
                forall|k: int| 0 <= k < i ==> (#[trigger] self.stored_frames_@[k]).track != track,
            decreases n - i,
        {
            if self.stored_frames_[i].track == track {
                proof {
                    lemma_queue_index_at(self.stored_frames_@, track, i as int);
                }
                return Some(i);
            }
            i = i + 1;
        }
        proof {
            lemma_queue_index_full(self.stored_frames_@, track);
        }
        None
    }

    /// Write the frame now, or hold it back. With hold-back off the frame
    /// goes straight to the stream. With hold-back on the frame joins its
    /// track's queue, after the queue's older entries are flushed in
    /// timestamp order for as long as no other track holds an older frame:
    /// the flush stops at the first entry some other track precedes.
    fn QueueOrWriteFrame<W: Writer>(&mut self, writer: &mut W, frame: &Frame) -> (r: bool)
        requires
            old(writer).inv(),
            frame.wf(),
        ensures
            final(writer).inv(),
            final(writer).is_seekable() == old(writer).is_seekable(),
            final(self).timecode_ == old(self).timecode_,
            final(self).timecode_scale_ == old(self).timecode_scale_,
            final(self).fixed_size_timecode_ == old(self).fixed_size_timecode_,
            final(self).write_last_frame_with_duration_ == old(self).write_last_frame_with_duration_,
            final(self).position_for_cues_ == old(self).position_for_cues_,
            final(self).finalized_ == old(self).finalized_,
            old(self).tracks_unique() ==> final(self).tracks_unique(),
            !frame.is_valid_spec() ==> !r && *final(self) == *old(self) && final(writer).out()
                == old(writer).out() && final(writer).pos() == old(writer).pos(),
            frame.is_valid_spec() && old(self).write_last_frame_with_duration_ ==> r,
            frame.is_valid_spec() && old(self).write_last_frame_with_duration_ ==> ({
                let q = final(self).stored_frames_@.last();
                let old_q = track_queue(old(self).stored_frames_@, frame.track_number_);
                &&& final(self).stored_frames_@.len() > 0
                &&& q.track == frame.track_number_
                &&& q.frames@.len() > 0
                &&& frame_like(q.frames@.last(), *frame)
                &&& exists|k: int|
                    0 <= k <= old_q.len() && q.frames@.drop_last() == old_q.skip(k)
            }),
            !old(self).write_last_frame_with_duration_ && old(self).finalized_ ==> !r,
            !old(self).write_last_frame_with_duration_ && r ==> final(self).header_written_
                && !final(self).finalized_ && final(self).blocks_added_ == old(self).blocks_added_
                + 1,
            !old(self).write_last_frame_with_duration_ && r ==> ({
                let hb = if old(self).header_written_ {
                    Seq::<u8>::empty()
                } else {
                    old(self).cluster_header_bytes()
                };
                let rel = old(self).rel_timecode(frame.timestamp_ as int);
                let fb = Cluster::frame_block_bytes(
                    *frame,
                    rel,
                    old(self).timecode_scale_ as int,
                );
                &&& old(self).timecode_scale_ >= 1
                &&& old(self).rel_in_range(frame.timestamp_ as int)
                &&& final(writer).out() == write_at(old(writer).out(), old(writer).pos(), hb + fb)
                &&& final(writer).pos() == old(writer).pos() + hb.len() + fb.len()
                &&& final(self).payload_size_ == old(self).payload_size_ + (
                if old(self).header_written_ {
                    0int
                } else {
                    uint_elem_size(
                        ids::MkvTimecode as int,
                        old(self).timecode_ as int,
                        old(self).timecode_fixed_arg(),
                    )
                }) + Cluster::frame_block_size(*frame, old(self).timecode_scale_ as int)
                &&& last_time_of(final(self).last_block_timestamp_@, frame.track_number_)
                    == Some(frame.timestamp_)
            }),
    {
        if !frame.IsValid() {
            return false;
        }
        // With no duration owed to each track's last frame, write at once.
        if !self.write_last_frame_with_duration_ {
            return self.DoWriteFrame(writer, frame);
        }
        let track_number = frame.track_number();
        let frame_to_store = frame.duplicate();

        let ghost old_q = track_queue(old(self).stored_frames_@, frame.track_number_);
        let mut queue: FrameQueue = match self.find_queue(track_number) {
            Some(i) => self.stored_frames_.remove(i),
            None => FrameQueue { track: track_number, frames: Vec::new() },
        };
        proof {
            assert(queue.frames@ =~= old_q.skip(0));
        }
        let ghost qs1 = self.stored_frames_@;
        proof {
            if old(self).tracks_unique() {
                assert(forall|i: int, j: int|
                    0 <= i < j < qs1.len() ==> (#[trigger] qs1[i]).track != (
                    #[trigger] qs1[j]).track);
                assert(forall|k: int|
                    0 <= k < qs1.len() ==> (#[trigger] qs1[k]).track != track_number);
            }
        }
        let ghost mut j: int = 0;
        // Flush the queue's older entries while no other track holds an
        // older frame; stop at the first entry some other track precedes.
        loop
            invariant
                writer.inv(),
                writer.is_seekable() == old(writer).is_seekable(),
                self.timecode_ == old(self).timecode_,
                self.timecode_scale_ == old(self).timecode_scale_,
                self.fixed_size_timecode_ == old(self).fixed_size_timecode_,
                self.write_last_frame_with_duration_ == old(self).write_last_frame_with_duration_,
                self.position_for_cues_ == old(self).position_for_cues_,
                self.finalized_ == old(self).finalized_,
                queue.track == frame.track_number_,
                frame_like(frame_to_store, *frame),
                self.stored_frames_@ == qs1,
                0 <= j <= old_q.len(),
                queue.frames@ == old_q.skip(j),
                old(self).tracks_unique() ==> self.tracks_unique(),
            ensures
                writer.inv(),
                writer.is_seekable() == old(writer).is_seekable(),
                self.timecode_ == old(self).timecode_,
                self.timecode_scale_ == old(self).timecode_scale_,
                self.fixed_size_timecode_ == old(self).fixed_size_timecode_,
                self.write_last_frame_with_duration_ == old(self).write_last_frame_with_duration_,
                self.position_for_cues_ == old(self).position_for_cues_,
                self.finalized_ == old(self).finalized_,
                queue.track == frame.track_number_,
                frame_like(frame_to_store, *frame),
                self.stored_frames_@ == qs1,
                0 <= j <= old_q.len(),
                queue.frames@ == old_q.skip(j),
                old(self).tracks_unique() ==> self.tracks_unique(),
            decreases queue.frames@.len(),
        {
            if queue.frames.is_empty() {
                break ;
            }
            if !Self::none_earlier(&self.stored_frames_, queue.frames[0].timestamp()) {
                break ;
            }
            let fl = queue.frames[0].length();
            let al = queue.frames[0].additional_length();
            if fl > u64::MAX - 200 || al > u64::MAX - 200 - fl {
                break ;
            }
            let candidate = queue.frames.remove(0);
            if !self.DoWriteFrame(writer, &candidate) {
                // The frame could not be written; keep it queued and stop.
                queue.frames.insert(0, candidate);
                proof {
                    assert(queue.frames@ =~= old_q.skip(j));
                }
                break ;
            }
            proof {
                assert(queue.frames@ =~= old_q.skip(j + 1));
                j = j + 1;
            }
        }
        queue.frames.push(frame_to_store);
        proof {
            assert(queue.frames@.drop_last() =~= old_q.skip(j));
        }
        self.stored_frames_.push(queue);
        true
    }

    /// Build a frame from raw data and add it to the cluster.
    pub fn AddNewFrame<W: Writer>(
        &mut self,
        writer: &mut W,
        data: &[u8],
        track_number: u64,
        abs_timecode: u64,
        is_key: bool,
    ) -> (r: bool)
        requires
            old(writer).inv(),
            data@.len() + 200 <= u64::MAX,
        ensures
            final(writer).inv(),
            final(writer).is_seekable() == old(writer).is_seekable(),
            final(self).finalized_ == old(self).finalized_,
            old(self).tracks_unique() ==> final(self).tracks_unique(),
            data@.len() == 0 || track_number == 0 || track_number > crate::frame::MAX_TRACK_NUMBER
                ==> !r,
            data@.len() > 0 && 1 <= track_number <= crate::frame::MAX_TRACK_NUMBER && old(self).write_last_frame_with_duration_ ==> r,
            !old(self).write_last_frame_with_duration_ && old(self).finalized_ ==> !r,
            !old(self).write_last_frame_with_duration_ && r ==> ({
                let hb = if old(self).header_written_ {
                    Seq::<u8>::empty()
                } else {
                    old(self).cluster_header_bytes()
                };
                let rel = old(self).rel_timecode(abs_timecode as int);
                let fb = crate::frame::simple_block_bytes_of(
                    track_number as int,
                    rel,
                    is_key,
                    data@,
                );
                &&& old(self).timecode_scale_ >= 1
                &&& old(self).rel_in_range(abs_timecode as int)
                &&& final(writer).out() == write_at(old(writer).out(), old(writer).pos(), hb + fb)
                &&& final(writer).pos() == old(writer).pos() + hb.len() + fb.len()
                &&& final(self).header_written_
                &&& final(self).blocks_added_ == old(self).blocks_added_ + 1
                &&& final(self).payload_size_ == old(self).payload_size_ + (
                if old(self).header_written_ {
                    0int
                } else {
                    uint_elem_size(
                        ids::MkvTimecode as int,
                        old(self).timecode_ as int,
                        old(self).timecode_fixed_arg(),
                    )
                }) + 1 + coded_width(4 + data@.len() as int) + 4 + data@.len()
                &&& last_time_of(final(self).last_block_timestamp_@, track_number) == Some(
                    abs_timecode,
                )
            }),
    {
        let mut frame = Frame::new();
        if !frame.Init(data) {
            return false;
        }
        frame.set_track_number(track_number);
        frame.set_timestamp(abs_timecode);
        frame.set_is_key(is_key);
        self.QueueOrWriteFrame(writer, &frame)
    }

    /// Add a frame to the cluster.
    pub fn AddFrame<W: Writer>(&mut self, writer: &mut W, frame: &Frame) -> (r: bool)
        requires
            old(writer).inv(),
            frame.wf(),
        ensures
            final(writer).inv(),
            final(writer).is_seekable() == old(writer).is_seekable(),
            final(self).finalized_ == old(self).finalized_,
            old(self).tracks_unique() ==> final(self).tracks_unique(),
            !frame.is_valid_spec() ==> !r && *final(self) == *old(self) && final(writer).out()
                == old(writer).out() && final(writer).pos() == old(writer).pos(),
            frame.is_valid_spec() && old(self).write_last_frame_with_duration_ ==> r,
            frame.is_valid_spec() && old(self).write_last_frame_with_duration_ ==> ({
                let q = final(self).stored_frames_@.last();
                let old_q = track_queue(old(self).stored_frames_@, frame.track_number_);
                &&& final(self).stored_frames_@.len() > 0
                &&& q.track == frame.track_number_
                &&& q.frames@.len() > 0
                &&& frame_like(q.frames@.last(), *frame)
                &&& exists|k: int|
                    0 <= k <= old_q.len() && q.frames@.drop_last() == old_q.skip(k)
            }),
            !old(self).write_last_frame_with_duration_ && old(self).finalized_ ==> !r,
            !old(self).write_last_frame_with_duration_ && r ==> ({
                let hb = if old(self).header_written_ {
                    Seq::<u8>::empty()
                } else {
                    old(self).cluster_header_bytes()
                };
                let rel = old(self).rel_timecode(frame.timestamp_ as int);
                let fb = Cluster::frame_block_bytes(
                    *frame,
                    rel,
                    old(self).timecode_scale_ as int,
                );
                &&& old(self).timecode_scale_ >= 1
                &&& old(self).rel_in_range(frame.timestamp_ as int)
                &&& final(writer).out() == write_at(old(writer).out(), old(writer).pos(), hb + fb)
                &&& final(writer).pos() == old(writer).pos() + hb.len() + fb.len()
                &&& final(self).header_written_
                &&& final(self).blocks_added_ == old(self).blocks_added_ + 1
                &&& final(self).payload_size_ == old(self).payload_size_ + (
                if old(self).header_written_ {
                    0int
                } else {
                    uint_elem_size(
                        ids::MkvTimecode as int,
                        old(self).timecode_ as int,
                        old(self).timecode_fixed_arg(),
                    )
                }) + Cluster::frame_block_size(*frame, old(self).timecode_scale_ as int)
                &&& last_time_of(final(self).last_block_timestamp_@, frame.track_number_)
                    == Some(frame.timestamp_)
            }),
    {
        self.QueueOrWriteFrame(writer, frame)
    }

    /// Build a frame with additional (side-data) content and add it.
    pub fn AddFrameWithAdditional<W: Writer>(
        &mut self,
        writer: &mut W,
        data: &[u8],
        additional: &[u8],
        add_id: u64,
        track_number: u64,
        abs_timecode: u64,
        is_key: bool,
    ) -> (r: bool)
        requires
            old(writer).inv(),
            data@.len() + additional@.len() + 200 <= u64::MAX,
        ensures
            final(writer).inv(),
            final(writer).is_seekable() == old(writer).is_seekable(),
            final(self).finalized_ == old(self).finalized_,
            old(self).tracks_unique() ==> final(self).tracks_unique(),
            additional@.len() == 0 ==> !r && *final(self) == *old(self) && final(writer).out()
                == old(writer).out() && final(writer).pos() == old(writer).pos(),
            additional@.len() > 0 && data@.len() > 0 && 1 <= track_number
                <= crate::frame::MAX_TRACK_NUMBER && is_key && old(self).write_last_frame_with_duration_ ==> r,
            !old(self).write_last_frame_with_duration_ && old(self).finalized_ ==> !r,
            !old(self).write_last_frame_with_duration_ && r ==> final(self).header_written_
                && final(self).blocks_added_ == old(self).blocks_added_ + 1 && extends(
                *old(writer),
                *final(writer),
            ) && last_time_of(final(self).last_block_timestamp_@, track_number) == Some(
                abs_timecode,
            ),
    {
        if additional.is_empty() {
            return false;
        }
        let mut frame = Frame::new();
        if !frame.Init(data) {
            return false;
        }
        if !frame.AddAdditionalData(additional, add_id) {
            return false;
        }
        frame.set_track_number(track_number);
        frame.set_timestamp(abs_timecode);
        frame.set_is_key(is_key);
        let ghost w0 = *writer;
        let r = self.QueueOrWriteFrame(writer, &frame);
        proof {
            if r && !old(self).write_last_frame_with_duration_ {
                w0.lemma_inv();
                let hb = if old(self).header_written_ {
                    Seq::<u8>::empty()
                } else {
                    old(self).cluster_header_bytes()
                };
                let rel = old(self).rel_timecode(frame.timestamp_ as int);
                let fb = Cluster::frame_block_bytes(frame, rel, old(self).timecode_scale_ as int);
                lemma_write_extends(w0, *writer, hb + fb);
            }
        }
        r
    }

    /// Build a frame with discard padding and add it.
    pub fn AddFrameWithDiscardPadding<W: Writer>(
        &mut self,
        writer: &mut W,
        data: &[u8],
        discard_padding: i64,
        track_number: u64,
        abs_timecode: u64,
        is_key: bool,
    ) -> (r: bool)
        requires
            old(writer).inv(),
            data@.len() + 200 <= u64::MAX,
        ensures
            final(writer).inv(),
            final(writer).is_seekable() == old(writer).is_seekable(),
            final(self).finalized_ == old(self).finalized_,
            old(self).tracks_unique() ==> final(self).tracks_unique(),
            data@.len() > 0 && 1 <= track_number <= crate::frame::MAX_TRACK_NUMBER && (
            discard_padding == 0 || is_key) && old(self).write_last_frame_with_duration_ ==> r,
            !old(self).write_last_frame_with_duration_ && old(self).finalized_ ==> !r,
            !old(self).write_last_frame_with_duration_ && r ==> final(self).header_written_
                && final(self).blocks_added_ == old(self).blocks_added_ + 1 && extends(
                *old(writer),
                *final(writer),
            ) && last_time_of(final(self).last_block_timestamp_@, track_number) == Some(
                abs_timecode,
            ),
    {
        let mut frame = Frame::new();
        if !frame.Init(data) {
            return false;
        }
        frame.set_discard_padding(discard_padding);
        frame.set_track_number(track_number);
        frame.set_timestamp(abs_timecode);
        frame.set_is_key(is_key);
        let ghost w0 = *writer;
        let r = self.QueueOrWriteFrame(writer, &frame);
        proof {
            if r && !old(self).write_last_frame_with_duration_ {
                w0.lemma_inv();
                let hb = if old(self).header_written_ {
                    Seq::<u8>::empty()
                } else {
                    old(self).cluster_header_bytes()
                };
                let rel = old(self).rel_timecode(frame.timestamp_ as int);
                let fb = Cluster::frame_block_bytes(frame, rel, old(self).timecode_scale_ as int);
                lemma_write_extends(w0, *writer, hb + fb);
            }
        }
        r
    }

    /// Build a metadata frame, which carries an explicit duration and is
    /// always a key frame, and add it.
    pub fn AddMetadata<W: Writer>(
        &mut self,
        writer: &mut W,
        data: &[u8],
        track_number: u64,
        abs_timecode: u64,
        duration_timecode: u64,
    ) -> (r: bool)
        requires
            old(writer).inv(),
            data@.len() + 200 <= u64::MAX,
        ensures
            final(writer).inv(),
            final(writer).is_seekable() == old(writer).is_seekable(),
            final(self).finalized_ == old(self).finalized_,
            old(self).tracks_unique() ==> final(self).tracks_unique(),
            data@.len() == 0 || track_number == 0 || track_number > crate::frame::MAX_TRACK_NUMBER
                ==> !r,
            data@.len() > 0 && 1 <= track_number <= crate::frame::MAX_TRACK_NUMBER && old(self).write_last_frame_with_duration_ ==> r,
            !old(self).write_last_frame_with_duration_ && old(self).finalized_ ==> !r,
            !old(self).write_last_frame_with_duration_ && r ==> final(self).header_written_
                && final(self).blocks_added_ == old(self).blocks_added_ + 1 && extends(
                *old(writer),
                *final(writer),
            ) && last_time_of(final(self).last_block_timestamp_@, track_number) == Some(
                abs_timecode,
            ),
    {
        let mut frame = Frame::new();
        if !frame.Init(data) {
            return false;
        }
        frame.set_track_number(track_number);
        frame.set_timestamp(abs_timecode);
        frame.set_duration(duration_timecode);
        frame.set_is_key(true);  // All metadata blocks are keyframes.
        let ghost w0 = *writer;
        let r = self.QueueOrWriteFrame(writer, &frame);
        proof {
            if r && !old(self).write_last_frame_with_duration_ {
                w0.lemma_inv();
                let hb = if old(self).header_written_ {
                    Seq::<u8>::empty()
                } else {
                    old(self).cluster_header_bytes()
                };
                let rel = old(self).rel_timecode(frame.timestamp_ as int);
                let fb = Cluster::frame_block_bytes(frame, rel, old(self).timecode_scale_ as int);
                lemma_write_extends(w0, *writer, hb + fb);
            }
        }
        r
    }

    /// Close the cluster. With hold-back active, first drain the queues in
    /// a k-way merge by increasing timestamp, attaching a computed duration
    /// (and, for non-key frames, a reference timestamp) to each track's
    /// last frame when asked to. Then, on a seekable sink, overwrite the
    /// 8-byte unknown-size field with the accumulated payload size.
    /// Finalizing twice fails and writes nothing.
    #[verifier::loop_isolation(false)]
    pub fn finalize<W: Writer>(
        &mut self,
        writer: &mut W,
        set_last_frame_duration: bool,
        duration: u64,
    ) -> (r: bool)
        requires
            old(writer).inv(),
        ensures
            final(writer).inv(),
            final(writer).is_seekable() == old(writer).is_seekable(),
            final(self).timecode_ == old(self).timecode_,
            final(self).timecode_scale_ == old(self).timecode_scale_,
            final(self).fixed_size_timecode_ == old(self).fixed_size_timecode_,
            final(self).write_last_frame_with_duration_ == old(self).write_last_frame_with_duration_,
            final(self).position_for_cues_ == old(self).position_for_cues_,
            old(self).finalized_ ==> !r && *final(self) == *old(self) && final(writer).out() == old(writer).out() && final(writer).pos() == old(writer).pos(),
            old(self).tracks_unique() ==> final(self).tracks_unique(),
            r && old(self).write_last_frame_with_duration_ ==> final(self).stored_frames_@.len()
                == 0 && final(self).blocks_added_ == old(self).blocks_added_ + queued_count(old(self).stored_frames_@),
            !old(self).finalized_ && !old(self).write_last_frame_with_duration_ && old(self).size_position_ < 0 ==> !r,
            !old(self).finalized_ && !old(self).write_last_frame_with_duration_ && old(self).size_position_ >= 0 && !old(writer).is_seekable() ==> r,
            r && !old(self).write_last_frame_with_duration_ && final(writer).is_seekable()
                ==> final(writer).pos() == old(writer).pos(),
            r && !old(self).write_last_frame_with_duration_ && !final(writer).is_seekable()
                ==> final(writer).out() == old(writer).out() && final(writer).pos() == old(writer).pos(),
            r && final(writer).is_seekable() ==> forall|j: int|
                0 <= j < old(writer).pos() && !(final(self).size_position_ <= j < final(self).size_position_ + 8) ==> final(writer).out()[j] == old(writer).out()[j],
            r && !final(writer).is_seekable() ==> forall|j: int|
                0 <= j < old(writer).pos() ==> final(writer).out()[j] == old(writer).out()[j],
            r ==> final(self).finalized_ && final(self).size_position_ >= 0,
            r && final(writer).is_seekable() ==> final(self).payload_size_
                <= 0xFFFFFFFFFFFFFE,
            r && final(writer).is_seekable() ==> 0 <= final(self).size_position_ && final(self).size_position_ + 8 <= final(writer).out().len() && final(writer).out().subrange(
                final(self).size_position_ as int,
                final(self).size_position_ as int + 8,
            ) == vint_bytes(final(self).payload_size_ as int, 8),
    {
        proof {
            writer.lemma_inv();
        }
        if self.finalized_ {
            return false;
        }
        if self.write_last_frame_with_duration_ {
            // Write out held back frames: a k-way merge across all tracks
            // in increasing timestamp order. Ties go to the queue that
            // comes first in the table.
            let mut queues: Vec<FrameQueue> = Vec::new();
            core::mem::swap(&mut queues, &mut self.stored_frames_);
            loop
                invariant
                    writer.inv(),
                    writer.is_seekable() == old(writer).is_seekable(),
                    self.timecode_ == old(self).timecode_,
                    self.timecode_scale_ == old(self).timecode_scale_,
                    self.fixed_size_timecode_ == old(self).fixed_size_timecode_,
                    self.write_last_frame_with_duration_ == old(self).write_last_frame_with_duration_,
                    self.position_for_cues_ == old(self).position_for_cues_,
                    !self.finalized_,
                    self.stored_frames_@.len() == 0,
                    old(self).tracks_unique() ==> self.tracks_unique(),
                    extends(*old(writer), *writer),
                    self.blocks_added_ == old(self).blocks_added_ + queued_count(
                        old(self).stored_frames_@,
                    ) - queued_count(queues@),
                decreases queued_count(queues@),
            {
                // Pick the queue whose oldest frame has the least
                // timestamp.
                let n = queues.len();
                let mut found = false;
                let mut best: usize = 0;
                let mut best_ts: u64 = 0;
                let mut k: usize = 0;
                while k < n
                    invariant
                        n == queues@.len(),
                        k <= n,
                        found ==> best < k && queues@[best as int].frames@.len() > 0,
                        !found ==> forall|j: int| 0 <= j < k ==> queues@[j].frames@.len() == 0,
                    decreases n - k,
                {
                    if !queues[k].frames.is_empty() {
                        let ts = queues[k].frames[0].timestamp();
                        if !found || ts < best_ts {
                            found = true;
                            best = k;
                            best_ts = ts;
                        }
                    }
                    k = k + 1;
                }
                if !found {
                    proof {
                        lemma_queued_count_empty(queues@);
                    }
                    break ;
                }
                proof {
                    lemma_queued_count_remove(queues@, best as int);
                    lemma_queued_count_nonneg(queues@.remove(best as int));
                }
                let ghost qs0 = queues@;
                let mut q = queues.remove(best);
                let mut frame = q.frames.remove(0);
                // Attach the duration if this is the track's last frame.
                if set_last_frame_duration && q.frames.is_empty() && !frame.duration_set() {
                    let ts = frame.timestamp();
                    let d: u64 = if duration >= ts {
                        duration - ts
                    } else {
                        0
                    };
                    frame.set_duration(d);
                    if !frame.is_key() && !frame.reference_block_timestamp_set() {
                        match self.get_last_time(frame.track_number()) {
                            Some(lbt) => {
                                if lbt <= 0x7FFF_FFFF_FFFF_FFFF {
                                    frame.set_reference_block_timestamp(lbt as i64);
                                }
                            },
                            None => {},
                        }
                    }
                }
                let fl = frame.length();
                let al = frame.additional_length();
                if fl > u64::MAX - 200 || al > u64::MAX - 200 - fl {
                    return false;
                }
                let ghost w_it = *writer;
                let wrote = self.DoWriteFrame(writer, &frame);
                proof {
                    lemma_queued_count_push(queues@, q);
                    if wrote {
                        lemma_extends_trans(*old(writer), w_it, *writer);
                    }
                }
                queues.push(q);
                if !wrote {
                    return false;
                }
            }
        }
        if self.size_position_ < 0 {
            return false;
        }
        if writer.seekable() {
            let pos = writer.get_position();
            if !writer.set_position(self.size_position_ as u64) {
                return false;
            }
            proof {
                writer.lemma_inv();
            }
            let ghost w_at = *writer;
            let payload_size = self.payload_size();
            if !WriteUIntSize(writer, payload_size, 8) {
                return false;
            }
            proof {
                crate::util::lemma_pow128_values();
                lemma_write_at_len(
                    w_at.out(),
                    self.size_position_ as int,
                    vint_bytes(self.payload_size_ as int, 8),
                );
                lemma_vint_bytes_len(self.payload_size_ as int, 8);
                let sp = self.size_position_ as int;
                let vb = vint_bytes(self.payload_size_ as int, 8);
                assert forall|j: int|
                    0 <= j < old(writer).pos() && !(sp <= j < sp + 8) implies writer.out()[j]
                    == old(writer).out()[j] by {
                    crate::writer::lemma_write_at_outside(w_at.out(), sp, vb, j);
                }
            }
            if !writer.set_position(pos) {
                return false;
            }
        }
        self.finalized_ = true;
        true
    }

    /// Close a cluster that never held frames back. Fails on a cluster in
    /// hold-back mode, which owes its tracks' last frames a duration and
    /// must be closed through the parameterized finalization.
    pub fn Finalize<W: Writer>(&mut self, writer: &mut W) -> (r: bool)
        requires
            old(writer).inv(),
        ensures
            final(writer).inv(),
            final(writer).is_seekable() == old(writer).is_seekable(),
            old(self).write_last_frame_with_duration_ ==> !r && *final(self) == *old(self)
                && final(writer).out() == old(writer).out() && final(writer).pos() == old(writer).pos(),
            old(self).finalized_ ==> !r && *final(self) == *old(self) && final(writer).out() == old(writer).out() && final(writer).pos() == old(writer).pos(),
            old(self).tracks_unique() ==> final(self).tracks_unique(),
            r && old(self).write_last_frame_with_duration_ ==> final(self).stored_frames_@.len()
                == 0,
            r ==> final(self).finalized_,
            r && final(writer).is_seekable() ==> 0 <= final(self).size_position_ && final(self).size_position_ + 8 <= final(writer).out().len() && final(writer).out().subrange(
                final(self).size_position_ as int,
                final(self).size_position_ as int + 8,
            ) == vint_bytes(final(self).payload_size_ as int, 8),
    {
        if self.write_last_frame_with_duration_ {
            return false;
        }
        self.finalize(writer, false, 0)
    }
}

} // verus!
