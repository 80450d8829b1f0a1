//! The Tracks element: the list of track entries, with unique, positive
//! track numbers no wider than one var-uint byte.

use vstd::prelude::*;

use crate::ids;
use crate::track::{lemma_encodings_size_nonneg, Track};
use crate::util::{
    coded_width, lemma_master_header_bytes_len, master_elem_size, master_header_bytes, uint_width,
    WriteEbmlMasterElement,
};
use crate::writer::{extends, lemma_extends_trans, lemma_write_extends, Writer};

verus! {

pub const kOpusCodecId: &'static str = "A_OPUS";
pub const kVorbisCodecId: &'static str = "A_VORBIS";
pub const kAv1CodecId: &'static str = "V_AV1";
pub const kVp8CodecId: &'static str = "V_VP8";
pub const kVp9CodecId: &'static str = "V_VP9";
pub const kWebVttCaptionsId: &'static str = "D_WEBVTT/CAPTIONS";
pub const kWebVttDescriptionsId: &'static str = "D_WEBVTT/DESCRIPTIONS";
pub const kWebVttMetadataId: &'static str = "D_WEBVTT/METADATA";
pub const kWebVttSubtitlesId: &'static str = "D_WEBVTT/SUBTITLES";

/// The track type values of the wire format.
pub const TRACK_TYPE_VIDEO: u64 = 1;
pub const TRACK_TYPE_AUDIO: u64 = 2;

/// Byte count of the track entries from index `i` on, headers included.
pub open spec fn tracks_size_from(ts: Seq<Track>, i: int) -> int
    decreases ts.len() - i,
{
    if i < 0 || i >= ts.len() {
        0
    } else {
        master_elem_size(ids::MkvTrackEntry as int) + ts[i].payload_size_spec()
            + tracks_size_from(ts, i + 1)
    }
}

proof fn lemma_tracks_size_nonneg(ts: Seq<Track>, i: int)
    requires
        forall|k: int| 0 <= k < ts.len() ==> (#[trigger] ts[k]).wf(),
    ensures
        tracks_size_from(ts, i) >= 0,
    decreases ts.len() - i,
{
    if 0 <= i < ts.len() {
        lemma_encodings_size_nonneg(ts[i].content_encoding_entries_@, 0);
        lemma_tracks_size_nonneg(ts, i + 1);
    }
}

/// The track list of a segment.
pub struct Tracks {
    /// Track element list.
    pub track_entries_: Vec<Track>,
    /// Whether the Tracks element has already been written to a sink.
    pub wrote_tracks_: bool,
}

impl Tracks {
    /// Every held track is well formed and the whole payload fits the wire
    /// format's sizes.
    pub open spec fn wf(self) -> bool {
        &&& forall|k: int|
            0 <= k < self.track_entries_@.len() ==> (#[trigger] self.track_entries_@[k]).wf()
        &&& tracks_size_from(self.track_entries_@, 0) + 64 <= u64::MAX
    }

    pub fn new() -> (t: Tracks)
        ensures
            t.track_entries_@.len() == 0,
            !t.wrote_tracks_,
    {
        Tracks { track_entries_: Vec::new(), wrote_tracks_: false }
    }

    /// Add a track under the requested number, or under the lowest free
    /// positive number when 0 is asked for. Fails once the Tracks element
    /// has been written, for numbers outside [0, 126], and for numbers
    /// already taken.
    pub fn AddTrack(&mut self, track: Track, number: i32) -> (r: bool)
        ensures
            final(self).wrote_tracks_ == old(self).wrote_tracks_,
            number < 0 || number > 0x7E || old(self).wrote_tracks_ ==> !r && *final(self) == *old(self),
            !r ==> *final(self) == *old(self),
            r ==> ({
                let t = final(self).track_entries_@.last();
                &&& final(self).track_entries_@.len() == old(self).track_entries_@.len() + 1
                &&& final(self).track_entries_@.take(old(self).track_entries_@.len() as int)
                    == old(self).track_entries_@
                &&& t.number_ > 0
                &&& number > 0 ==> t.number_ == number
                &&& forall|k: int|
                    0 <= k < old(self).track_entries_@.len() ==> (#[trigger] old(self).track_entries_@[k]).number_ != t.number_
                &&& t == (Track { number_: t.number_, ..track })
            }),
    {
        if number < 0 || self.wrote_tracks_ {
            return false;
        }
        // Guard the free-number search below against absurd table sizes.
        if self.track_entries_.len() > 0x7FFFFFFF {
            return false;
        }
        // Track numbers must stay in [1, 126] so a block header's track
        // field always fits in exactly one var-uint byte.
        if number > 0x7E {
            return false;
        }
        let mut track_num: u64 = number as u64;

        if track_num > 0 {
            // Make sure no track already has this number.
            if self.HasTrackNumber(track_num) {
                return false;
            }
        } else {
            // Find the lowest available track number above the count.
            let count = self.track_entries_.len() as u64 + 1;
            track_num = count;
            let mut tries: usize = 0;
            let limit = self.track_entries_.len();
            while tries <= limit
                invariant
                    track_num >= 1,
                    track_num <= count + tries,
                    count == self.track_entries_@.len() + 1,
                    limit == self.track_entries_@.len(),
                    limit <= 0x7FFFFFFF,
                    tries <= limit + 1,
                    *self == *old(self),
                decreases limit + 1 - tries,
            {
                if !self.HasTrackNumber(track_num) {
                    break ;
                }
                track_num = track_num + 1;
                tries = tries + 1;
            }
            if self.HasTrackNumber(track_num) {
                return false;
            }
        }
        let mut track = track;
        track.set_number(track_num);
        let ghost entries0 = self.track_entries_@;
        self.track_entries_.push(track);
        proof {
            assert(self.track_entries_@.take(entries0.len() as int) =~= entries0);
        }
        true
    }

    /// Whether some track already carries this number.
    fn HasTrackNumber(&self, track_num: u64) -> (r: bool)
        ensures
            r == exists|k: int|
                0 <= k < self.track_entries_@.len() && (#[trigger] self.track_entries_@[k]).number_
                    == track_num,
    {
        let n = self.track_entries_.len();
        let mut i: usize = 0;
        while i < n
            invariant
                n == self.track_entries_@.len(),
                i <= n,
                forall|k: int|
                    0 <= k < i ==> (#[trigger] self.track_entries_@[k]).number_ != track_num,
            decreases n - i,
        {
            if self.track_entries_[i].number() == track_num {
                return true;
            }
            i = i + 1;
        }
        false
    }

    /// The track at an index, if there is one.
    pub fn GetTrackByIndex(&self, index: usize) -> (r: Option<&Track>)
        ensures
            match r {
                Some(t) => index < self.track_entries_@.len() && *t
                    == self.track_entries_@[index as int],
                None => index >= self.track_entries_@.len(),
            },
    {
        if index >= self.track_entries_.len() {
            None
        } else {
            Some(&self.track_entries_[index])
        }
    }

    /// The first track carrying this number, if any.
    pub fn GetTrackByNumber(&self, track_number: u64) -> (r: Option<&Track>)
        ensures
            match r {
                Some(t) => t.number_ == track_number && exists|k: int|
                    0 <= k < self.track_entries_@.len() && *t == #[trigger] self.track_entries_@[k],
                None => forall|k: int|
                    0 <= k < self.track_entries_@.len() ==> (
                    #[trigger] self.track_entries_@[k]).number_ != track_number,
            },
    {
        let n = self.track_entries_.len();
        let mut i: usize = 0;
        while i < n
            invariant
                n == self.track_entries_@.len(),
                i <= n,
                forall|k: int|
                    0 <= k < i ==> (#[trigger] self.track_entries_@[k]).number_ != track_number,
            decreases n - i,
        {
            if self.track_entries_[i].number() == track_number {
                return Some(&self.track_entries_[i]);
            }
            i = i + 1;
        }
        None
    }

    /// Whether the numbered track exists and is an audio track.
    pub fn TrackIsAudio(&self, track_number: u64) -> (r: bool)
        ensures
            r ==> exists|k: int|
                0 <= k < self.track_entries_@.len() && (#[trigger] self.track_entries_@[k]).number_
                    == track_number && self.track_entries_@[k].track_type_ == TRACK_TYPE_AUDIO,
    {
        match self.GetTrackByNumber(track_number) {
            Some(t) => t.track_type() == TRACK_TYPE_AUDIO,
            None => false,
        }
    }

    /// Whether the numbered track exists and is a video track.
    pub fn TrackIsVideo(&self, track_number: u64) -> (r: bool)
        ensures
            r ==> exists|k: int|
                0 <= k < self.track_entries_@.len() && (#[trigger] self.track_entries_@[k]).number_
                    == track_number && self.track_entries_@[k].track_type_ == TRACK_TYPE_VIDEO,
    {
        match self.GetTrackByNumber(track_number) {
            Some(t) => t.track_type() == TRACK_TYPE_VIDEO,
            None => false,
        }
    }

    /// Write the Tracks element: its header, then exactly the declared
    /// bytes of track entries, which the body checks before reporting
    /// success and remembering that the list is out.
    #[verifier::loop_isolation(false)]
    pub fn Write<W: Writer>(&mut self, writer: &mut W) -> (r: bool)
        requires
            old(writer).inv(),
            old(self).wf(),
        ensures
            final(writer).inv(),
            final(writer).is_seekable() == old(writer).is_seekable(),
            final(self).track_entries_ == old(self).track_entries_,
            r ==> final(self).wrote_tracks_ && extends(*old(writer), *final(writer)) && final(writer).pos() == old(writer).pos() + uint_width(ids::MkvTracks as int) + coded_width(
                tracks_size_from(old(self).track_entries_@, 0),
            ) + tracks_size_from(old(self).track_entries_@, 0),
    {
        proof {
            writer.lemma_inv();
        }
        let mut size: u64 = 0;
        let n = self.track_entries_.len();
        let mut i: usize = 0;
        while i < n
            invariant
                i <= n,
                size + tracks_size_from(self.track_entries_@, i as int) == tracks_size_from(
                    self.track_entries_@,
                    0,
                ),
            decreases n - i,
        {
            proof {
                lemma_tracks_size_nonneg(self.track_entries_@, i + 1);
            }
            size += self.track_entries_[i].Size();
            i = i + 1;
        }
        let ghost w0 = *writer;
        if !WriteEbmlMasterElement(writer, ids::MkvTracks, size) {
            return false;
        }
        proof {
            lemma_master_header_bytes_len(ids::MkvTracks as int, size as int);
            lemma_write_extends(
                w0,
                *writer,
                master_header_bytes(ids::MkvTracks as int, size as int),
            );
        }
        let payload_position = writer.get_position();

        let mut k: usize = 0;
        while k < n
            invariant
                k <= n,
                writer.inv(),
                writer.is_seekable() == old(writer).is_seekable(),
                extends(w0, *writer),
                self.track_entries_ == old(self).track_entries_,
                self.wrote_tracks_ == old(self).wrote_tracks_,
            decreases n - k,
        {
            let ghost wk = *writer;
            if !self.track_entries_[k].Write(writer) {
                return false;
            }
            proof {
                lemma_extends_trans(w0, wk, *writer);
            }
            k = k + 1;
        }
        let stop_position = writer.get_position();
        if stop_position < payload_position || stop_position - payload_position != size {
            return false;
        }
        self.wrote_tracks_ = true;
        true
    }
}

} // verus!
