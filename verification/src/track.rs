//! A track entry: the per-track attributes and their element mapping.

use vstd::prelude::*;
use vstd::slice::slice_to_vec;
use vstd::string::StringSliceAdditionalSpecFns;
use vstd::utf8::encode_utf8;

use crate::content_encoding::ContentEncoding;
use crate::ids;
use crate::util::{
    bin_elem_bytes, bin_elem_size, coded_width, lemma_bin_elem_bytes_len,
    lemma_master_header_bytes_len, lemma_uint_elem_bytes_len, master_elem_size,
    master_header_bytes, uint_elem_bytes, uint_elem_size, uint_width, EbmlElementSizeArgSlice,
    EbmlElementSizeArgStr, EbmlElementSizeArgU64, EbmlMasterElementSize, MakeUID,
    WriteEbmlElementArgSlice, WriteEbmlElementArgStr, WriteEbmlElementArgU64,
    WriteEbmlMasterElement,
};
use crate::writer::{extends, lemma_extends_trans, lemma_write_extends, Writer};

verus! {

/// A track entry of the Tracks element.
pub struct Track {
    pub codec_id_: String,
    pub codec_private_: Vec<u8>,
    pub language_: String,
    pub max_block_additional_id_: u64,
    pub name_: String,
    pub number_: u64,
    pub track_type_: u64,
    pub uid_: u64,
    pub codec_delay_: u64,
    pub seek_pre_roll_: u64,
    pub default_duration_: u64,
    /// ContentEncoding element list.
    pub content_encoding_entries_: Vec<ContentEncoding>,
}

/// Byte count of the ContentEncoding elements from index `i` on, headers
/// included.
pub open spec fn encodings_size_from(es: Seq<ContentEncoding>, i: int) -> int
    decreases es.len() - i,
{
    if i < 0 || i >= es.len() {
        0
    } else {
        master_elem_size(ids::MkvContentEncoding as int) + es[i].encoding_size_spec()
            + encodings_size_from(es, i + 1)
    }
}

pub proof fn lemma_encodings_size_nonneg(es: Seq<ContentEncoding>, i: int)
    ensures
        encodings_size_from(es, i) >= 0,
    decreases es.len() - i,
{
    if 0 <= i < es.len() {
        lemma_encodings_size_nonneg(es, i + 1);
    }
}

impl Track {
    /// Byte count of the track's non-encoding child elements.
    pub open spec fn base_payload_spec(self) -> int {
        uint_elem_size(ids::MkvTrackNumber as int, self.number_ as int, 0) + uint_elem_size(
            ids::MkvTrackUID as int,
            self.uid_ as int,
            0,
        ) + uint_elem_size(ids::MkvTrackType as int, self.track_type_ as int, 0) + (
        if self.codec_id_@.len() > 0 {
            bin_elem_size(ids::MkvCodecID as int, encode_utf8(self.codec_id_@).len() as int)
        } else {
            0
        }) + (if self.codec_private_@.len() > 0 {
            bin_elem_size(ids::MkvCodecPrivate as int, self.codec_private_@.len() as int)
        } else {
            0
        }) + (if self.language_@.len() > 0 {
            bin_elem_size(ids::MkvLanguage as int, encode_utf8(self.language_@).len() as int)
        } else {
            0
        }) + (if self.name_@.len() > 0 {
            bin_elem_size(ids::MkvName as int, encode_utf8(self.name_@).len() as int)
        } else {
            0
        }) + (if self.max_block_additional_id_ > 0 {
            uint_elem_size(
                ids::MkvMaxBlockAdditionID as int,
                self.max_block_additional_id_ as int,
                0,
            )
        } else {
            0
        }) + (if self.codec_delay_ > 0 {
            uint_elem_size(ids::MkvCodecDelay as int, self.codec_delay_ as int, 0)
        } else {
            0
        }) + (if self.seek_pre_roll_ > 0 {
            uint_elem_size(ids::MkvSeekPreRoll as int, self.seek_pre_roll_ as int, 0)
        } else {
            0
        }) + (if self.default_duration_ > 0 {
            uint_elem_size(ids::MkvDefaultDuration as int, self.default_duration_ as int, 0)
        } else {
            0
        })
    }

    /// Byte count of all the track's child elements, encodings included.
    pub open spec fn payload_size_spec(self) -> int {
        self.base_payload_spec() + if self.content_encoding_entries_@.len() > 0 {
            master_elem_size(ids::MkvContentEncodings as int) + encodings_size_from(
                self.content_encoding_entries_@,
                0,
            )
        } else {
            0
        }
    }

    /// Strings, private data and encodings fit the wire format's sizes.
    pub open spec fn wf(self) -> bool {
        &&& encode_utf8(self.codec_id_@).len() <= usize::MAX
        &&& encode_utf8(self.language_@).len() <= usize::MAX
        &&& encode_utf8(self.name_@).len() <= usize::MAX
        &&& forall|k: int|
            0 <= k < self.content_encoding_entries_@.len() ==> (
            #[trigger] self.content_encoding_entries_@[k]).wf()
        &&& self.payload_size_spec() + 64 <= u64::MAX
    }

    pub fn new() -> (t: Track)
        ensures
            t.codec_id_@ == Seq::<char>::empty(),
            t.codec_private_@ == Seq::<u8>::empty(),
            t.language_@ == Seq::<char>::empty(),
            t.max_block_additional_id_ == 0,
            t.name_@ == Seq::<char>::empty(),
            t.number_ == 0,
            t.track_type_ == 0,
            t.codec_delay_ == 0,
            t.seek_pre_roll_ == 0,
            t.default_duration_ == 0,
            t.content_encoding_entries_@.len() == 0,
    {
        Track {
            codec_id_: String::new(),
            codec_private_: Vec::new(),
            language_: String::new(),
            max_block_additional_id_: 0,
            name_: String::new(),
            number_: 0,
            track_type_: 0,
            uid_: MakeUID(),
            codec_delay_: 0,
            seek_pre_roll_: 0,
            default_duration_: 0,
            content_encoding_entries_: Vec::new(),
        }
    }

    pub fn set_codec_id(&mut self, codec_id: &str)
        ensures
            final(self).codec_id_@ == codec_id@,
            *final(self) == (Track { codec_id_: final(self).codec_id_, ..*old(self) }),
    {
        self.codec_id_ = codec_id.to_owned();
    }

    pub fn codec_id(&self) -> (r: &String)
        ensures
            r@ == self.codec_id_@,
    {
        &self.codec_id_
    }

    pub fn set_codec_private(&mut self, codec_private: &[u8])
        ensures
            final(self).codec_private_@ == codec_private@,
            *final(self) == (Track { codec_private_: final(self).codec_private_, ..*old(self) }),
    {
        self.codec_private_ = slice_to_vec(codec_private);
    }

    pub fn codec_private(&self) -> (r: &Vec<u8>)
        ensures
            r@ == self.codec_private_@,
    {
        &self.codec_private_
    }

    pub fn set_language(&mut self, language: &str)
        ensures
            final(self).language_@ == language@,
            *final(self) == (Track { language_: final(self).language_, ..*old(self) }),
    {
        self.language_ = language.to_owned();
    }

    pub fn language(&self) -> (r: &String)
        ensures
            r@ == self.language_@,
    {
        &self.language_
    }

    pub fn set_name(&mut self, name: &str)
        ensures
            final(self).name_@ == name@,
            *final(self) == (Track { name_: final(self).name_, ..*old(self) }),
    {
        self.name_ = name.to_owned();
    }

    pub fn name(&self) -> (r: &String)
        ensures
            r@ == self.name_@,
    {
        &self.name_
    }

    pub fn set_max_block_additional_id(&mut self, max_block_additional_id: u64)
        ensures
            *final(self) == (Track { max_block_additional_id_: max_block_additional_id, ..*old(self) }),
    {
        self.max_block_additional_id_ = max_block_additional_id;
    }

    pub fn max_block_additional_id(&self) -> (r: u64)
        ensures
            r == self.max_block_additional_id_,
    {
        self.max_block_additional_id_
    }

    pub fn set_number(&mut self, number: u64)
        ensures
            *final(self) == (Track { number_: number, ..*old(self) }),
    {
        self.number_ = number;
    }

    pub fn number(&self) -> (r: u64)
        ensures
            r == self.number_,
    {
        self.number_
    }

    pub fn set_track_type(&mut self, track_type: u64)
        ensures
            *final(self) == (Track { track_type_: track_type, ..*old(self) }),
    {
        self.track_type_ = track_type;
    }

    pub fn track_type(&self) -> (r: u64)
        ensures
            r == self.track_type_,
    {
        self.track_type_
    }

    pub fn set_uid(&mut self, uid: u64)
        ensures
            *final(self) == (Track { uid_: uid, ..*old(self) }),
    {
        self.uid_ = uid;
    }

    pub fn uid(&self) -> (r: u64)
        ensures
            r == self.uid_,
    {
        self.uid_
    }

    pub fn set_codec_delay(&mut self, codec_delay: u64)
        ensures
            *final(self) == (Track { codec_delay_: codec_delay, ..*old(self) }),
    {
        self.codec_delay_ = codec_delay;
    }

    pub fn codec_delay(&self) -> (r: u64)
        ensures
            r == self.codec_delay_,
    {
        self.codec_delay_
    }

    pub fn set_seek_pre_roll(&mut self, seek_pre_roll: u64)
        ensures
            *final(self) == (Track { seek_pre_roll_: seek_pre_roll, ..*old(self) }),
    {
        self.seek_pre_roll_ = seek_pre_roll;
    }

    pub fn seek_pre_roll(&self) -> (r: u64)
        ensures
            r == self.seek_pre_roll_,
    {
        self.seek_pre_roll_
    }

    pub fn set_default_duration(&mut self, default_duration: u64)
        ensures
            *final(self) == (Track { default_duration_: default_duration, ..*old(self) }),
    {
        self.default_duration_ = default_duration;
    }

    pub fn default_duration(&self) -> (r: u64)
        ensures
            r == self.default_duration_,
    {
        self.default_duration_
    }

    /// Exact byte count of the track's non-encoding child elements.
    fn BasePayloadSize(&self) -> (r: u64)
        requires
            self.wf(),
        ensures
            r == self.base_payload_spec(),
    {
        proof {
            lemma_encodings_size_nonneg(self.content_encoding_entries_@, 0);
        }
        let mut size = EbmlElementSizeArgU64(ids::MkvTrackNumber, self.number_);
        size += EbmlElementSizeArgU64(ids::MkvTrackUID, self.uid_);
        size += EbmlElementSizeArgU64(ids::MkvTrackType, self.track_type_);
        if !self.codec_id_.as_str().is_empty() {
            size += EbmlElementSizeArgStr(ids::MkvCodecID, self.codec_id_.as_str());
        }
        if !self.codec_private_.is_empty() {
            size += EbmlElementSizeArgSlice(ids::MkvCodecPrivate, self.codec_private_.as_slice());
        }
        if !self.language_.as_str().is_empty() {
            size += EbmlElementSizeArgStr(ids::MkvLanguage, self.language_.as_str());
        }
        if !self.name_.as_str().is_empty() {
            size += EbmlElementSizeArgStr(ids::MkvName, self.name_.as_str());
        }
        if self.max_block_additional_id_ > 0 {
            size += EbmlElementSizeArgU64(
                ids::MkvMaxBlockAdditionID,
                self.max_block_additional_id_,
            );
        }
        if self.codec_delay_ > 0 {
            size += EbmlElementSizeArgU64(ids::MkvCodecDelay, self.codec_delay_);
        }
        if self.seek_pre_roll_ > 0 {
            size += EbmlElementSizeArgU64(ids::MkvSeekPreRoll, self.seek_pre_roll_);
        }
        if self.default_duration_ > 0 {
            size += EbmlElementSizeArgU64(ids::MkvDefaultDuration, self.default_duration_);
        }
        size
    }

    /// Exact byte count of the track's child elements.
    pub fn PayloadSize(&self) -> (r: u64)
        requires
            self.wf(),
        ensures
            r == self.payload_size_spec(),
    {
        proof {
            lemma_encodings_size_nonneg(self.content_encoding_entries_@, 0);
        }
        let mut size = self.BasePayloadSize();
        if !self.content_encoding_entries_.is_empty() {
            let content_encodings_size = self.EncodingsSize();
            size += EbmlMasterElementSize(ids::MkvContentEncodings, content_encodings_size)
                + content_encodings_size;
        }
        size
    }

    /// Exact byte count of the track's ContentEncoding elements, headers
    /// included.
    fn EncodingsSize(&self) -> (r: u64)
        requires
            self.wf(),
        ensures
            r == encodings_size_from(self.content_encoding_entries_@, 0),
    {
        let mut content_encodings_size: u64 = 0;
        let n = self.content_encoding_entries_.len();
        let mut i: usize = 0;
        while i < n
            invariant
                self.wf(),
                n == self.content_encoding_entries_@.len(),
                i <= n,
                content_encodings_size + encodings_size_from(
                    self.content_encoding_entries_@,
                    i as int,
                ) == encodings_size_from(self.content_encoding_entries_@, 0),
            decreases n - i,
        {
            proof {
                lemma_encodings_size_nonneg(self.content_encoding_entries_@, i + 1);
            }
            content_encodings_size += self.content_encoding_entries_[i].Size();
            i = i + 1;
        }
        content_encodings_size
    }

    /// Declared size of the whole track entry, header included.
    pub fn Size(&self) -> (r: u64)
        requires
            self.wf(),
        ensures
            r == self.payload_size_spec() + master_elem_size(ids::MkvTrackEntry as int),
    {
        let mut size = self.PayloadSize();
        size += EbmlMasterElementSize(ids::MkvTrackEntry, size);
        size
    }

    /// Write the track entry: its header, the attribute elements, then the
    /// content encodings; the body checks that the attribute elements span
    /// exactly their declared bytes before going on. A track without a
    /// type or codec id is rejected unwritten.
    #[verifier::rlimit(100)]
    #[verifier::loop_isolation(false)]
    pub fn Write<W: Writer>(&self, writer: &mut W) -> (r: bool)
        requires
            old(writer).inv(),
            self.wf(),
        ensures
            final(writer).inv(),
            final(writer).is_seekable() == old(writer).is_seekable(),
            self.track_type_ == 0 || self.codec_id_@.len() == 0 ==> !r && final(writer).out()
                == old(writer).out() && final(writer).pos() == old(writer).pos(),
            r ==> extends(*old(writer), *final(writer)) && final(writer).pos() == old(writer).pos()
                + uint_width(ids::MkvTrackEntry as int) + coded_width(self.payload_size_spec())
                + self.base_payload_spec() + (if self.content_encoding_entries_@.len() > 0 {
                uint_width(ids::MkvContentEncodings as int) + coded_width(
                    encodings_size_from(self.content_encoding_entries_@, 0),
                ) + encodings_size_from(self.content_encoding_entries_@, 0)
            } else {
                0
            }),
    {
        proof {
            writer.lemma_inv();
            lemma_encodings_size_nonneg(self.content_encoding_entries_@, 0);
        }
        // Mandatory elements without a default value.
        if self.track_type_ == 0 || self.codec_id_.as_str().is_empty() {
            return false;
        }
        let payload_size = self.PayloadSize();

        let ghost w0 = *writer;
        if !WriteEbmlMasterElement(writer, ids::MkvTrackEntry, payload_size) {
            return false;
        }
        proof {
            lemma_master_header_bytes_len(ids::MkvTrackEntry as int, payload_size as int);
            lemma_write_extends(
                w0,
                *writer,
                master_header_bytes(ids::MkvTrackEntry as int, payload_size as int),
            );
        }
        let size = self.BasePayloadSize();
        let payload_position = writer.get_position();

        let ghost w1 = *writer;
        if !WriteEbmlElementArgU64(writer, ids::MkvTrackNumber, self.number_) {
            return false;
        }
        proof {
            lemma_uint_elem_bytes_len(
                ids::MkvTrackNumber as int,
                self.number_ as int,
                uint_width(self.number_ as int),
            );
            lemma_write_extends(
                w1,
                *writer,
                uint_elem_bytes(
                    ids::MkvTrackNumber as int,
                    self.number_ as int,
                    uint_width(self.number_ as int),
                ),
            );
            lemma_extends_trans(w0, w1, *writer);
        }
        let ghost w2 = *writer;
        if !WriteEbmlElementArgU64(writer, ids::MkvTrackUID, self.uid_) {
            return false;
        }
        proof {
            lemma_uint_elem_bytes_len(
                ids::MkvTrackUID as int,
                self.uid_ as int,
                uint_width(self.uid_ as int),
            );
            lemma_write_extends(
                w2,
                *writer,
                uint_elem_bytes(
                    ids::MkvTrackUID as int,
                    self.uid_ as int,
                    uint_width(self.uid_ as int),
                ),
            );
            lemma_extends_trans(w0, w2, *writer);
        }
        let ghost w3 = *writer;
        if !WriteEbmlElementArgU64(writer, ids::MkvTrackType, self.track_type_) {
            return false;
        }
        proof {
            lemma_uint_elem_bytes_len(
                ids::MkvTrackType as int,
                self.track_type_ as int,
                uint_width(self.track_type_ as int),
            );
            lemma_write_extends(
                w3,
                *writer,
                uint_elem_bytes(
                    ids::MkvTrackType as int,
                    self.track_type_ as int,
                    uint_width(self.track_type_ as int),
                ),
            );
            lemma_extends_trans(w0, w3, *writer);
        }
        if self.max_block_additional_id_ > 0 {
        let ghost w4 = *writer;
            if !WriteEbmlElementArgU64(writer, ids::MkvMaxBlockAdditionID, self.max_block_additional_id_) {
                return false;
            }
            proof {
                lemma_uint_elem_bytes_len(
                    ids::MkvMaxBlockAdditionID as int,
                    self.max_block_additional_id_ as int,
                    uint_width(self.max_block_additional_id_ as int),
                );
                lemma_write_extends(
                    w4,
                    *writer,
                    uint_elem_bytes(
                        ids::MkvMaxBlockAdditionID as int,
                        self.max_block_additional_id_ as int,
                        uint_width(self.max_block_additional_id_ as int),
                    ),
                );
                lemma_extends_trans(w0, w4, *writer);
            }
        }
        if self.codec_delay_ > 0 {
        let ghost w5 = *writer;
            if !WriteEbmlElementArgU64(writer, ids::MkvCodecDelay, self.codec_delay_) {
                return false;
            }
            proof {
                lemma_uint_elem_bytes_len(
                    ids::MkvCodecDelay as int,
                    self.codec_delay_ as int,
                    uint_width(self.codec_delay_ as int),
                );
                lemma_write_extends(
                    w5,
                    *writer,
                    uint_elem_bytes(
                        ids::MkvCodecDelay as int,
                        self.codec_delay_ as int,
                        uint_width(self.codec_delay_ as int),
                    ),
                );
                lemma_extends_trans(w0, w5, *writer);
            }
        }
        if self.seek_pre_roll_ > 0 {
        let ghost w6 = *writer;
            if !WriteEbmlElementArgU64(writer, ids::MkvSeekPreRoll, self.seek_pre_roll_) {
                return false;
            }
            proof {
                lemma_uint_elem_bytes_len(
                    ids::MkvSeekPreRoll as int,
                    self.seek_pre_roll_ as int,
                    uint_width(self.seek_pre_roll_ as int),
                );
                lemma_write_extends(
                    w6,
                    *writer,
                    uint_elem_bytes(
                        ids::MkvSeekPreRoll as int,
                        self.seek_pre_roll_ as int,
                        uint_width(self.seek_pre_roll_ as int),
                    ),
                );
                lemma_extends_trans(w0, w6, *writer);
            }
        }
        if self.default_duration_ > 0 {
        let ghost w7 = *writer;
            if !WriteEbmlElementArgU64(writer, ids::MkvDefaultDuration, self.default_duration_) {
                return false;
            }
            proof {
                lemma_uint_elem_bytes_len(
                    ids::MkvDefaultDuration as int,
                    self.default_duration_ as int,
                    uint_width(self.default_duration_ as int),
                );
                lemma_write_extends(
                    w7,
                    *writer,
                    uint_elem_bytes(
                        ids::MkvDefaultDuration as int,
                        self.default_duration_ as int,
                        uint_width(self.default_duration_ as int),
                    ),
                );
                lemma_extends_trans(w0, w7, *writer);
            }
        }
        if !self.codec_id_.as_str().is_empty() {
            let ghost w8 = *writer;
            if !WriteEbmlElementArgStr(writer, ids::MkvCodecID, self.codec_id_.as_str()) {
                return false;
            }
            proof {
                lemma_bin_elem_bytes_len(ids::MkvCodecID as int, encode_utf8(self.codec_id_@));
                lemma_write_extends(
                    w8,
                    *writer,
                    bin_elem_bytes(ids::MkvCodecID as int, encode_utf8(self.codec_id_@)),
                );
                lemma_extends_trans(w0, w8, *writer);
            }
        }
        if !self.codec_private_.is_empty() {
            let ghost w9 = *writer;
            if !WriteEbmlElementArgSlice(writer, ids::MkvCodecPrivate, self.codec_private_.as_slice()) {
                return false;
            }
            proof {
                lemma_bin_elem_bytes_len(ids::MkvCodecPrivate as int, self.codec_private_@);
                lemma_write_extends(
                    w9,
                    *writer,
                    bin_elem_bytes(ids::MkvCodecPrivate as int, self.codec_private_@),
                );
                lemma_extends_trans(w0, w9, *writer);
            }
        }
        if !self.language_.as_str().is_empty() {
            let ghost w10 = *writer;
            if !WriteEbmlElementArgStr(writer, ids::MkvLanguage, self.language_.as_str()) {
                return false;
            }
            proof {
                lemma_bin_elem_bytes_len(ids::MkvLanguage as int, encode_utf8(self.language_@));
                lemma_write_extends(
                    w10,
                    *writer,
                    bin_elem_bytes(ids::MkvLanguage as int, encode_utf8(self.language_@)),
                );
                lemma_extends_trans(w0, w10, *writer);
            }
        }
        if !self.name_.as_str().is_empty() {
            let ghost w11 = *writer;
            if !WriteEbmlElementArgStr(writer, ids::MkvName, self.name_.as_str()) {
                return false;
            }
            proof {
                lemma_bin_elem_bytes_len(ids::MkvName as int, encode_utf8(self.name_@));
                lemma_write_extends(
                    w11,
                    *writer,
                    bin_elem_bytes(ids::MkvName as int, encode_utf8(self.name_@)),
                );
                lemma_extends_trans(w0, w11, *writer);
            }
        }

        let stop_position = writer.get_position();
        if stop_position < payload_position || stop_position - payload_position != size {
            return false;
        }
        if !self.content_encoding_entries_.is_empty() {
            let content_encodings_size = self.EncodingsSize();

            let ghost w12 = *writer;
            if !WriteEbmlMasterElement(writer, ids::MkvContentEncodings, content_encodings_size) {
                return false;
            }
            proof {
                lemma_master_header_bytes_len(
                    ids::MkvContentEncodings as int,
                    content_encodings_size as int,
                );
                lemma_write_extends(
                    w12,
                    *writer,
                    master_header_bytes(
                        ids::MkvContentEncodings as int,
                        content_encodings_size as int,
                    ),
                );
                lemma_extends_trans(w0, w12, *writer);
            }
            let ghost p_enc = writer.pos();
            let n = self.content_encoding_entries_.len();
            let mut i: usize = 0;
            while i < n
                invariant
                    self.wf(),
                    n == self.content_encoding_entries_@.len(),
                    i <= n,
                    writer.inv(),
                    writer.is_seekable() == old(writer).is_seekable(),
                    extends(w0, *writer),
                    writer.pos() + encodings_size_from(self.content_encoding_entries_@, i as int)
                        == p_enc + encodings_size_from(self.content_encoding_entries_@, 0),
                decreases n - i,
            {
                let ghost wi = *writer;
                if !self.content_encoding_entries_[i].Write(writer) {
                    return false;
                }
                proof {
                    lemma_extends_trans(w0, wi, *writer);
                }
                i = i + 1;
            }
        }
        true
    }
}

} // verus!
