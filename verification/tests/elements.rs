//! The attribute-to-element mappings: sizes, writes and their internal
//! size checks.

use libwebm::chapter::{Chapter, Display};
use libwebm::chapters::Chapters;
use libwebm::colour::{
    ChromaSitingHorz, ChromaSitingVert, MatrixCoefficients, Primaries, Range,
    TransferCharacteristics,
};
use libwebm::content_enc_aes_settings::ContentEncAESSettings;
use libwebm::content_encoding::ContentEncoding;
use libwebm::cue_point::CuePoint;
use libwebm::cues::Cues;
use libwebm::projection::ProjectionType;
use libwebm::tag::{SimpleTag, Tag, Tags};
use libwebm::track::Track;
use libwebm::tracks::{Tracks, TRACK_TYPE_AUDIO, TRACK_TYPE_VIDEO};
use libwebm::writer::{MemWriter, Writer};

#[test]
fn aes_settings_write_exact_bytes() {
    let s = ContentEncAESSettings::new();
    assert_eq!(s.cipher_mode(), 1);
    assert_eq!(s.PayloadSize(), 2 + 1 + 1);
    assert_eq!(s.Size(), 5 + 4);
    let mut w = MemWriter::new();
    assert!(s.Write(&mut w));
    assert_eq!(
        w.data().as_slice(),
        &[0x47, 0xE7, 0x84, 0x47, 0xE8, 0x81, 0x01]
    );
}

#[test]
fn content_encoding_defaults_and_key() {
    let mut e = ContentEncoding::new();
    assert_eq!(e.enc_algo(), 5);
    assert_eq!(e.encoding_order(), 0);
    assert_eq!(e.encoding_scope(), 1);
    assert_eq!(e.encoding_type(), 1);
    assert_eq!(e.enc_aes_settings().cipher_mode(), 1);
    assert!(e.SetEncryptionID(&[0xAB, 0xCD]));
    // Children: order/scope/type (4 each), ContentEncryption header (5,
    // id-derived), key id (5), algo (4), AES settings (9).
    assert_eq!(e.Size(), 5 + 4 * 3 + 5 + 5 + 4 + 9);
}

#[test]
fn content_encoding_write_size_check_reflects_the_id_derived_header() {
    // The declared ContentEncoding header width is derived from the
    // element's id and comes out wider than the bytes actually written,
    // so the write's own size check rejects the small element.
    let mut e = ContentEncoding::new();
    assert!(e.SetEncryptionID(&[1, 2, 3, 4]));
    let mut w = MemWriter::new();
    assert!(!e.Write(&mut w));
}

#[test]
fn simple_tag_write_needs_a_mid_sized_payload() {
    // Same id-derived header effect: a small SimpleTag fails its size
    // check, one whose payload needs a 3-byte size field passes.
    let mut small = SimpleTag::new();
    small.set_tag_name("A");
    small.set_tag_string("B");
    let mut w = MemWriter::new();
    assert!(!small.Write(&mut w));

    let mut big = SimpleTag::new();
    big.set_tag_name("NAME");
    big.set_tag_string(&"x".repeat(17000));
    let mut w2 = MemWriter::new();
    assert!(big.Write(&mut w2));
    assert_eq!(w2.data()[0], 0x67);
    assert_eq!(w2.data()[1], 0xC8);
}

#[test]
fn tag_collects_simple_tags() {
    let mut tag = Tag::new();
    assert_eq!(tag.PayloadSize(), 0);
    let mut st = SimpleTag::new();
    st.set_tag_name("N");
    st.set_tag_string("V");
    // Children: TagName (2+1+1) + TagString (2+1+1) + the SimpleTag
    // header as the library accounts for it (5).
    tag.simple_tags_.push(st);
    assert_eq!(tag.PayloadSize(), 4 + 4 + 5);
    tag.clear();
    assert_eq!(tag.PayloadSize(), 0);
}

#[test]
fn tags_add_tag() {
    let mut tags = Tags::new();
    assert_eq!(tags.PayloadSize(), 0);
    tags.add_tag(Tag::new());
    // An empty Tag still accounts for its own header.
    assert_eq!(tags.PayloadSize(), 5);
}

#[test]
fn display_write_bytes() {
    let mut d = Display::new();
    d.set_title("T");
    d.set_language("en");
    d.set_country("us");
    assert_eq!(d.title().as_str(), "T");
    assert_eq!(d.language().as_str(), "en");
    assert_eq!(d.country().as_str(), "us");
    // ChapString (1+1+1) + ChapLanguage (2+1+2) + ChapCountry (2+1+2).
    assert_eq!(d.PayloadSize(), 3 + 5 + 5);
    // A Display's payload of 13 needs one size byte where the id-derived
    // account reserves two, so the write's size check rejects it.
    let mut w = MemWriter::new();
    assert!(!d.Write(&mut w));
}

#[test]
fn chapter_payload_counts_displays() {
    let mut c = Chapter::new();
    let base = c.PayloadSize();
    let mut d = Display::new();
    d.set_title("T");
    c.displays_.push(d);
    assert_eq!(c.PayloadSize(), base + 3 + 3);
}

#[test]
fn chapters_count() {
    let mut cs = Chapters::new();
    assert_eq!(cs.count(), 0);
    cs.AddChapter(Chapter::new());
    assert_eq!(cs.count(), 1);
}

#[test]
fn cue_point_write_bytes() {
    let mut c = CuePoint::new();
    assert_eq!(c.time(), 0);
    assert_eq!(c.block_number(), 1);
    assert!(c.output_block_number());
    c.set_time(3);
    c.set_track(1);
    c.set_cluster_pos(0x40);
    // The declared CueTrackPositions header width is derived from that
    // element's id and is one byte wider than what actually goes out, so
    // the write's own size check rejects the element; the bytes that were
    // written still carry the expected layout.
    let mut w = MemWriter::new();
    assert!(!c.Write(&mut w));
    let expected: Vec<u8> = vec![
        0xBB, 0x8C, // CuePoint, declared 12 payload bytes
        0xB3, 0x81, 0x03, // CueTime 3
        0xB7, 0x86, // CueTrackPositions, 6 payload bytes
        0xF7, 0x81, 0x01, // CueTrack 1
        0xF1, 0x81, 0x40, // CueClusterPosition 0x40
    ];
    assert_eq!(w.data().as_slice(), expected.as_slice());
}

#[test]
fn cue_point_requires_track_and_position() {
    let mut c = CuePoint::new();
    c.set_time(3);
    let mut w = MemWriter::new();
    assert!(!c.Write(&mut w));
    assert_eq!(w.data().len(), 0);
}

#[test]
fn cue_point_block_number_only_when_wanted() {
    let mut c = CuePoint::new();
    c.set_track(1);
    c.set_cluster_pos(1);
    c.set_block_number(2);
    let with = c.PayloadSize();
    c.set_output_block_number(false);
    let without = c.PayloadSize();
    // CueBlockNumber takes 2+1+1 bytes.
    assert_eq!(with, without + 4);
}

#[test]
fn cues_write_and_lookup() {
    let mut cues = Cues::new();
    assert!(cues.output_block_number());
    cues.set_output_block_number(false);
    let mut c = CuePoint::new();
    c.set_time(1);
    c.set_track(1);
    c.set_cluster_pos(2);
    assert!(cues.AddCue(c));
    assert_eq!(cues.cue_entries_size(), 1);
    // The cue was stamped with the index's block-number policy.
    assert!(!cues.GetCueByIndex(0).unwrap().output_block_number());
    assert!(cues.GetCueByIndex(1).is_none());

    // Writing propagates the cue point's failing size check; the Cues
    // header still went out first.
    let mut w = MemWriter::new();
    assert!(!cues.Write(&mut w));
    assert_eq!(&w.data().as_slice()[..4], &[0x1C, 0x53, 0xBB, 0x6B]);
    // Size() adds the id-derived Cues header to the entries.
    assert_eq!(cues.Size(), 15 + 9);
}

#[test]
fn track_attributes_round_trip() {
    let mut t = Track::new();
    t.set_codec_id("V_VP9");
    t.set_codec_private(&[1, 2]);
    t.set_language("en");
    t.set_name("cam");
    t.set_number(3);
    t.set_track_type(TRACK_TYPE_VIDEO);
    t.set_uid(77);
    t.set_max_block_additional_id(1);
    t.set_codec_delay(5);
    t.set_seek_pre_roll(6);
    t.set_default_duration(7);
    assert_eq!(t.codec_id().as_str(), "V_VP9");
    assert_eq!(t.codec_private().as_slice(), &[1, 2]);
    assert_eq!(t.language().as_str(), "en");
    assert_eq!(t.name().as_str(), "cam");
    assert_eq!(t.number(), 3);
    assert_eq!(t.track_type(), TRACK_TYPE_VIDEO);
    assert_eq!(t.uid(), 77);
    assert_eq!(t.max_block_additional_id(), 1);
    assert_eq!(t.codec_delay(), 5);
    assert_eq!(t.seek_pre_roll(), 6);
    assert_eq!(t.default_duration(), 7);
}

#[test]
fn track_write_bytes() {
    let mut t = Track::new();
    t.set_codec_id("V_VP8");
    t.set_number(1);
    t.set_track_type(TRACK_TYPE_VIDEO);
    t.set_uid(9);
    let mut w = MemWriter::new();
    assert!(t.Write(&mut w));
    let expected: Vec<u8> = vec![
        0xAE, 0x91, // TrackEntry, 17 payload bytes
        0xD7, 0x81, 0x01, // TrackNumber 1
        0x73, 0xC5, 0x81, 0x09, // TrackUID 9
        0x83, 0x81, 0x01, // TrackType video
        0x86, 0x85, b'V', b'_', b'V', b'P', b'8', // CodecID
    ];
    assert_eq!(w.data().as_slice(), expected.as_slice());
}

#[test]
fn track_write_requires_type_and_codec() {
    let mut t = Track::new();
    t.set_number(1);
    let mut w = MemWriter::new();
    assert!(!t.Write(&mut w));
    assert_eq!(w.data().len(), 0);
}

#[test]
fn tracks_numbering_rules() {
    let mut ts = Tracks::new();
    let mut a = Track::new();
    a.set_codec_id("A_OPUS");
    a.set_track_type(TRACK_TYPE_AUDIO);
    assert!(ts.AddTrack(a, 2));
    // The number 2 is now taken.
    let mut b = Track::new();
    b.set_codec_id("V_VP8");
    b.set_track_type(TRACK_TYPE_VIDEO);
    let b2 = Track::new();
    assert!(!ts.AddTrack(b2, 2));
    // Numbers outside [0,126] are refused.
    let b3 = Track::new();
    assert!(!ts.AddTrack(b3, 127));
    let b4 = Track::new();
    assert!(!ts.AddTrack(b4, -1));
    // Asking for 0 picks a free number.
    assert!(ts.AddTrack(b, 0));
    let n = ts.GetTrackByIndex(1).unwrap().number();
    assert!(n > 0 && n != 2);
    // Lookup by number and type checks.
    assert!(ts.GetTrackByNumber(2).is_some());
    assert!(ts.GetTrackByNumber(99).is_none());
    assert!(ts.TrackIsAudio(2));
    assert!(!ts.TrackIsVideo(2));
    assert!(ts.TrackIsVideo(n));
    assert!(ts.GetTrackByIndex(2).is_none());
}

#[test]
fn tracks_write_then_freeze() {
    let mut ts = Tracks::new();
    let mut a = Track::new();
    a.set_codec_id("V_VP8");
    a.set_track_type(TRACK_TYPE_VIDEO);
    // A payload needing a two-byte size field matches the id-derived
    // account of the TrackEntry header, letting the list's size check
    // pass.
    a.set_codec_private(&[7u8; 200]);
    assert!(ts.AddTrack(a, 1));
    let mut w = MemWriter::new();
    assert!(ts.Write(&mut w));
    assert_eq!(&w.data().as_slice()[..4], &[0x16, 0x54, 0xAE, 0x6B]);
    // Once written, the list refuses further tracks.
    let b = Track::new();
    assert!(!ts.AddTrack(b, 5));
}

#[test]
fn colour_enum_codes() {
    assert_eq!(
        MatrixCoefficients::from_u64(0),
        Some(MatrixCoefficients::kGbr)
    );
    assert_eq!(
        MatrixCoefficients::from_u64(10),
        Some(MatrixCoefficients::kBt2020ConstantLuminance)
    );
    assert_eq!(MatrixCoefficients::from_u64(11), None);
    assert_eq!(
        ChromaSitingHorz::from_u64(1),
        Some(ChromaSitingHorz::kLeftCollocated)
    );
    assert_eq!(ChromaSitingHorz::from_u64(3), None);
    assert_eq!(
        ChromaSitingVert::from_u64(2),
        Some(ChromaSitingVert::kHalfCsv)
    );
    assert_eq!(ChromaSitingVert::from_u64(9), None);
    assert_eq!(Range::from_u64(3), Some(Range::kMcTcDefined));
    assert_eq!(Range::from_u64(4), None);
    assert_eq!(
        TransferCharacteristics::from_u64(0),
        None
    );
    assert_eq!(
        TransferCharacteristics::from_u64(18),
        Some(TransferCharacteristics::kAribStdB67Hlg)
    );
    assert_eq!(TransferCharacteristics::from_u64(19), None);
    assert_eq!(Primaries::from_u64(22), Some(Primaries::kJedecP22Phosphors));
    assert_eq!(Primaries::from_u64(11), None);
    // The projection kinds exist alongside the colour codes.
    assert!(ProjectionType::kRectangular != ProjectionType::kMesh);
}
