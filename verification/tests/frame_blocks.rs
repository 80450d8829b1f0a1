//! Frame validity rules and the two block encodings.

use libwebm::frame::Frame;
use libwebm::writer::{MemWriter, Writer};

#[test]
fn new_frame_defaults() {
    let f = Frame::new();
    assert_eq!(f.add_id(), 0);
    assert_eq!(f.additional_length(), 0);
    assert_eq!(f.duration(), 0);
    assert!(!f.duration_set());
    assert_eq!(f.length(), 0);
    assert!(!f.is_key());
    assert_eq!(f.track_number(), 0);
    assert_eq!(f.timestamp(), 0);
    assert_eq!(f.discard_padding(), 0);
    assert_eq!(f.reference_block_timestamp(), 0);
    assert!(!f.reference_block_timestamp_set());
}

#[test]
fn init_stores_the_payload() {
    let mut f = Frame::new();
    assert!(f.Init(&[1, 2, 3]));
    assert_eq!(f.frame().as_slice(), &[1, 2, 3]);
    assert_eq!(f.length(), 3);
}

#[test]
fn additional_data_blocks_the_simple_form() {
    let mut f = Frame::new();
    assert!(f.Init(&[1]));
    f.set_track_number(1);
    assert!(f.CanBeSimpleBlock());
    assert!(f.AddAdditionalData(&[9, 9], 7));
    assert_eq!(f.add_id(), 7);
    assert_eq!(f.additional().as_slice(), &[9, 9]);
    assert!(!f.CanBeSimpleBlock());
}

#[test]
fn duration_and_discard_padding_block_the_simple_form() {
    let mut f = Frame::new();
    assert!(f.Init(&[1]));
    f.set_duration(0);
    assert!(!f.CanBeSimpleBlock());

    let mut g = Frame::new();
    assert!(g.Init(&[1]));
    g.set_discard_padding(1);
    assert!(!g.CanBeSimpleBlock());
}

#[test]
fn validity_rules() {
    // A valid frame has a payload and a track in [1,126].
    let mut f = Frame::new();
    assert!(f.Init(&[1]));
    f.set_track_number(1);
    f.set_is_key(true);
    assert!(f.IsValid());

    // No payload.
    let mut g = Frame::new();
    g.set_track_number(1);
    g.set_is_key(true);
    assert!(!g.IsValid());

    // Track out of range.
    let mut h = Frame::new();
    assert!(h.Init(&[1]));
    h.set_track_number(127);
    h.set_is_key(true);
    assert!(!h.IsValid());

    // A frame that needs the BlockGroup form must be a key frame or
    // carry a reference timestamp.
    let mut k = Frame::new();
    assert!(k.Init(&[1]));
    k.set_track_number(1);
    k.set_duration(5);
    assert!(!k.IsValid());
    k.set_reference_block_timestamp(0);
    assert!(k.IsValid());
}

#[test]
fn simple_block_layout() {
    let mut f = Frame::new();
    assert!(f.Init(&[0xAA, 0xBB]));
    f.set_track_number(2);
    f.set_is_key(true);
    let mut w = MemWriter::new();
    let r = f.WriteSimpleBlock(&mut w, 7);
    // id + size byte + track + 2-byte timecode + flags + payload.
    assert_eq!(r, 1 + 1 + 4 + 2);
    assert_eq!(
        w.data().as_slice(),
        &[0xA3, 0x86, 0x82, 0x00, 0x07, 0x80, 0xAA, 0xBB]
    );
}

#[test]
fn simple_block_without_key_flag() {
    let mut f = Frame::new();
    assert!(f.Init(&[0xAA]));
    f.set_track_number(1);
    let mut w = MemWriter::new();
    assert!(f.WriteSimpleBlock(&mut w, 0) > 0);
    assert_eq!(w.data().as_slice(), &[0xA3, 0x85, 0x81, 0x00, 0x00, 0x00, 0xAA]);
}

#[test]
fn block_group_layout_with_every_optional_element() {
    let mut f = Frame::new();
    assert!(f.Init(&[0xAA]));
    f.set_track_number(1);
    f.set_timestamp(9);
    f.set_duration(6);
    f.set_discard_padding(-1);
    assert!(f.AddAdditionalData(&[0xEE, 0xEF], 1));
    f.set_reference_block_timestamp(4);
    let mut w = MemWriter::new();
    let r = f.WriteBlock(&mut w, 9, 1);
    assert!(r > 0);
    let expected: Vec<u8> = vec![
        0xA0, 0xA1, // BlockGroup, declared 33 payload bytes
        0xA1, 0x85, // Block, 5 payload bytes
        0x81, // track 1
        0x00, 0x09, // relative timecode
        0x00, // flags: always 0 in a Block
        0xAA, // payload
        0x75, 0xA1, 0x8A, // BlockAdditions, declared 10 bytes
        0xA6, 0x87, // BlockMore, 7 payload bytes
        0xEE, 0x81, 0x01, // BlockAddID 1
        0xA5, 0x82, 0xEE, 0xEF, // BlockAdditional
        0x75, 0xA2, 0x81, 0xFF, // DiscardPadding -1
        0xFB, 0x81, 0x04, // ReferenceBlock 4
        0x9B, 0x81, 0x06, // BlockDuration 6
    ];
    assert_eq!(w.data().as_slice(), expected.as_slice());
    // The declared element size counts the id-derived BlockGroup header
    // width, not the bytes the header actually took.
    assert_eq!(r, 3 + 33);
}

#[test]
fn block_group_scales_duration_and_reference() {
    let mut f = Frame::new();
    assert!(f.Init(&[0xAB]));
    f.set_track_number(1);
    f.set_duration(2_000_000);
    f.set_is_key(true);
    let mut w = MemWriter::new();
    assert!(f.WriteBlock(&mut w, 0, 1_000_000) > 0);
    let data = w.data().as_slice();
    let at = data.iter().position(|b| *b == 0xAB).unwrap();
    // 2ms at a 1ms scale: BlockDuration 2.
    assert_eq!(&data[at + 1..at + 4], &[0x9B, 0x81, 0x02]);
}
