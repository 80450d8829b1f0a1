//! Cluster scenarios: immediate writes, the hold-back merge, rejection of
//! out-of-window timestamps, and the two-phase finalization.

use libwebm::cluster::Cluster;
use libwebm::frame::Frame;
use libwebm::writer::{MemWriter, Writer};

fn key_frame(data: &[u8], track: u64, timestamp: u64) -> Frame {
    let mut f = Frame::new();
    assert!(f.Init(data));
    f.set_track_number(track);
    f.set_timestamp(timestamp);
    f.set_is_key(true);
    f
}

#[test]
fn simple_block_with_relative_timecode() {
    // One frame at 2ms on a cluster based at 0 with a 1ms timecode scale
    // lands in a SimpleBlock with relative timecode 2.
    let mut w = MemWriter::new();
    let mut c = Cluster::new(0, 0, 1_000_000, false, false);
    assert!(c.AddNewFrame(&mut w, &[0xDE, 0xAD, 0xBE, 0xEF], 1, 2_000_000, true));
    let expected: Vec<u8> = vec![
        0x1F, 0x43, 0xB6, 0x75, // Cluster id
        0x01, 0xFF, 0xFF, 0xFF, 0xFF, 0xFF, 0xFF, 0xFF, // unknown size
        0xE7, 0x81, 0x00, // Timecode 0
        0xA3, 0x88, // SimpleBlock, 8 payload bytes
        0x81, // track 1
        0x00, 0x02, // relative timecode 2
        0x80, // key flag
        0xDE, 0xAD, 0xBE, 0xEF,
    ];
    assert_eq!(w.data().as_slice(), expected.as_slice());
    assert_eq!(c.blocks_added(), 1);
    assert_eq!(c.payload_size(), 3 + 10);
    assert_eq!(c.size_position(), 4);
}

#[test]
fn fixed_size_timecode_takes_eight_bytes() {
    let mut w = MemWriter::new();
    let mut c = Cluster::new(1, 0, 1, false, true);
    assert!(c.AddNewFrame(&mut w, &[0x42], 1, 1, true));
    let expected_prefix: Vec<u8> = vec![
        0x1F, 0x43, 0xB6, 0x75, 0x01, 0xFF, 0xFF, 0xFF, 0xFF, 0xFF, 0xFF, 0xFF, 0xE7, 0x88, 0x00,
        0x00, 0x00, 0x00, 0x00, 0x00, 0x00, 0x01,
    ];
    assert_eq!(&w.data().as_slice()[..22], expected_prefix.as_slice());
}

#[test]
fn out_of_window_timestamps_are_rejected() {
    let mut w = MemWriter::new();
    let mut c = Cluster::new(10, 0, 1, false, false);
    // A timestamp before the cluster's base would need a negative
    // relative timecode.
    let early = key_frame(&[1], 1, 5);
    assert_eq!(c.WriteFrame(&mut w, &early), 0);
    assert_eq!(c.payload_size(), 0);
    assert_eq!(w.data().len(), 0);
    // A timestamp too far past the base would overflow the 15-bit window.
    let late = key_frame(&[1], 1, 10 + 0x8000);
    assert_eq!(c.WriteFrame(&mut w, &late), 0);
    assert_eq!(c.payload_size(), 0);
    assert_eq!(w.data().len(), 0);
    // The edge of the window is still accepted.
    let edge = key_frame(&[1], 1, 10 + 0x7FFF);
    assert!(c.WriteFrame(&mut w, &edge) > 0);
}

#[test]
fn invalid_frames_are_rejected() {
    let mut w = MemWriter::new();
    let mut c = Cluster::new(0, 0, 1, false, false);
    // No payload.
    assert!(!c.AddNewFrame(&mut w, &[], 1, 0, true));
    // Track number out of [1,126].
    assert!(!c.AddNewFrame(&mut w, &[1], 0, 0, true));
    assert!(!c.AddNewFrame(&mut w, &[1], 127, 0, true));
    // A zero timecode scale refuses every frame.
    let mut c0 = Cluster::new(0, 0, 0, false, false);
    let f = key_frame(&[1], 1, 0);
    assert_eq!(c0.WriteFrame(&mut w, &f), 0);
    assert_eq!(w.data().len(), 0);
}

#[test]
fn additional_data_requires_content() {
    let mut w = MemWriter::new();
    let mut c = Cluster::new(0, 0, 1, false, false);
    assert!(!c.AddFrameWithAdditional(&mut w, &[1], &[], 1, 1, 0, true));
    assert_eq!(w.data().len(), 0);
}

#[test]
fn finalize_backpatches_the_size_field() {
    let mut w = MemWriter::new();
    let mut c = Cluster::new(0, 0, 1_000_000, false, false);
    assert!(c.AddNewFrame(&mut w, &[0xDE, 0xAD, 0xBE, 0xEF], 1, 2_000_000, true));
    let end = w.get_position();
    assert!(c.Finalize(&mut w));
    // The 8 bytes at the size position decode, once the width marker is
    // cleared, to exactly the accumulated payload size.
    let sp = c.size_position() as usize;
    let patched = &w.data().as_slice()[sp..sp + 8];
    assert_eq!(patched[0], 0x01);
    let mut decoded: u64 = 0;
    for i in 1..8 {
        decoded = decoded * 256 + patched[i] as u64;
    }
    assert_eq!(decoded, c.payload_size());
    assert_eq!(c.payload_size(), 13);
    // The write offset is restored after backpatching.
    assert_eq!(w.get_position(), end);
}

#[test]
fn finalize_twice_fails_and_writes_nothing() {
    let mut w = MemWriter::new();
    let mut c = Cluster::new(0, 0, 1, false, false);
    assert!(c.AddNewFrame(&mut w, &[7], 1, 3, true));
    assert!(c.Finalize(&mut w));
    let bytes_after_first = w.data().clone();
    let pos_after_first = w.get_position();
    assert!(!c.Finalize(&mut w));
    assert_eq!(w.data().as_slice(), bytes_after_first.as_slice());
    assert_eq!(w.get_position(), pos_after_first);
}

#[test]
fn finalize_before_any_header_fails() {
    let mut w = MemWriter::new();
    let mut c = Cluster::new(0, 0, 1, false, false);
    assert!(!c.Finalize(&mut w));
}

#[test]
fn finalize_on_hold_back_cluster_needs_the_parameterized_form() {
    let mut w = MemWriter::new();
    let mut c = Cluster::new(0, 0, 1, true, false);
    assert!(c.AddNewFrame(&mut w, &[7], 1, 3, true));
    assert!(!c.Finalize(&mut w));
}

#[test]
fn hold_back_merge_emits_in_timestamp_order_with_durations() {
    // Three tracks with hold-back enabled; the k-way merge at finalization
    // interleaves the held frames by timestamp, and each track's final
    // frame carries the duration left until the total.
    let mut w = MemWriter::new();
    let mut c = Cluster::new(0, 0, 1, true, false);
    // (timestamp, track, marker byte); markers appear nowhere else in the
    // stream.
    let frames: Vec<(u64, u64, u8)> = vec![
        (0, 1, 0xC1),
        (10, 2, 0xC2),
        (5, 3, 0xC3),
        (30, 1, 0xC4),
        (50, 2, 0xC5),
        (70, 3, 0xC6),
        (90, 1, 0xC7),
        (100, 3, 0xC8),
    ];
    for (ts, track, marker) in frames.iter() {
        assert!(c.AddNewFrame(&mut w, &[*marker], *track, *ts, true));
    }
    assert!(c.finalize(&mut w, true, 120));
    assert_eq!(c.blocks_added(), 8);

    let data = w.data().as_slice();
    let find = |marker: u8| -> usize {
        let mut at = None;
        for (i, b) in data.iter().enumerate() {
            if *b == marker {
                assert!(at.is_none());
                at = Some(i);
            }
        }
        at.unwrap()
    };
    // Blocks appear in timestamp order 0,5,10,30,50,70,90,100.
    let order = [0xC1, 0xC3, 0xC2, 0xC4, 0xC5, 0xC6, 0xC7, 0xC8];
    let mut last = 0;
    for marker in order.iter() {
        let at = find(*marker);
        assert!(at > last);
        last = at;
    }
    // The last frame of each track went out as a Block with the duration
    // left to the total of 120: 120-90, 120-50 and 120-100.
    for (marker, dur) in [(0xC7u8, 30u8), (0xC5, 70), (0xC8, 20)].iter() {
        let at = find(*marker);
        assert_eq!(&data[at + 1..at + 4], &[0x9B, 0x81, *dur]);
    }
    // The earlier frames of each track went out as SimpleBlocks with the
    // key flag ahead of the payload.
    for marker in [0xC1u8, 0xC2, 0xC3, 0xC4, 0xC6].iter() {
        let at = find(*marker);
        assert_eq!(data[at - 1], 0x80);
    }
}

#[test]
fn metadata_frames_carry_their_duration() {
    let mut w = MemWriter::new();
    let mut c = Cluster::new(0, 0, 1, false, false);
    assert!(c.AddMetadata(&mut w, &[0xC9], 3, 12, 34));
    let data = w.data().as_slice();
    // A duration forces the BlockGroup form; the BlockDuration element
    // follows the payload.
    let at = data.iter().position(|b| *b == 0xC9).unwrap();
    assert_eq!(&data[at + 1..at + 4], &[0x9B, 0x81, 34]);
}

#[test]
fn discard_padding_forces_the_block_group_form() {
    let mut w = MemWriter::new();
    let mut c = Cluster::new(0, 0, 1, false, false);
    assert!(c.AddFrameWithDiscardPadding(&mut w, &[0xCA], -2, 1, 3, true));
    let data = w.data().as_slice();
    let at = data.iter().position(|b| *b == 0xCA).unwrap();
    // DiscardPadding -2 in one byte.
    assert_eq!(&data[at + 1..at + 4], &[0x75, 0xA2, 0x81]);
    assert_eq!(data[at + 4], 0xFE);
}
