//! The SeekHead reservation and backpatch protocol.

use libwebm::seek_head::SeekHead;
use libwebm::writer::{MemWriter, Writer};

#[test]
fn write_reserves_a_void_block() {
    let mut sh = SeekHead::new();
    let mut w = MemWriter::new();
    assert!(sh.Write(&mut w));
    // Reservation: SeekHead header account (9) plus 5 entries of 23
    // bytes, all spanned by one void element.
    assert_eq!(w.data().len(), 124);
    assert_eq!(w.data()[0], 0xEC);
    assert_eq!(w.data()[1], 0x80 | 122);
    assert_eq!(sh.MaxEntrySize(), 23);
}

#[test]
fn entry_slots_fill_in_order() {
    let mut sh = SeekHead::new();
    assert_eq!(sh.GetId(0), 0);
    assert_eq!(sh.GetPosition(0), 0);
    // Out-of-range slots read as all-ones.
    assert_eq!(sh.GetId(5), u32::MAX);
    assert_eq!(sh.GetPosition(5), u64::MAX);

    for i in 0..5u64 {
        assert!(sh.AddSeekEntry(0x100 + i as u32, 10 * i));
    }
    // The table is full.
    assert!(!sh.AddSeekEntry(0x999, 1));
    assert_eq!(sh.GetId(2), 0x102);
    assert_eq!(sh.GetPosition(2), 20);

    assert!(sh.SetSeekEntry(2, 0x777, 70));
    assert_eq!(sh.GetId(2), 0x777);
    assert_eq!(sh.GetPosition(2), 70);
    assert!(!sh.SetSeekEntry(5, 1, 1));
}

#[test]
fn finalize_backpatches_the_reservation() {
    let mut sh = SeekHead::new();
    let mut w = MemWriter::new();
    assert!(sh.Write(&mut w));
    let end = w.get_position();
    assert!(sh.AddSeekEntry(0x1549A966, 0x40));
    assert!(sh.Finalize(&mut w));
    // The reservation is exactly refilled and the write offset restored.
    assert_eq!(w.data().len(), 124);
    assert_eq!(w.get_position(), end);
    let expected_head: Vec<u8> = vec![
        0x11, 0x4D, 0x9B, 0x74, 0x90, // SeekHead, declared 16 payload bytes
        0x4D, 0xBB, 0x8B, // Seek, 11 payload bytes
        0x53, 0xAB, 0x84, 0x15, 0x49, 0xA9, 0x66, // SeekID
        0x53, 0xAC, 0x81, 0x40, // SeekPosition
        0xEC, 0xE7, // void padding over the 103 remaining payload bytes
    ];
    assert_eq!(&w.data().as_slice()[..21], expected_head.as_slice());
    for i in 21..124 {
        assert_eq!(w.data()[i], 0);
    }
}

#[test]
fn finalize_without_entries_leaves_the_reservation() {
    let mut sh = SeekHead::new();
    let mut w = MemWriter::new();
    assert!(sh.Write(&mut w));
    let before = w.data().clone();
    assert!(sh.Finalize(&mut w));
    assert_eq!(w.data().as_slice(), before.as_slice());
}
