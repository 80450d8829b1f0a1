//! Byte-exact checks of the EBML codec primitives through an in-memory
//! sink.

use libwebm::util::{
    EbmlDateElementSize, EbmlElementSizeArgI64, EbmlElementSizeArgSlice, EbmlElementSizeArgStr,
    EbmlElementSizeArgU64, EbmlElementSizeArgsU64, EbmlMasterElementSize, GetVersion,
    WriteEbmlDateElement, WriteEbmlElementArgI64, WriteEbmlElementArgSlice, WriteEbmlElementArgStr,
    WriteEbmlElementArgU64, WriteEbmlElementArgsU64, WriteEbmlHeader, WriteEbmlHeader2,
    WriteEbmlMasterElement, WriteVoidElement,
};
use libwebm::writer::{MemWriter, Writer};

#[test]
fn version_stamp() {
    let mut major = -1;
    let mut minor = -1;
    let mut build = -1;
    let mut revision = -1;
    GetVersion(&mut major, &mut minor, &mut build, &mut revision);
    assert_eq!((major, minor, build, revision), (0, 2, 1, 0));
}

#[test]
fn uint_element_sizes() {
    // id width + 1 size byte + minimal value width.
    assert_eq!(EbmlElementSizeArgU64(0xE7, 0), 1 + 1 + 1);
    assert_eq!(EbmlElementSizeArgU64(0xE7, 0xFF), 1 + 1 + 1);
    assert_eq!(EbmlElementSizeArgU64(0xE7, 0x100), 1 + 1 + 2);
    assert_eq!(EbmlElementSizeArgU64(0x4286, 1), 2 + 1 + 1);
    assert_eq!(EbmlElementSizeArgU64(0xE7, u64::MAX), 1 + 1 + 8);
    // A positive fixed size forces the payload width.
    assert_eq!(EbmlElementSizeArgsU64(0xE7, 1, 8), 1 + 1 + 8);
}

#[test]
fn signed_element_sizes() {
    // Doubling the magnitude decides the width, covering the sign bit.
    assert_eq!(EbmlElementSizeArgI64(0x75A2, 0), 2 + 1 + 1);
    assert_eq!(EbmlElementSizeArgI64(0x75A2, 127), 2 + 1 + 1);
    assert_eq!(EbmlElementSizeArgI64(0x75A2, 128), 2 + 1 + 2);
    assert_eq!(EbmlElementSizeArgI64(0x75A2, -128), 2 + 1 + 1);
    assert_eq!(EbmlElementSizeArgI64(0x75A2, -129), 2 + 1 + 2);
    assert_eq!(EbmlElementSizeArgI64(0x75A2, i64::MIN), 2 + 1 + 8);
}

#[test]
fn master_element_size_uses_the_id() {
    // The size-field term is derived from the element's own id, not from
    // the declared payload.
    assert_eq!(EbmlMasterElementSize(0x1F43B675, 0), 4 + 5);
    assert_eq!(EbmlMasterElementSize(0x1F43B675, u64::MAX), 4 + 5);
    assert_eq!(EbmlMasterElementSize(0xA0, 0), 1 + 2);
    assert_eq!(EbmlMasterElementSize(0xEC, 0), 1 + 2);
}

#[test]
fn write_uint_element_bytes() {
    let mut w = MemWriter::new();
    assert!(WriteEbmlElementArgU64(&mut w, 0x4286, 1));
    assert_eq!(w.data().as_slice(), &[0x42, 0x86, 0x81, 0x01]);

    let mut w = MemWriter::new();
    assert!(WriteEbmlElementArgU64(&mut w, 0xE7, 0x1234));
    assert_eq!(w.data().as_slice(), &[0xE7, 0x82, 0x12, 0x34]);
}

#[test]
fn write_uint_element_with_fixed_size() {
    let mut w = MemWriter::new();
    assert!(WriteEbmlElementArgsU64(&mut w, 0xE7, 2, 8));
    assert_eq!(
        w.data().as_slice(),
        &[0xE7, 0x88, 0x00, 0x00, 0x00, 0x00, 0x00, 0x00, 0x00, 0x02]
    );
    // A value wider than the fixed size is rejected right after the id.
    let mut w = MemWriter::new();
    assert!(!WriteEbmlElementArgsU64(&mut w, 0xE7, 0x10000, 2));
    assert_eq!(w.data().as_slice(), &[0xE7]);
}

#[test]
fn write_signed_element_bytes() {
    let mut w = MemWriter::new();
    assert!(WriteEbmlElementArgI64(&mut w, 0x75A2, -2));
    assert_eq!(w.data().as_slice(), &[0x75, 0xA2, 0x81, 0xFE]);

    let mut w = MemWriter::new();
    assert!(WriteEbmlElementArgI64(&mut w, 0x75A2, 300));
    assert_eq!(w.data().as_slice(), &[0x75, 0xA2, 0x82, 0x01, 0x2C]);
}

#[test]
fn write_string_element_bytes() {
    let mut w = MemWriter::new();
    assert!(WriteEbmlElementArgStr(&mut w, 0x4282, "webm"));
    assert_eq!(
        w.data().as_slice(),
        &[0x42, 0x82, 0x84, b'w', b'e', b'b', b'm']
    );
    assert_eq!(EbmlElementSizeArgStr(0x4282, "webm"), 2 + 1 + 4);
}

#[test]
fn write_binary_element_bytes() {
    let mut w = MemWriter::new();
    assert!(WriteEbmlElementArgSlice(&mut w, 0xA5, &[1, 2, 3]));
    assert_eq!(w.data().as_slice(), &[0xA5, 0x83, 0x01, 0x02, 0x03]);
    assert_eq!(EbmlElementSizeArgSlice(0xA5, &[1, 2, 3]), 1 + 1 + 3);
}

#[test]
fn write_date_element_bytes() {
    let mut w = MemWriter::new();
    assert!(WriteEbmlDateElement(&mut w, 0x4461, -1));
    assert_eq!(
        w.data().as_slice(),
        &[0x44, 0x61, 0x88, 0xFF, 0xFF, 0xFF, 0xFF, 0xFF, 0xFF, 0xFF, 0xFF]
    );
    assert_eq!(EbmlDateElementSize(0x4461), 2 + 1 + 8);
}

#[test]
fn write_master_element_header() {
    let mut w = MemWriter::new();
    assert!(WriteEbmlMasterElement(&mut w, 0x1A45DFA3, 31));
    assert_eq!(w.data().as_slice(), &[0x1A, 0x45, 0xDF, 0xA3, 0x9F]);
}

#[test]
fn size_field_grows_with_the_payload() {
    // The var-uint threshold between one and two size bytes sits at
    // 2^7 - 2.
    let mut w = MemWriter::new();
    assert!(WriteEbmlMasterElement(&mut w, 0xA0, 126));
    assert_eq!(w.data().as_slice(), &[0xA0, 0xFE]);

    let mut w = MemWriter::new();
    assert!(WriteEbmlMasterElement(&mut w, 0xA0, 127));
    assert_eq!(w.data().as_slice(), &[0xA0, 0x40, 0x7F]);
}

#[test]
fn size_field_has_no_coding_above_the_limit() {
    // No width within 8 bytes holds values past 2^56 - 2.
    let mut w = MemWriter::new();
    assert!(WriteEbmlMasterElement(&mut w, 0xA0, 0xFFFFFFFFFFFFFE));
    let mut w = MemWriter::new();
    assert!(!WriteEbmlMasterElement(&mut w, 0xA0, 0xFFFFFFFFFFFFFF));
}

#[test]
fn void_element_pads_exactly() {
    let mut w = MemWriter::new();
    assert_eq!(WriteVoidElement(&mut w, 124), 124);
    assert_eq!(w.data().len(), 124);
    assert_eq!(w.data()[0], 0xEC);
    assert_eq!(w.data()[1], 0x80 | 122);
    for i in 2..124 {
        assert_eq!(w.data()[i], 0);
    }
}

#[test]
fn void_element_without_exact_fit_fails() {
    let mut w = MemWriter::new();
    assert_eq!(WriteVoidElement(&mut w, 1), 0);
    assert_eq!(WriteVoidElement(&mut w, 128), 0);
    assert_eq!(w.data().len(), 0);
}

#[test]
fn ebml_header_bytes() {
    let mut w = MemWriter::new();
    assert!(WriteEbmlHeader(&mut w, 2, "webm"));
    let expected: Vec<u8> = vec![
        0x1A, 0x45, 0xDF, 0xA3, 0x9F, // EBML, 31 payload bytes
        0x42, 0x86, 0x81, 0x01, // EBMLVersion 1
        0x42, 0xF7, 0x81, 0x01, // EBMLReadVersion 1
        0x42, 0xF2, 0x81, 0x04, // EBMLMaxIDLength 4
        0x42, 0xF3, 0x81, 0x08, // EBMLMaxSizeLength 8
        0x42, 0x82, 0x84, b'w', b'e', b'b', b'm', // DocType
        0x42, 0x87, 0x81, 0x02, // DocTypeVersion 2
        0x42, 0x85, 0x81, 0x02, // DocTypeReadVersion 2
    ];
    assert_eq!(w.data().as_slice(), expected.as_slice());

    let mut w2 = MemWriter::new();
    assert!(WriteEbmlHeader2(&mut w2, 2));
    assert_eq!(w2.data().as_slice(), expected.as_slice());
}

#[test]
fn mem_writer_overwrites_and_restores() {
    let mut w = MemWriter::new();
    assert!(w.write(&[1, 2, 3, 4]));
    assert_eq!(w.get_position(), 4);
    assert!(w.set_position(1));
    assert!(w.write(&[9]));
    assert!(w.set_position(4));
    assert_eq!(w.data().as_slice(), &[1, 9, 3, 4]);
    assert!(w.seekable());
    // Seeking past the end of the stream is refused.
    assert!(!w.set_position(99));
}

#[test]
fn var_uint_round_trips_through_the_standard_decode_rule() {
    // Decode a written size field: the first byte's leading zeros name
    // the width; clearing the marker bit leaves the value.
    let decode = |data: &[u8]| -> (u32, u64) {
        let b0 = data[0];
        let mut width: u32 = 1;
        let mut probe = 0x80u8;
        while probe > 0 && b0 < probe {
            width += 1;
            probe >>= 1;
        }
        let mut value: u64 = 0;
        for i in 0..width as usize {
            value = value * 256 + data[i] as u64;
        }
        (width, value - (1u64 << (7 * width)))
    };
    for v in [0u64, 1, 126, 127, 16382, 16383, 0x1FFFFF, 0xFFFFFFFFFFFFFE] {
        let mut w = MemWriter::new();
        assert!(WriteEbmlMasterElement(&mut w, 0xA0, v));
        let (width, value) = decode(&w.data().as_slice()[1..]);
        assert_eq!(value, v);
        assert_eq!(width as usize, w.data().len() - 1);
    }
}
