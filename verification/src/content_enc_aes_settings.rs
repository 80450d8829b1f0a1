//! The ContentEncAESSettings element: the AES cipher mode of an encrypted
//! track.

use vstd::prelude::*;

use crate::ids;
use crate::util::{
    coded_width, lemma_master_header_bytes_len, lemma_uint_elem_bytes_len, master_elem_size,
    master_header_bytes, uint_elem_bytes, uint_elem_size, uint_width, EbmlElementSizeArgU64,
    EbmlMasterElementSize, WriteEbmlElementArgU64, WriteEbmlMasterElement,
};
use crate::writer::{advances, lemma_advances_trans, lemma_write_advances, Writer};

verus! {

/// The only cipher mode this muxer emits: AES counter mode.
pub const CTR: u64 = 1;

/// Elements describing the AES settings of an encrypted track.
pub struct ContentEncAESSettings {
    pub cipher_mode_: u64,
}

impl ContentEncAESSettings {
    /// Byte count of the element's children.
    pub open spec fn payload_size_spec(self) -> int {
        uint_elem_size(ids::MkvAESSettingsCipherMode as int, self.cipher_mode_ as int, 0)
    }

    pub fn new() -> (s: ContentEncAESSettings)
        ensures
            s.cipher_mode_ == CTR,
    {
        ContentEncAESSettings { cipher_mode_: CTR }
    }

    pub fn cipher_mode(&self) -> (r: u64)
        ensures
            r == self.cipher_mode_,
    {
        self.cipher_mode_
    }

    /// Exact byte count of the element's children.
    pub fn PayloadSize(&self) -> (r: u64)
        ensures
            r == self.payload_size_spec(),
    {
        EbmlElementSizeArgU64(ids::MkvAESSettingsCipherMode, self.cipher_mode_)
    }

    /// Declared size of the whole element, header included.
    pub fn Size(&self) -> (r: u64)
        ensures
            r == master_elem_size(ids::MkvContentEncAESSettings as int)
                + self.payload_size_spec(),
    {
        let payload = self.PayloadSize();
        EbmlMasterElementSize(ids::MkvContentEncAESSettings, payload) + payload
    }

    /// Write the element: its header, then exactly `PayloadSize()` bytes
    /// of children, which the body checks before reporting success.
    pub fn Write<W: Writer>(&self, writer: &mut W) -> (r: bool)
        requires
            old(writer).inv(),
        ensures
            final(writer).inv(),
            final(writer).is_seekable() == old(writer).is_seekable(),
            r ==> advances(
                *old(writer),
                *final(writer),
                uint_width(ids::MkvContentEncAESSettings as int) + coded_width(
                    self.payload_size_spec(),
                ) + self.payload_size_spec(),
            ),
    {
        let ghost w0 = *writer;
        proof {
            writer.lemma_inv();
        }
        let payload = self.PayloadSize();

        if !WriteEbmlMasterElement(writer, ids::MkvContentEncAESSettings, payload) {
            return false;
        }
        let ghost w1 = *writer;
        proof {
            lemma_master_header_bytes_len(
                ids::MkvContentEncAESSettings as int,
                self.payload_size_spec(),
            );
            lemma_write_advances(
                w0,
                *writer,
                master_header_bytes(ids::MkvContentEncAESSettings as int, payload as int),
            );
        }
        let payload_position = writer.get_position();

        if !WriteEbmlElementArgU64(writer, ids::MkvAESSettingsCipherMode, self.cipher_mode_) {
            return false;
        }
        proof {
            lemma_uint_elem_bytes_len(
                ids::MkvAESSettingsCipherMode as int,
                self.cipher_mode_ as int,
                uint_width(self.cipher_mode_ as int),
            );
            lemma_write_advances(
                w1,
                *writer,
                uint_elem_bytes(
                    ids::MkvAESSettingsCipherMode as int,
                    self.cipher_mode_ as int,
                    uint_width(self.cipher_mode_ as int),
                ),
            );
            lemma_advances_trans(
                w0,
                w1,
                *writer,
                uint_width(ids::MkvContentEncAESSettings as int) + coded_width(
                    self.payload_size_spec(),
                ),
                self.payload_size_spec(),
            );
        }
        let stop_position = writer.get_position();
        if stop_position - payload_position != payload {
            return false;
        }
        true
    }
}

} // verus!
