//! The ContentEncoding element: how a track's data was encrypted (whole
//! frames under AES, in this muxer).

use vstd::prelude::*;

use crate::content_enc_aes_settings::ContentEncAESSettings;
use crate::ids;
use crate::util::{
    bin_elem_bytes, bin_elem_size, lemma_bin_elem_bytes_len,
    lemma_master_header_bytes_len, lemma_uint_elem_bytes_len, master_elem_size,
    master_header_bytes, uint_elem_bytes, uint_elem_size, uint_width, EbmlElementSizeArgSlice,
    EbmlElementSizeArgU64, EbmlMasterElementSize, WriteEbmlElementArgSlice, WriteEbmlElementArgU64,
    WriteEbmlMasterElement,
};
use crate::writer::{
    extends, lemma_extends_trans, lemma_write_extends, Writer,
};
use vstd::slice::slice_to_vec;

verus! {

/// Elements describing whole-frame AES encryption of a track's data: the
/// encoding order, scope and type are fixed by that choice.
pub struct ContentEncoding {
    pub enc_algo_: u64,
    pub enc_key_id_: Vec<u8>,
    pub encoding_order_: u64,
    pub encoding_scope_: u64,
    pub encoding_type_: u64,
    /// ContentEncAESSettings element.
    pub enc_aes_settings_: ContentEncAESSettings,
}

impl ContentEncoding {
    /// Key ids short enough that every derived element size fits 64 bits.
    pub open spec fn wf(self) -> bool {
        self.enc_key_id_@.len() + 200 <= u64::MAX
    }

    /// Byte count of the ContentEncryption element's children.
    pub open spec fn encryption_size_spec(self) -> int {
        bin_elem_size(ids::MkvContentEncKeyID as int, self.enc_key_id_@.len() as int)
            + uint_elem_size(ids::MkvContentEncAlgo as int, self.enc_algo_ as int, 0)
            + master_elem_size(ids::MkvContentEncAESSettings as int)
            + self.enc_aes_settings_.payload_size_spec()
    }

    /// Byte count of the ContentEncoding element's children.
    pub open spec fn encoding_size_spec(self) -> int {
        master_elem_size(ids::MkvContentEncryption as int) + self.encryption_size_spec()
            + uint_elem_size(ids::MkvContentEncodingType as int, self.encoding_type_ as int, 0)
            + uint_elem_size(ids::MkvContentEncodingScope as int, self.encoding_scope_ as int, 0)
            + uint_elem_size(ids::MkvContentEncodingOrder as int, self.encoding_order_ as int, 0)
    }

    pub fn enc_algo(&self) -> (r: u64)
        ensures
            r == self.enc_algo_,
    {
        self.enc_algo_
    }

    pub fn encoding_order(&self) -> (r: u64)
        ensures
            r == self.encoding_order_,
    {
        self.encoding_order_
    }

    pub fn encoding_scope(&self) -> (r: u64)
        ensures
            r == self.encoding_scope_,
    {
        self.encoding_scope_
    }

    pub fn encoding_type(&self) -> (r: u64)
        ensures
            r == self.encoding_type_,
    {
        self.encoding_type_
    }

    pub fn enc_aes_settings(&self) -> (r: &ContentEncAESSettings)
        ensures
            r == self.enc_aes_settings_,
    {
        &self.enc_aes_settings_
    }

    pub fn new() -> (s: ContentEncoding)
        ensures
            s.enc_algo_ == 5,
            s.enc_key_id_@ == Seq::<u8>::empty(),
            s.encoding_order_ == 0,
            s.encoding_scope_ == 1,
            s.encoding_type_ == 1,
            s.enc_aes_settings_.cipher_mode_ == crate::content_enc_aes_settings::CTR,
    {
        ContentEncoding {
            enc_algo_: 5,
            enc_key_id_: Vec::new(),
            encoding_order_: 0,
            encoding_scope_: 1,
            encoding_type_: 1,
            enc_aes_settings_: ContentEncAESSettings::new(),
        }
    }

    /// Store the encryption key id by value.
    pub fn SetEncryptionID(&mut self, id: &[u8]) -> (r: bool)
        ensures
            r,
            final(self).enc_key_id_@ == id@,
            final(self).enc_algo_ == old(self).enc_algo_,
            final(self).encoding_order_ == old(self).encoding_order_,
            final(self).encoding_scope_ == old(self).encoding_scope_,
            final(self).encoding_type_ == old(self).encoding_type_,
            final(self).enc_aes_settings_ == old(self).enc_aes_settings_,
    {
        self.enc_key_id_ = slice_to_vec(id);
        true
    }

    /// Declared size of the whole element, header included.
    pub fn Size(&self) -> (r: u64)
        requires
            self.wf(),
        ensures
            r == master_elem_size(ids::MkvContentEncoding as int) + self.encoding_size_spec(),
    {
        let encryption_size = self.EncryptionSize();
        let encoding_size = self.EncodingSize(0, encryption_size);
        EbmlMasterElementSize(ids::MkvContentEncoding, encoding_size) + encoding_size
    }

    /// Byte count of the ContentEncoding element's children, for the given
    /// compression and encryption sizes.
    fn EncodingSize(&self, compresion_size: u64, encryption_size: u64) -> (r: u64)
        requires
            compresion_size == 0,
            encryption_size == self.encryption_size_spec(),
            self.wf(),
        ensures
            r == self.encoding_size_spec(),
    {
        let mut encoding_size: u64 = 0;

        if encryption_size > 0 {
            encoding_size += EbmlMasterElementSize(ids::MkvContentEncryption, encryption_size)
                + encryption_size;
        }
        encoding_size += EbmlElementSizeArgU64(ids::MkvContentEncodingType, self.encoding_type_);
        encoding_size += EbmlElementSizeArgU64(ids::MkvContentEncodingScope, self.encoding_scope_);
        encoding_size += EbmlElementSizeArgU64(ids::MkvContentEncodingOrder, self.encoding_order_);

        encoding_size
    }

    /// Byte count of the ContentEncryption element's children.
    fn EncryptionSize(&self) -> (r: u64)
        requires
            self.wf(),
        ensures
            r == self.encryption_size_spec(),
    {
        let aes_size = self.enc_aes_settings_.Size();

        let mut encryption_size = EbmlElementSizeArgSlice(
            ids::MkvContentEncKeyID,
            self.enc_key_id_.as_slice(),
        );
        encryption_size += EbmlElementSizeArgU64(ids::MkvContentEncAlgo, self.enc_algo_);

        encryption_size + aes_size
    }

    /// Write the element and everything under it, checking afterwards that
    /// exactly the declared byte count went out.
    pub fn Write<W: Writer>(&self, writer: &mut W) -> (r: bool)
        requires
            old(writer).inv(),
            self.wf(),
        ensures
            final(writer).inv(),
            final(writer).is_seekable() == old(writer).is_seekable(),
            r ==> extends(*old(writer), *final(writer)) && final(writer).pos() == old(writer).pos()
                + master_elem_size(ids::MkvContentEncoding as int) + self.encoding_size_spec(),
    {
        let ghost w0 = *writer;
        proof {
            writer.lemma_inv();
        }
        let encryption_size = self.EncryptionSize();
        let encoding_size = self.EncodingSize(0, encryption_size);
        let size = EbmlMasterElementSize(ids::MkvContentEncoding, encoding_size) + encoding_size;

        let payload_position = writer.get_position();

        let ghost w1 = *writer;
        if !WriteEbmlMasterElement(writer, ids::MkvContentEncoding, encoding_size) {
            return false;
        }
        proof {
            lemma_master_header_bytes_len(ids::MkvContentEncoding as int, encoding_size as int);
            lemma_write_extends(
                w1,
                *writer,
                master_header_bytes(ids::MkvContentEncoding as int, encoding_size as int),
            );
        }
        let ghost w2 = *writer;
        if !WriteEbmlElementArgU64(writer, ids::MkvContentEncodingOrder, self.encoding_order_) {
            return false;
        }
        proof {
            lemma_uint_elem_bytes_len(
                ids::MkvContentEncodingOrder as int,
                self.encoding_order_ as int,
                uint_width(self.encoding_order_ as int),
            );
            lemma_write_extends(
                w2,
                *writer,
                uint_elem_bytes(
                    ids::MkvContentEncodingOrder as int,
                    self.encoding_order_ as int,
                    uint_width(self.encoding_order_ as int),
                ),
            );
            lemma_extends_trans(w1, w2, *writer);
        }
        let ghost w3 = *writer;
        if !WriteEbmlElementArgU64(writer, ids::MkvContentEncodingScope, self.encoding_scope_) {
            return false;
        }
        proof {
            lemma_uint_elem_bytes_len(
                ids::MkvContentEncodingScope as int,
                self.encoding_scope_ as int,
                uint_width(self.encoding_scope_ as int),
            );
            lemma_write_extends(
                w3,
                *writer,
                uint_elem_bytes(
                    ids::MkvContentEncodingScope as int,
                    self.encoding_scope_ as int,
                    uint_width(self.encoding_scope_ as int),
                ),
            );
            lemma_extends_trans(w1, w3, *writer);
        }
        let ghost w4 = *writer;
        if !WriteEbmlElementArgU64(writer, ids::MkvContentEncodingType, self.encoding_type_) {
            return false;
        }
        proof {
            lemma_uint_elem_bytes_len(
                ids::MkvContentEncodingType as int,
                self.encoding_type_ as int,
                uint_width(self.encoding_type_ as int),
            );
            lemma_write_extends(
                w4,
                *writer,
                uint_elem_bytes(
                    ids::MkvContentEncodingType as int,
                    self.encoding_type_ as int,
                    uint_width(self.encoding_type_ as int),
                ),
            );
            lemma_extends_trans(w1, w4, *writer);
        }
        let ghost w5 = *writer;
        if !WriteEbmlMasterElement(writer, ids::MkvContentEncryption, encryption_size) {
            return false;
        }
        proof {
            lemma_master_header_bytes_len(
                ids::MkvContentEncryption as int,
                encryption_size as int,
            );
            lemma_write_extends(
                w5,
                *writer,
                master_header_bytes(ids::MkvContentEncryption as int, encryption_size as int),
            );
            lemma_extends_trans(w1, w5, *writer);
        }
        let ghost w6 = *writer;
        if !WriteEbmlElementArgU64(writer, ids::MkvContentEncAlgo, self.enc_algo_) {
            return false;
        }
        proof {
            lemma_uint_elem_bytes_len(
                ids::MkvContentEncAlgo as int,
                self.enc_algo_ as int,
                uint_width(self.enc_algo_ as int),
            );
            lemma_write_extends(
                w6,
                *writer,
                uint_elem_bytes(
                    ids::MkvContentEncAlgo as int,
                    self.enc_algo_ as int,
                    uint_width(self.enc_algo_ as int),
                ),
            );
            lemma_extends_trans(w1, w6, *writer);
        }
        let ghost w7 = *writer;
        if !WriteEbmlElementArgSlice(writer, ids::MkvContentEncKeyID, self.enc_key_id_.as_slice()) {
            return false;
        }
        proof {
            lemma_bin_elem_bytes_len(ids::MkvContentEncKeyID as int, self.enc_key_id_@);
            lemma_write_extends(
                w7,
                *writer,
                bin_elem_bytes(ids::MkvContentEncKeyID as int, self.enc_key_id_@),
            );
            lemma_extends_trans(w1, w7, *writer);
        }
        let ghost w8 = *writer;
        if !self.enc_aes_settings_.Write(writer) {
            return false;
        }
        proof {
            lemma_extends_trans(w1, w8, *writer);
        }
        let stop_position = writer.get_position();
        if stop_position < payload_position || stop_position - payload_position != size {
            return false;
        }
        true
    }
}

} // verus!
