//! Chapter elements: a chapter atom with its timecodes and uid, and the
//! display entries that render its title in one or more languages.

use vstd::prelude::*;
use vstd::string::StringSliceAdditionalSpecFns;
use vstd::utf8::encode_utf8;

use crate::ids;
use crate::util::{
    bin_elem_bytes, bin_elem_size, lemma_bin_elem_bytes_len, lemma_master_header_bytes_len,
    lemma_uint_elem_bytes_len, master_elem_size, master_header_bytes, uint_elem_bytes,
    uint_elem_size, uint_width, EbmlElementSizeArgStr, EbmlElementSizeArgU64,
    EbmlMasterElementSize, MakeUID, WriteEbmlElementArgStr, WriteEbmlElementArgU64,
    WriteEbmlMasterElement,
};
use crate::writer::{extends, lemma_extends_trans, lemma_write_extends, Writer};

verus! {

/// One rendering of a chapter's title, optionally qualified by language
/// and country.
#[derive(Debug)]
pub struct Display {
    pub title_: String,
    pub language_: String,
    pub country_: String,
}

/// Byte count of one Display's children.
pub open spec fn display_payload(d: Display) -> int {
    bin_elem_size(ids::MkvChapString as int, encode_utf8(d.title_@).len() as int) + (
    if d.language_@.len() > 0 {
        bin_elem_size(ids::MkvChapLanguage as int, encode_utf8(d.language_@).len() as int)
    } else {
        0
    }) + (if d.country_@.len() > 0 {
        bin_elem_size(ids::MkvChapCountry as int, encode_utf8(d.country_@).len() as int)
    } else {
        0
    })
}

/// One Display's strings are short enough for the wire format's sizes.
pub open spec fn display_wf(d: Display) -> bool {
    &&& encode_utf8(d.title_@).len() <= usize::MAX
    &&& encode_utf8(d.language_@).len() <= usize::MAX
    &&& encode_utf8(d.country_@).len() <= usize::MAX
    &&& display_payload(d) + 64 <= u64::MAX
}

impl Display {
    pub fn new() -> (d: Display)
        ensures
            d.title_@ == Seq::<char>::empty(),
            d.language_@ == Seq::<char>::empty(),
            d.country_@ == Seq::<char>::empty(),
    {
        Display { title_: String::new(), language_: String::new(), country_: String::new() }
    }

    pub fn set_title(&mut self, title: &str)
        ensures
            final(self).title_@ == title@,
            final(self).language_ == old(self).language_,
            final(self).country_ == old(self).country_,
    {
        self.title_ = title.to_owned();
    }

    pub fn title(&self) -> (r: &String)
        ensures
            r@ == self.title_@,
    {
        &self.title_
    }

    pub fn set_language(&mut self, language: &str)
        ensures
            final(self).language_@ == language@,
            final(self).title_ == old(self).title_,
            final(self).country_ == old(self).country_,
    {
        self.language_ = language.to_owned();
    }

    pub fn language(&self) -> (r: &String)
        ensures
            r@ == self.language_@,
    {
        &self.language_
    }

    pub fn set_country(&mut self, country: &str)
        ensures
            final(self).country_@ == country@,
            final(self).title_ == old(self).title_,
            final(self).language_ == old(self).language_,
    {
        self.country_ = country.to_owned();
    }

    pub fn country(&self) -> (r: &String)
        ensures
            r@ == self.country_@,
    {
        &self.country_
    }

    /// Exact byte count of the element's children.
    pub fn PayloadSize(&self) -> (r: u64)
        requires
            display_wf(*self),
        ensures
            r == display_payload(*self),
    {
        let mut payload_size = EbmlElementSizeArgStr(ids::MkvChapString, self.title_.as_str());
        if !self.language_.as_str().is_empty() {
            payload_size += EbmlElementSizeArgStr(ids::MkvChapLanguage, self.language_.as_str());
        }
        if !self.country_.as_str().is_empty() {
            payload_size += EbmlElementSizeArgStr(ids::MkvChapCountry, self.country_.as_str());
        }
        payload_size
    }

    /// Write the element: its header, then exactly `PayloadSize()` bytes
    /// of children, which the body checks before reporting success.
    pub fn Write<W: Writer>(&self, writer: &mut W) -> (r: bool)
        requires
            old(writer).inv(),
            display_wf(*self),
        ensures
            final(writer).inv(),
            final(writer).is_seekable() == old(writer).is_seekable(),
            r ==> extends(*old(writer), *final(writer)) && final(writer).pos() == old(writer).pos()
                + master_elem_size(ids::MkvChapterDisplay as int) + display_payload(*self),
    {
        proof {
            writer.lemma_inv();
        }
        let payload_size = self.PayloadSize();
        let display_size = EbmlMasterElementSize(ids::MkvChapterDisplay, payload_size)
            + payload_size;

        let start = writer.get_position();

        let ghost w0 = *writer;
        if !WriteEbmlMasterElement(writer, ids::MkvChapterDisplay, payload_size) {
            return false;
        }
        proof {
            lemma_master_header_bytes_len(ids::MkvChapterDisplay as int, payload_size as int);
            lemma_write_extends(
                w0,
                *writer,
                master_header_bytes(ids::MkvChapterDisplay as int, payload_size as int),
            );
        }
        let ghost w1 = *writer;
        if !WriteEbmlElementArgStr(writer, ids::MkvChapString, self.title_.as_str()) {
            return false;
        }
        proof {
            lemma_bin_elem_bytes_len(ids::MkvChapString as int, encode_utf8(self.title_@));
            lemma_write_extends(
                w1,
                *writer,
                bin_elem_bytes(ids::MkvChapString as int, encode_utf8(self.title_@)),
            );
            lemma_extends_trans(w0, w1, *writer);
        }
        if !self.language_.as_str().is_empty() {
            let ghost w2 = *writer;
            if !WriteEbmlElementArgStr(writer, ids::MkvChapLanguage, self.language_.as_str()) {
                return false;
            }
            proof {
                lemma_bin_elem_bytes_len(ids::MkvChapLanguage as int, encode_utf8(self.language_@));
                lemma_write_extends(
                    w2,
                    *writer,
                    bin_elem_bytes(ids::MkvChapLanguage as int, encode_utf8(self.language_@)),
                );
                lemma_extends_trans(w0, w2, *writer);
            }
        }
        if !self.country_.as_str().is_empty() {
            let ghost w3 = *writer;
            if !WriteEbmlElementArgStr(writer, ids::MkvChapCountry, self.country_.as_str()) {
                return false;
            }
            proof {
                lemma_bin_elem_bytes_len(ids::MkvChapCountry as int, encode_utf8(self.country_@));
                lemma_write_extends(
                    w3,
                    *writer,
                    bin_elem_bytes(ids::MkvChapCountry as int, encode_utf8(self.country_@)),
                );
                lemma_extends_trans(w0, w3, *writer);
            }
        }
        let stop = writer.get_position();

        if stop < start || stop - start != display_size {
            return false;
        }
        true
    }
}

/// A chapter: its WebVTT-style string identifier, start and stop
/// timecodes, binary uid, and display entries.
#[derive(Debug)]
pub struct Chapter {
    /// The string identifier for this chapter (corresponds to WebVTT cue
    /// identifier).
    pub id_: String,
    /// Start timecode of the chapter.
    pub start_timecode_: u64,
    /// Stop timecode of the chapter.
    pub end_timecode_: u64,
    /// The binary identifier for this chapter.
    pub uid_: u64,
    /// The atom can hold one display entry per language the title is
    /// rendered in.
    pub displays_: Vec<Display>,
}

/// Byte count of the Display elements from index `i` on, headers included.
pub open spec fn displays_size_from(ds: Seq<Display>, i: int) -> int
    decreases ds.len() - i,
{
    if i < 0 || i >= ds.len() {
        0
    } else {
        master_elem_size(ids::MkvChapterDisplay as int) + display_payload(ds[i])
            + displays_size_from(ds, i + 1)
    }
}

pub proof fn lemma_displays_size_nonneg(ds: Seq<Display>, i: int)
    requires
        forall|k: int| 0 <= k < ds.len() ==> display_wf(#[trigger] ds[k]),
    ensures
        displays_size_from(ds, i) >= 0,
    decreases ds.len() - i,
{
    if 0 <= i < ds.len() {
        lemma_displays_size_nonneg(ds, i + 1);
    }
}

/// Byte count of one Chapter's children.
pub open spec fn chapter_payload(c: Chapter) -> int {
    bin_elem_size(ids::MkvChapterStringUID as int, encode_utf8(c.id_@).len() as int)
        + uint_elem_size(ids::MkvChapterUID as int, c.uid_ as int, 0) + uint_elem_size(
        ids::MkvChapterTimeStart as int,
        c.start_timecode_ as int,
        0,
    ) + uint_elem_size(ids::MkvChapterTimeEnd as int, c.end_timecode_ as int, 0)
        + displays_size_from(c.displays_@, 0)
}

/// One Chapter's strings and displays fit the wire format's sizes.
pub open spec fn chapter_wf(c: Chapter) -> bool {
    &&& encode_utf8(c.id_@).len() <= usize::MAX
    &&& forall|k: int| 0 <= k < c.displays_@.len() ==> display_wf(#[trigger] c.displays_@[k])
    &&& chapter_payload(c) + 64 <= u64::MAX
}

impl Chapter {
    pub fn new() -> (c: Chapter)
        ensures
            c.id_@ == Seq::<char>::empty(),
            c.start_timecode_ == 0,
            c.end_timecode_ == 0,
            c.displays_@.len() == 0,
    {
        Chapter {
            id_: String::new(),
            start_timecode_: 0,
            end_timecode_: 0,
            uid_: MakeUID(),
            displays_: Vec::new(),
        }
    }

    /// Exact byte count of the element's children.
    pub fn PayloadSize(&self) -> (r: u64)
        requires
            chapter_wf(*self),
        ensures
            r == chapter_payload(*self),
    {
        proof {
            lemma_displays_size_nonneg(self.displays_@, 0);
        }
        let mut payload_size = EbmlElementSizeArgStr(ids::MkvChapterStringUID, self.id_.as_str());
        payload_size += EbmlElementSizeArgU64(ids::MkvChapterUID, self.uid_);
        payload_size += EbmlElementSizeArgU64(ids::MkvChapterTimeStart, self.start_timecode_);
        payload_size += EbmlElementSizeArgU64(ids::MkvChapterTimeEnd, self.end_timecode_);

        let n = self.displays_.len();
        let mut i: usize = 0;
        while i < n
            invariant
                chapter_wf(*self),
                n == self.displays_@.len(),
                i <= n,
                payload_size + displays_size_from(self.displays_@, i as int) == chapter_payload(
                    *self,
                ),
            decreases n - i,
        {
            proof {
                lemma_displays_size_nonneg(self.displays_@, i + 1);
            }
            let display_payload_size = self.displays_[i].PayloadSize();
            payload_size += EbmlMasterElementSize(ids::MkvChapterDisplay, display_payload_size)
                + display_payload_size;
            i = i + 1;
        }
        payload_size
    }

    /// Write the chapter atom: its header, then exactly `PayloadSize()`
    /// bytes of children, which the body checks before reporting success.
    pub fn Write<W: Writer>(&self, writer: &mut W) -> (r: bool)
        requires
            old(writer).inv(),
            chapter_wf(*self),
        ensures
            final(writer).inv(),
            final(writer).is_seekable() == old(writer).is_seekable(),
            r ==> extends(*old(writer), *final(writer)) && final(writer).pos() == old(writer).pos()
                + master_elem_size(ids::MkvChapterAtom as int) + chapter_payload(*self),
    {
        proof {
            writer.lemma_inv();
        }
        let payload_size = self.PayloadSize();
        let atom_size = EbmlMasterElementSize(ids::MkvChapterAtom, payload_size) + payload_size;

        let start = writer.get_position();

        let ghost w0 = *writer;
        if !WriteEbmlMasterElement(writer, ids::MkvChapterAtom, payload_size) {
            return false;
        }
        proof {
            lemma_master_header_bytes_len(ids::MkvChapterAtom as int, payload_size as int);
            lemma_write_extends(
                w0,
                *writer,
                master_header_bytes(ids::MkvChapterAtom as int, payload_size as int),
            );
        }
        let ghost w1 = *writer;
        if !WriteEbmlElementArgStr(writer, ids::MkvChapterStringUID, self.id_.as_str()) {
            return false;
        }
        proof {
            lemma_bin_elem_bytes_len(ids::MkvChapterStringUID as int, encode_utf8(self.id_@));
            lemma_write_extends(
                w1,
                *writer,
                bin_elem_bytes(ids::MkvChapterStringUID as int, encode_utf8(self.id_@)),
            );
            lemma_extends_trans(w0, w1, *writer);
        }
        let ghost w2 = *writer;
        if !WriteEbmlElementArgU64(writer, ids::MkvChapterUID, self.uid_) {
            return false;
        }
        proof {
            lemma_uint_elem_bytes_len(
                ids::MkvChapterUID as int,
                self.uid_ as int,
                uint_width(self.uid_ as int),
            );
            lemma_write_extends(
                w2,
                *writer,
                uint_elem_bytes(
                    ids::MkvChapterUID as int,
                    self.uid_ as int,
                    uint_width(self.uid_ as int),
                ),
            );
            lemma_extends_trans(w0, w2, *writer);
        }
        let ghost w3 = *writer;
        if !WriteEbmlElementArgU64(writer, ids::MkvChapterTimeStart, self.start_timecode_) {
            return false;
        }
        proof {
            lemma_uint_elem_bytes_len(
                ids::MkvChapterTimeStart as int,
                self.start_timecode_ as int,
                uint_width(self.start_timecode_ as int),
            );
            lemma_write_extends(
                w3,
                *writer,
                uint_elem_bytes(
                    ids::MkvChapterTimeStart as int,
                    self.start_timecode_ as int,
                    uint_width(self.start_timecode_ as int),
                ),
            );
            lemma_extends_trans(w0, w3, *writer);
        }
        let ghost w4 = *writer;
        if !WriteEbmlElementArgU64(writer, ids::MkvChapterTimeEnd, self.end_timecode_) {
            return false;
        }
        proof {
            lemma_uint_elem_bytes_len(
                ids::MkvChapterTimeEnd as int,
                self.end_timecode_ as int,
                uint_width(self.end_timecode_ as int),
            );
            lemma_write_extends(
                w4,
                *writer,
                uint_elem_bytes(
                    ids::MkvChapterTimeEnd as int,
                    self.end_timecode_ as int,
                    uint_width(self.end_timecode_ as int),
                ),
            );
            lemma_extends_trans(w0, w4, *writer);
        }
        let n = self.displays_.len();
        let mut i: usize = 0;
        while i < n
            invariant
                chapter_wf(*self),
                n == self.displays_@.len(),
                i <= n,
                writer.inv(),
                writer.is_seekable() == old(writer).is_seekable(),
                extends(w0, *writer),
            decreases n - i,
        {
            let ghost wi = *writer;
            if !self.displays_[i].Write(writer) {
                return false;
            }
            proof {
                lemma_extends_trans(w0, wi, *writer);
            }
            i = i + 1;
        }
        let stop = writer.get_position();
        if stop < start || stop - start != atom_size {
            return false;
        }
        true
    }
}

} // verus!
