//! Tagging elements: SimpleTag name/value pairs, the Tag elements that
//! group them, and the Tags element that collects those.

use vstd::prelude::*;
use vstd::string::StringSliceAdditionalSpecFns;
use vstd::utf8::encode_utf8;

use crate::ids;
use crate::util::{
    bin_elem_bytes, bin_elem_size, coded_width, lemma_bin_elem_bytes_len,
    lemma_master_header_bytes_len, master_elem_size, master_header_bytes, uint_width,
    EbmlElementSizeArgStr, EbmlMasterElementSize, WriteEbmlElementArgStr, WriteEbmlMasterElement,
};
use crate::writer::{extends, lemma_extends_trans, lemma_write_extends, Writer};

verus! {

/// A name/value pair of tagging metadata.
#[derive(Debug)]
pub struct SimpleTag {
    pub tag_name_: String,
    pub tag_string_: String,
}

/// Byte count of one SimpleTag's children.
pub open spec fn simple_tag_payload(st: SimpleTag) -> int {
    bin_elem_size(ids::MkvTagName as int, encode_utf8(st.tag_name_@).len() as int)
        + bin_elem_size(ids::MkvTagString as int, encode_utf8(st.tag_string_@).len() as int)
}

/// One SimpleTag's strings are short enough for the wire format's sizes.
pub open spec fn simple_tag_wf(st: SimpleTag) -> bool {
    &&& encode_utf8(st.tag_name_@).len() <= usize::MAX
    &&& encode_utf8(st.tag_string_@).len() <= usize::MAX
    &&& simple_tag_payload(st) + 64 <= u64::MAX
}

/// Byte count of the SimpleTag elements from index `i` on, headers
/// included.
pub open spec fn simple_tags_size_from(sts: Seq<SimpleTag>, i: int) -> int
    decreases sts.len() - i,
{
    if i < 0 || i >= sts.len() {
        0
    } else {
        simple_tag_payload(sts[i]) + master_elem_size(ids::MkvSimpleTag as int)
            + simple_tags_size_from(sts, i + 1)
    }
}

proof fn lemma_simple_tags_size_nonneg(sts: Seq<SimpleTag>, i: int)
    requires
        forall|k: int| 0 <= k < sts.len() ==> simple_tag_wf(#[trigger] sts[k]),
    ensures
        simple_tags_size_from(sts, i) >= 0,
    decreases sts.len() - i,
{
    if 0 <= i < sts.len() {
        lemma_simple_tags_size_nonneg(sts, i + 1);
    }
}

impl SimpleTag {
    pub fn new() -> (s: SimpleTag)
        ensures
            s.tag_name_@ == Seq::<char>::empty(),
            s.tag_string_@ == Seq::<char>::empty(),
    {
        SimpleTag { tag_name_: String::new(), tag_string_: String::new() }
    }

    pub fn set_tag_name(&mut self, tag_name: &str)
        ensures
            final(self).tag_name_@ == tag_name@,
            final(self).tag_string_ == old(self).tag_string_,
    {
        self.tag_name_ = tag_name.to_owned();
    }

    pub fn set_tag_string(&mut self, tag_string: &str)
        ensures
            final(self).tag_string_@ == tag_string@,
            final(self).tag_name_ == old(self).tag_name_,
    {
        self.tag_string_ = tag_string.to_owned();
    }

    /// Exact byte count of the element's children.
    pub fn PayloadSize(&self) -> (r: u64)
        requires
            simple_tag_wf(*self),
        ensures
            r == simple_tag_payload(*self),
    {
        let mut payload_size = EbmlElementSizeArgStr(ids::MkvTagName, self.tag_name_.as_str());
        payload_size += EbmlElementSizeArgStr(ids::MkvTagString, self.tag_string_.as_str());
        payload_size
    }

    /// Write the element: its header, then exactly `PayloadSize()` bytes
    /// of children, which the body checks before reporting success.
    pub fn Write<W: Writer>(&self, writer: &mut W) -> (r: bool)
        requires
            old(writer).inv(),
            simple_tag_wf(*self),
        ensures
            final(writer).inv(),
            final(writer).is_seekable() == old(writer).is_seekable(),
            r ==> extends(*old(writer), *final(writer)) && final(writer).pos() == old(writer).pos()
                + master_elem_size(ids::MkvSimpleTag as int) + simple_tag_payload(*self),
    {
        proof {
            writer.lemma_inv();
        }
        let payload_size = self.PayloadSize();
        let simple_tag_size = EbmlMasterElementSize(ids::MkvSimpleTag, payload_size)
            + payload_size;

        let start = writer.get_position();

        let ghost w0 = *writer;
        if !WriteEbmlMasterElement(writer, ids::MkvSimpleTag, payload_size) {
            return false;
        }
        proof {
            lemma_master_header_bytes_len(ids::MkvSimpleTag as int, payload_size as int);
            lemma_write_extends(
                w0,
                *writer,
                master_header_bytes(ids::MkvSimpleTag as int, payload_size as int),
            );
        }
        let ghost w1 = *writer;
        if !WriteEbmlElementArgStr(writer, ids::MkvTagName, self.tag_name_.as_str()) {
            return false;
        }
        proof {
            lemma_bin_elem_bytes_len(ids::MkvTagName as int, encode_utf8(self.tag_name_@));
            lemma_write_extends(
                w1,
                *writer,
                bin_elem_bytes(ids::MkvTagName as int, encode_utf8(self.tag_name_@)),
            );
            lemma_extends_trans(w0, w1, *writer);
        }
        let ghost w2 = *writer;
        if !WriteEbmlElementArgStr(writer, ids::MkvTagString, self.tag_string_.as_str()) {
            return false;
        }
        proof {
            lemma_bin_elem_bytes_len(ids::MkvTagString as int, encode_utf8(self.tag_string_@));
            lemma_write_extends(
                w2,
                *writer,
                bin_elem_bytes(ids::MkvTagString as int, encode_utf8(self.tag_string_@)),
            );
            lemma_extends_trans(w0, w2, *writer);
        }
        let stop = writer.get_position();

        if stop < start || stop - start != simple_tag_size {
            return false;
        }
        true
    }
}

/// A group of SimpleTag elements.
pub struct Tag {
    pub simple_tags_: Vec<SimpleTag>,
}

impl Tag {
    /// Every held SimpleTag is well formed and the whole payload fits the
    /// wire format's sizes.
    pub open spec fn wf(self) -> bool {
        &&& forall|k: int|
            0 <= k < self.simple_tags_@.len() ==> simple_tag_wf(#[trigger] self.simple_tags_@[k])
        &&& simple_tags_size_from(self.simple_tags_@, 0) + 64 <= u64::MAX
    }

    pub fn new() -> (t: Tag)
        ensures
            t.simple_tags_@.len() == 0,
    {
        Tag { simple_tags_: Vec::new() }
    }

    pub fn clear(&mut self)
        ensures
            final(self).simple_tags_@.len() == 0,
    {
        self.simple_tags_.clear();
    }

    /// Exact byte count of the element's children: each SimpleTag with its
    /// own header.
    pub fn PayloadSize(&self) -> (r: u64)
        requires
            self.wf(),
        ensures
            r == simple_tags_size_from(self.simple_tags_@, 0),
    {
        let mut payload_size: u64 = 0;
        let n = self.simple_tags_.len();
        let mut i: usize = 0;
        while i < n
            invariant
                self.wf(),
                n == self.simple_tags_@.len(),
                i <= n,
                payload_size + simple_tags_size_from(self.simple_tags_@, i as int)
                    == simple_tags_size_from(self.simple_tags_@, 0),
            decreases n - i,
        {
            proof {
                lemma_simple_tags_size_nonneg(self.simple_tags_@, i + 1);
            }
            payload_size += self.simple_tags_[i].PayloadSize();
            payload_size += EbmlMasterElementSize(ids::MkvSimpleTag, payload_size);
            i = i + 1;
        }
        payload_size
    }

    /// Write the element: its header, then exactly `PayloadSize()` bytes
    /// of SimpleTag children, which the body checks before reporting
    /// success.
    pub fn Write<W: Writer>(&self, writer: &mut W) -> (r: bool)
        requires
            old(writer).inv(),
            self.wf(),
        ensures
            final(writer).inv(),
            final(writer).is_seekable() == old(writer).is_seekable(),
            r ==> extends(*old(writer), *final(writer)) && final(writer).pos() == old(writer).pos()
                + master_elem_size(ids::MkvTag as int) + simple_tags_size_from(
                self.simple_tags_@,
                0,
            ),
    {
        proof {
            writer.lemma_inv();
        }
        let payload_size = self.PayloadSize();
        let tag_size = EbmlMasterElementSize(ids::MkvTag, payload_size) + payload_size;

        let start = writer.get_position();

        let ghost w0 = *writer;
        if !WriteEbmlMasterElement(writer, ids::MkvTag, payload_size) {
            return false;
        }
        proof {
            lemma_master_header_bytes_len(ids::MkvTag as int, payload_size as int);
            lemma_write_extends(
                w0,
                *writer,
                master_header_bytes(ids::MkvTag as int, payload_size as int),
            );
        }
        let n = self.simple_tags_.len();
        let mut i: usize = 0;
        while i < n
            invariant
                self.wf(),
                n == self.simple_tags_@.len(),
                i <= n,
                writer.inv(),
                writer.is_seekable() == old(writer).is_seekable(),
                extends(w0, *writer),
            decreases n - i,
        {
            let ghost wi = *writer;
            if !self.simple_tags_[i].Write(writer) {
                return false;
            }
            proof {
                lemma_extends_trans(w0, wi, *writer);
            }
            i = i + 1;
        }
        let stop = writer.get_position();
        if stop < start || stop - start != tag_size {
            return false;
        }
        true
    }
}

/// The collection of Tag elements a segment carries.
pub struct Tags {
    pub tags_: Vec<Tag>,
}

/// Byte count of the Tag elements from index `i` on, headers included.
pub open spec fn tags_size_from(tags: Seq<Tag>, i: int) -> int
    decreases tags.len() - i,
{
    if i < 0 || i >= tags.len() {
        0
    } else {
        simple_tags_size_from(tags[i].simple_tags_@, 0) + master_elem_size(ids::MkvTag as int)
            + tags_size_from(tags, i + 1)
    }
}

proof fn lemma_tags_size_nonneg(tags: Seq<Tag>, i: int)
    requires
        forall|k: int| 0 <= k < tags.len() ==> (#[trigger] tags[k]).wf(),
    ensures
        tags_size_from(tags, i) >= 0,
    decreases tags.len() - i,
{
    if 0 <= i < tags.len() {
        lemma_simple_tags_size_nonneg(tags[i].simple_tags_@, 0);
        lemma_tags_size_nonneg(tags, i + 1);
    }
}

impl Tags {
    /// Every held Tag is well formed and the whole payload fits the wire
    /// format's sizes.
    pub open spec fn wf(self) -> bool {
        &&& forall|k: int| 0 <= k < self.tags_@.len() ==> (#[trigger] self.tags_@[k]).wf()
        &&& tags_size_from(self.tags_@, 0) + 64 <= u64::MAX
    }

    pub fn new() -> (t: Tags)
        ensures
            t.tags_@.len() == 0,
    {
        Tags { tags_: Vec::new() }
    }

    pub fn add_tag(&mut self, tag: Tag)
        ensures
            final(self).tags_@ == old(self).tags_@.push(tag),
    {
        self.tags_.push(tag);
    }

    /// Exact byte count of the element's children: each Tag with its own
    /// header.
    pub fn PayloadSize(&self) -> (r: u64)
        requires
            self.wf(),
        ensures
            r == tags_size_from(self.tags_@, 0),
    {
        let mut payload_size: u64 = 0;
        let n = self.tags_.len();
        let mut i: usize = 0;
        while i < n
            invariant
                self.wf(),
                n == self.tags_@.len(),
                i <= n,
                payload_size + tags_size_from(self.tags_@, i as int) == tags_size_from(
                    self.tags_@,
                    0,
                ),
            decreases n - i,
        {
            proof {
                lemma_tags_size_nonneg(self.tags_@, i + 1);
                lemma_simple_tags_size_nonneg(self.tags_@[i as int].simple_tags_@, 0);
            }
            payload_size += self.tags_[i].PayloadSize();
            payload_size += EbmlMasterElementSize(ids::MkvTag, payload_size);
            i = i + 1;
        }
        payload_size
    }

    /// Write the element: its header, then exactly `PayloadSize()` bytes
    /// of Tag children, which the body checks before reporting success.
    pub fn Write<W: Writer>(&self, writer: &mut W) -> (r: bool)
        requires
            old(writer).inv(),
            self.wf(),
        ensures
            final(writer).inv(),
            final(writer).is_seekable() == old(writer).is_seekable(),
            r ==> extends(*old(writer), *final(writer)) && final(writer).pos() == old(writer).pos()
                + uint_width(ids::MkvTags as int) + coded_width(tags_size_from(self.tags_@, 0))
                + tags_size_from(self.tags_@, 0),
    {
        proof {
            writer.lemma_inv();
        }
        let payload_size = self.PayloadSize();

        let ghost w0 = *writer;
        if !WriteEbmlMasterElement(writer, ids::MkvTags, payload_size) {
            return false;
        }
        proof {
            lemma_master_header_bytes_len(ids::MkvTags as int, payload_size as int);
            lemma_write_extends(
                w0,
                *writer,
                master_header_bytes(ids::MkvTags as int, payload_size as int),
            );
        }
        let start = writer.get_position();

        let n = self.tags_.len();
        let mut i: usize = 0;
        while i < n
            invariant
                self.wf(),
                n == self.tags_@.len(),
                i <= n,
                writer.inv(),
                writer.is_seekable() == old(writer).is_seekable(),
                extends(w0, *writer),
            decreases n - i,
        {
            let ghost wi = *writer;
            if !self.tags_[i].Write(writer) {
                return false;
            }
            proof {
                lemma_extends_trans(w0, wi, *writer);
            }
            i = i + 1;
        }
        let stop = writer.get_position();
        if stop < start || stop - start != payload_size {
            return false;
        }
        true
    }
}

} // verus!
