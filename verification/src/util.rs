//! EBML codec primitives: byte widths of ids and variable-length size
//! fields, and writers for typed element payloads.
//!
//! Every writer's contract is stated against a spec-level serializer: the
//! exact byte sequence an element occupies on the wire. Size functions are
//! paired with writers so that a parent element can declare a child's byte
//! count before the child is written.

use vstd::arithmetic::div_mod::*;
use vstd::string::StringSliceAdditionalSpecFns;
use vstd::utf8::{is_ascii_chars, is_ascii_chars_encode_utf8};
use rand::Rng;
use vstd::prelude::*;

use crate::ids;
use crate::writer::{lemma_write_at_concat, write_at, Writer};

verus! {

/// EBML coded value meaning "size unknown", written as an 8-byte size field.
pub const EBML_UNKNOWN_VALUE: u64 = 0x01FFFFFFFFFFFFFF;

/// Largest relative block timecode the muxer accepts.
pub const MAX_BLOCK_TIMECODE: i64 = 0x07FFF;

/// Date elements are always 8 octets in size.
pub const DATE_ELEMENT_SIZE: u64 = 8;

pub const DOC_TYPE_WEBM: &'static str = "webm";
pub const DOC_TYPE_MATROSKA: &'static str = "matroska";

// ---------------------------------------------------------------------------
// Spec-level model of the wire format.
// ---------------------------------------------------------------------------

/// 256^k: the count of values a k-byte big-endian field can hold.
pub open spec fn pow256(k: int) -> int
    decreases k,
{
    if k <= 0 {
        1
    } else {
        256 * pow256(k - 1)
    }
}

/// 128^k: one more than the largest payload of a k-byte var-uint, counting
/// the marker bit.
pub open spec fn pow128(k: int) -> int
    decreases k,
{
    if k <= 0 {
        1
    } else {
        128 * pow128(k - 1)
    }
}

/// Minimal bytes to hold `v` in plain big-endian form.
pub open spec fn uint_width(v: int) -> int {
    if v < 0x100 {
        1
    } else if v < 0x10000 {
        2
    } else if v < 0x1000000 {
        3
    } else if v < 0x100000000 {
        4
    } else if v < 0x10000000000 {
        5
    } else if v < 0x1000000000000 {
        6
    } else if v < 0x100000000000000 {
        7
    } else {
        8
    }
}

/// Minimal bytes N with `v <= 128^N - 2`, the width of the var-uint coding
/// of `v`; saturates at 8 for values no 8-byte var-uint can hold.
pub open spec fn coded_width(v: int) -> int {
    if v < 0x7F {
        1
    } else if v < 0x3FFF {
        2
    } else if v < 0x1FFFFF {
        3
    } else if v < 0xFFFFFFF {
        4
    } else if v < 0x7FFFFFFFF {
        5
    } else if v < 0x3FFFFFFFFFF {
        6
    } else if v < 0x1FFFFFFFFFFFF {
        7
    } else {
        8
    }
}

/// Magnitude used for signed widths: distance to the sign's first
/// unrepresentable value, so that doubling it covers the sign bit.
pub open spec fn i64_mag(x: int) -> int {
    if x < 0 {
        -1 - x
    } else {
        x
    }
}

/// Minimal bytes to hold the signed value `x`, sign included.
pub open spec fn int_width(x: int) -> int {
    uint_width(2 * i64_mag(x))
}

/// The bit pattern of the signed value `x` as an unsigned 64-bit value.
pub open spec fn i64_bits(x: int) -> int {
    if x < 0 {
        x + 0x1_0000_0000_0000_0000
    } else {
        x
    }
}

/// The `n` low-order bytes of `v`, most significant first.
pub open spec fn be_bytes(v: int, n: int) -> Seq<u8>
    decreases n,
{
    if n <= 0 {
        Seq::<u8>::empty()
    } else {
        be_bytes(v / 256, n - 1).push((v % 256) as u8)
    }
}

/// The var-uint coding of `v` in `n` bytes: the length marker bit is laid
/// over the value, which then fills `n` big-endian bytes.
pub open spec fn vint_bytes(v: int, n: int) -> Seq<u8> {
    be_bytes(v + pow128(n), n)
}

/// The bytes of an element id, written in its plain big-endian width.
pub open spec fn id_bytes(t: int) -> Seq<u8> {
    be_bytes(t, uint_width(t))
}

/// Header of a master element: id followed by the var-uint size field.
pub open spec fn master_header_bytes(t: int, payload_size: int) -> Seq<u8> {
    id_bytes(t) + vint_bytes(payload_size, coded_width(payload_size))
}

/// A whole unsigned-integer element with a `w`-byte payload field.
pub open spec fn uint_elem_bytes(t: int, v: int, w: int) -> Seq<u8> {
    id_bytes(t) + vint_bytes(w, 1) + be_bytes(v, w)
}

/// A whole signed-integer element.
pub open spec fn int_elem_bytes(t: int, x: int) -> Seq<u8> {
    id_bytes(t) + vint_bytes(int_width(x), 1) + be_bytes(i64_bits(x), int_width(x))
}

/// A whole date element: always an 8-byte signed payload.
pub open spec fn date_elem_bytes(t: int, x: int) -> Seq<u8> {
    id_bytes(t) + vint_bytes(8, 1) + be_bytes(i64_bits(x), 8)
}

/// A whole string or binary element: the payload is kept verbatim.
pub open spec fn bin_elem_bytes(t: int, data: Seq<u8>) -> Seq<u8> {
    id_bytes(t) + vint_bytes(data.len() as int, coded_width(data.len() as int)) + data
}

/// Size in bytes of a master element's header as this library accounts for
/// it: the size-field term is derived from the element's own id.
pub open spec fn master_elem_size(t: int) -> int {
    uint_width(t) + coded_width(t)
}

/// Size in bytes of a whole unsigned-integer element, with an optional
/// fixed payload width.
pub open spec fn uint_elem_size(t: int, v: int, fixed: int) -> int {
    uint_width(t) + 1 + if fixed > 0 {
        fixed
    } else {
        uint_width(v)
    }
}

/// Size in bytes of a whole signed-integer element.
pub open spec fn int_elem_size(t: int, x: int) -> int {
    uint_width(t) + 1 + int_width(x)
}

/// Size in bytes of a whole date element.
pub open spec fn date_elem_size(t: int) -> int {
    uint_width(t) + 1 + 8
}

/// Size in bytes of a whole string or binary element.
pub open spec fn bin_elem_size(t: int, len: int) -> int {
    uint_width(t) + coded_width(len) + len
}

// ---------------------------------------------------------------------------
// Facts about the model.
// ---------------------------------------------------------------------------

pub proof fn lemma_pow256_pos(k: int)
    ensures
        pow256(k) >= 1,
    decreases k,
{
    if k > 0 {
        lemma_pow256_pos(k - 1);
    }
}

pub proof fn lemma_pow128_values()
    ensures
        pow128(0) == 1,
        pow128(1) == 0x80,
        pow128(2) == 0x4000,
        pow128(3) == 0x200000,
        pow128(4) == 0x10000000,
        pow128(5) == 0x800000000,
        pow128(6) == 0x40000000000,
        pow128(7) == 0x2000000000000,
        pow128(8) == 0x100000000000000,
{
    reveal_with_fuel(pow128, 9);
}

pub proof fn lemma_pow256_values()
    ensures
        pow256(0) == 1,
        pow256(1) == 0x100,
        pow256(2) == 0x10000,
        pow256(3) == 0x1000000,
        pow256(4) == 0x100000000,
        pow256(5) == 0x10000000000,
        pow256(6) == 0x1000000000000,
        pow256(7) == 0x100000000000000,
        pow256(8) == 0x10000000000000000,
{
    reveal_with_fuel(pow256, 9);
}

pub proof fn lemma_be_bytes_len(v: int, n: int)
    requires
        n >= 0,
    ensures
        be_bytes(v, n).len() == n,
    decreases n,
{
    if n > 0 {
        lemma_be_bytes_len(v / 256, n - 1);
    }
}

/// Byte `i` of the `n`-byte big-endian form of `v`.
pub proof fn lemma_be_bytes_index(v: int, n: int, i: int)
    requires
        0 <= v,
        0 <= i < n,
    ensures
        be_bytes(v, n).len() == n,
        be_bytes(v, n)[i] == ((v / pow256(n - 1 - i)) % 256) as u8,
    decreases n,
{
    lemma_be_bytes_len(v, n);
    if i == n - 1 {
        assert(pow256(0) == 1);
        assert(v / 1 == v) by {
            lemma_div_basics(v);
        }
    } else {
        lemma_be_bytes_index(v / 256, n - 1, i);
        assert(be_bytes(v, n)[i] == be_bytes(v / 256, n - 1)[i]);
        lemma_pow256_pos(n - 2 - i);
        lemma_div_denominator(v, 256, pow256(n - 2 - i));
        assert(256 * pow256(n - 2 - i) == pow256(n - 1 - i));
    }
}

/// Reading the bytes of a big-endian field back as a base-256 numeral.
pub open spec fn be_uint(s: Seq<u8>) -> int
    decreases s.len(),
{
    if s.len() == 0 {
        0
    } else {
        256 * be_uint(s.drop_last()) + s.last()
    }
}

/// Serializing then re-reading a value below the field's capacity is the
/// identity.
pub proof fn lemma_be_bytes_roundtrip(v: int, n: int)
    requires
        0 <= v < pow256(n),
        0 <= n,
    ensures
        be_uint(be_bytes(v, n)) == v,
    decreases n,
{
    if n == 0 {
        assert(pow256(0) == 1);
    } else {
        let rest = be_bytes(v / 256, n - 1);
        lemma_be_bytes_len(v / 256, n - 1);
        assert(be_bytes(v, n) == rest.push((v % 256) as u8));
        assert(be_bytes(v, n).drop_last() =~= rest);
        assert(be_bytes(v, n).last() == (v % 256) as u8);
        assert(0 <= v % 256 < 256) by {
            lemma_mod_division_less_than_divisor(v, 256);
        }
        assert(v / 256 < pow256(n - 1)) by {
            lemma_multiply_divide_lt(v, 256, pow256(n - 1));
        }
        assert(0 <= v / 256) by {
            lemma_div_pos_is_pos(v, 256);
        }
        lemma_be_bytes_roundtrip(v / 256, n - 1);
        assert(256 * (v / 256) + v % 256 == v) by {
            lemma_fundamental_div_mod(v, 256);
        }
    }
}

// ---------------------------------------------------------------------------
// Width computations.
// ---------------------------------------------------------------------------

/// The var-uint width of `value`; values above `128^8 - 2` fit no width
/// within 8 bytes, so no width comes back for them.
pub(crate) fn GetCodedUIntSize(value: u64) -> (r: Option<usize>)
    ensures
        r == if value <= 0xFFFFFFFFFFFFFE {
            Some(coded_width(value as int) as usize)
        } else {
            None::<usize>
        },
{
    if value < 0x000000000000007F {
        Some(1)
    } else if value < 0x0000000000003FFF {
        Some(2)
    } else if value < 0x00000000001FFFFF {
        Some(3)
    } else if value < 0x000000000FFFFFFF {
        Some(4)
    } else if value < 0x00000007FFFFFFFF {
        Some(5)
    } else if value < 0x000003FFFFFFFFFF {
        Some(6)
    } else if value < 0x0001FFFFFFFFFFFF {
        Some(7)
    } else if value <= 0xFFFFFFFFFFFFFE {
        Some(8)
    } else {
        None
    }
}

pub(crate) fn GetUIntSize(value: u64) -> (r: usize)
    ensures
        r == uint_width(value as int),
{
    if value < 0x0000000000000100 {
        1
    } else if value < 0x0000000000010000 {
        2
    } else if value < 0x0000000001000000 {
        3
    } else if value < 0x0000000100000000 {
        4
    } else if value < 0x0000010000000000 {
        5
    } else if value < 0x0001000000000000 {
        6
    } else if value < 0x0100000000000000 {
        7
    } else {
        8
    }
}

pub(crate) fn GetIntSize(value: i64) -> (r: usize)
    ensures
        r == int_width(value as int),
{
    // Doubling the magnitude covers the sign bit, so positive values whose
    // high bit is set keep a leading zero byte.
    let v: u64 = if value < 0 {
        (-(value + 1)) as u64
    } else {
        value as u64
    };
    GetUIntSize(2 * v)
}

/// The library's version stamp.
pub fn GetVersion(major: &mut i32, minor: &mut i32, build: &mut i32, revision: &mut i32)
    ensures
        *final(major) == 0,
        *final(minor) == 2,
        *final(build) == 1,
        *final(revision) == 0,
{
    *major = 0;
    *minor = 2;
    *build = 1;
    *revision = 0;
}

/// Relies on rand::thread_rng and rand::Rng::gen for a generator-chosen
/// track or chapter UID; nothing is promised of the value.
#[verifier::external_body]
pub fn MakeUID() -> u64 {
    let mut rng = rand::thread_rng();
    let uid: u64 = rng.gen();
    uid
}

// ---------------------------------------------------------------------------
// Serializers.
// ---------------------------------------------------------------------------

/// The `size` low-order bytes of `value`, most significant first.
fn be_encode(value: u64, size: usize) -> (r: Vec<u8>)
    requires
        1 <= size <= 8,
    ensures
        r@ == be_bytes(value as int, size as int),
{
    let mut out: Vec<u8> = Vec::new();
    let mut j: usize = 0;
    while j < size
        invariant
            j <= size,
            out@.len() == j,
        decreases size - j,
    {
        out.push(0);
        j = j + 1;
    }
    proof {
        lemma_be_bytes_len(value as int, size as int);
    }
    let mut v: u64 = value;
    let mut i: usize = size;
    while i > 0
        invariant
            i <= size <= 8,
            out@.len() == size,
            v as int == (value as int) / pow256((size - i) as int),
            forall|k: int| i <= k < size ==> out@[k] == be_bytes(value as int, size as int)[k],
        decreases i,
    {
        i = i - 1;
        out.set(i, (v % 256) as u8);
        proof {
            lemma_be_bytes_index(value as int, size as int, i as int);
            lemma_pow256_pos((size - 1 - i) as int);
            lemma_div_denominator(value as int, pow256((size - 1 - i) as int), 256);
            assert(256 * pow256((size - 1 - i) as int) == pow256((size - i) as int));
            assert((v as int) / 256 == (value as int) / pow256((size - i) as int));
        }
        v = v / 256;
    }
    assert(out@ =~= be_bytes(value as int, size as int));
    out
}

/// The two's-complement bit pattern of `value` as an unsigned value.
pub(crate) fn i64_to_bits(value: i64) -> (r: u64)
    ensures
        r as int == i64_bits(value as int),
{
    if value < 0 {
        u64::MAX - ((-(value + 1)) as u64)
    } else {
        value as u64
    }
}

/// Write `value` big-endian into exactly `size` bytes.
pub(crate) fn SerializeInt<W: Writer>(writer: &mut W, value: u64, size: usize) -> (ok: bool)
    requires
        old(writer).inv(),
    ensures
        final(writer).inv(),
        final(writer).is_seekable() == old(writer).is_seekable(),
        size < 1 || size > 8 ==> !ok && final(writer).out() == old(writer).out() && final(writer).pos() == old(writer).pos(),
        ok ==> 1 <= size <= 8 && final(writer).out() == write_at(
            old(writer).out(),
            old(writer).pos(),
            be_bytes(value as int, size as int),
        ) && final(writer).pos() == old(writer).pos() + size,
{
    if size < 1 || size > 8 {
        return false;
    }
    let buf = be_encode(value, size);
    proof {
        lemma_be_bytes_len(value as int, size as int);
    }
    let p = writer.get_position();
    if size as u64 > u64::MAX - p {
        return false;
    }
    writer.write(buf.as_slice())
}

/// The var-uint length marker for an `n`-byte field.
fn vint_marker(n: usize) -> (r: u64)
    requires
        1 <= n <= 8,
    ensures
        r as int == pow128(n as int),
        0x80 <= r <= 0x100000000000000,
{
    proof {
        lemma_pow128_values();
    }
    if n == 1 {
        0x80
    } else if n == 2 {
        0x4000
    } else if n == 3 {
        0x200000
    } else if n == 4 {
        0x10000000
    } else if n == 5 {
        0x800000000
    } else if n == 6 {
        0x40000000000
    } else if n == 7 {
        0x2000000000000
    } else {
        0x100000000000000
    }
}

/// Write `value` as a var-uint. A `size` of 0 picks the minimal width;
/// a positive `size` forces that width and fails if the value does not fit.
pub(crate) fn WriteUIntSize<W: Writer>(writer: &mut W, value: u64, size: usize) -> (ok: bool)
    requires
        old(writer).inv(),
    ensures
        final(writer).inv(),
        final(writer).is_seekable() == old(writer).is_seekable(),
        size > 8 ==> !ok && final(writer).out() == old(writer).out() && final(writer).pos() == old(writer).pos(),
        1 <= size <= 8 && value as int > pow128(size as int) - 2 ==> !ok && final(writer).out()
            == old(writer).out() && final(writer).pos() == old(writer).pos(),
        size == 0 && value as int > pow128(8) - 2 ==> !ok && final(writer).out() == old(writer).out() && final(writer).pos() == old(writer).pos(),
        ok ==> ({
            let n = if size > 0 {
                size as int
            } else {
                coded_width(value as int)
            };
            &&& 1 <= n <= 8
            &&& value as int <= pow128(n) - 2
            &&& final(writer).out() == write_at(
                old(writer).out(),
                old(writer).pos(),
                vint_bytes(value as int, n),
            )
            &&& final(writer).pos() == old(writer).pos() + n
        }),
{
    if size > 8 {
        return false;
    }
    proof {
        lemma_pow128_values();
    }
    let n: usize = if size > 0 {
        size
    } else {
        match GetCodedUIntSize(value) {
            Some(n) => n,
            None => {
                return false;
            },
        }
    };
    let marker: u64 = vint_marker(n);
    if value > marker - 2 {
        return false;
    }
    SerializeInt(writer, value + marker, n)
}

/// Write `value` as a var-uint in its minimal width; values above
/// `128^8 - 2` have no such coding and fail.
pub(crate) fn WriteUInt<W: Writer>(writer: &mut W, value: u64) -> (ok: bool)
    requires
        old(writer).inv(),
    ensures
        final(writer).inv(),
        final(writer).is_seekable() == old(writer).is_seekable(),
        value as int > pow128(8) - 2 ==> !ok && final(writer).out() == old(writer).out() && final(writer).pos() == old(writer).pos(),
        ok ==> value as int <= pow128(coded_width(value as int)) - 2 && final(writer).out()
            == write_at(
            old(writer).out(),
            old(writer).pos(),
            vint_bytes(value as int, coded_width(value as int)),
        ) && final(writer).pos() == old(writer).pos() + coded_width(value as int),
{
    WriteUIntSize(writer, value, 0)
}

/// The width of a var-uint, read off its first byte: one more than the
/// number of leading zero bits, or 9 when the byte is zero and no width
/// within 8 bytes fits.
pub open spec fn vint_len_of(b0: u8) -> int {
    if b0 >= 0x80 {
        1
    } else if b0 >= 0x40 {
        2
    } else if b0 >= 0x20 {
        3
    } else if b0 >= 0x10 {
        4
    } else if b0 >= 0x08 {
        5
    } else if b0 >= 0x04 {
        6
    } else if b0 >= 0x02 {
        7
    } else if b0 >= 0x01 {
        8
    } else {
        9
    }
}

/// The value a var-uint stands for: the marker bit named by the first
/// byte's width is cleared from the big-endian reading of that many bytes.
pub open spec fn vint_decode(s: Seq<u8>) -> int {
    be_uint(s.take(vint_len_of(s[0]))) - pow128(vint_len_of(s[0]))
}

proof fn lemma_vint_shape(v: int, n: int, p128: int, p256n1: int, p256: int, lo: int)
    requires
        1 <= n <= 8,
        p128 == pow128(n),
        p256n1 == pow256(n - 1),
        p256 == pow256(n),
        p128 == lo * p256n1,
        2 * p128 <= p256,
        p256n1 >= 1,
        lo >= 1,
        2 * lo <= 256,
        0 <= v <= p128 - 2,
    ensures
        be_bytes(v + p128, n).len() == n,
        be_uint(be_bytes(v + p128, n)) == v + p128,
        lo <= (be_bytes(v + p128, n)[0] as int) < 2 * lo,
{
    let u = v + p128;
    lemma_be_bytes_len(u, n);
    assert(u < p256);
    lemma_be_bytes_roundtrip(u, n);
    lemma_be_bytes_index(u, n, 0);
    let q = u / p256n1;
    assert(q >= lo) by {
        lemma_div_is_ordered(p128, u, p256n1);
        lemma_div_multiples_vanish(lo, p256n1);
        assert(p128 == p256n1 * lo) by (nonlinear_arith)
            requires
                p128 == lo * p256n1,
        ;
    }
    assert(p256n1 * (2 * lo) == 2 * p128) by (nonlinear_arith)
        requires
            p128 == lo * p256n1,
    ;
    assert(q < 2 * lo) by {
        lemma_multiply_divide_lt(u, p256n1, 2 * lo);
    }
    assert(q % 256 == q) by {
        lemma_small_mod(q as nat, 256);
    }
}

/// Round trip of the var-uint coding: the written bytes decode, under the
/// standard rule that the first byte's leading zeros name the width, to
/// the original value at the original width.
pub proof fn lemma_var_uint_round_trip(v: int, n: int)
    requires
        1 <= n <= 8,
        0 <= v <= pow128(n) - 2,
    ensures
        vint_bytes(v, n).len() == n,
        vint_len_of(vint_bytes(v, n)[0]) == n,
        vint_decode(vint_bytes(v, n)) == v,
{
    lemma_pow128_values();
    lemma_pow256_values();
    if n == 1 {
        lemma_vint_shape(v, n, 0x80, 1, 0x100, 0x80);
    } else if n == 2 {
        lemma_vint_shape(v, n, 0x4000, 0x100, 0x10000, 0x40);
    } else if n == 3 {
        lemma_vint_shape(v, n, 0x200000, 0x10000, 0x1000000, 0x20);
    } else if n == 4 {
        lemma_vint_shape(v, n, 0x10000000, 0x1000000, 0x100000000, 0x10);
    } else if n == 5 {
        lemma_vint_shape(v, n, 0x800000000, 0x100000000, 0x10000000000, 0x08);
    } else if n == 6 {
        lemma_vint_shape(v, n, 0x40000000000, 0x10000000000, 0x1000000000000, 0x04);
    } else if n == 7 {
        lemma_vint_shape(v, n, 0x2000000000000, 0x1000000000000, 0x100000000000000, 0x02);
    } else {
        lemma_vint_shape(v, n, 0x100000000000000, 0x100000000000000, 0x10000000000000000, 0x01);
    }
    assert(vint_bytes(v, n).take(n) =~= vint_bytes(v, n));
}

/// `pow128` grows with its argument.
pub proof fn lemma_pow128_mono(a: int, b: int)
    requires
        0 <= a <= b,
    ensures
        pow128(a) <= pow128(b),
    decreases b,
{
    if a < b {
        lemma_pow128_mono(a, b - 1);
        lemma_pow128_pos(b - 1);
    }
}

pub proof fn lemma_pow128_pos(k: int)
    ensures
        pow128(k) >= 1,
    decreases k,
{
    if k > 0 {
        lemma_pow128_pos(k - 1);
    }
}

/// `coded_width(v)` is the unique minimal width in 1..=8 whose var-uint
/// coding can hold `v`; values above `128^8 - 2` fit no width at all.
pub proof fn lemma_coded_width_minimal(v: int)
    requires
        0 <= v,
    ensures
        1 <= coded_width(v) <= 8,
        v <= pow128(8) - 2 ==> v <= pow128(coded_width(v)) - 2,
        forall|m: int| 1 <= m < coded_width(v) ==> v > pow128(m) - 2,
        v > pow128(8) - 2 ==> forall|m: int| 1 <= m <= 8 ==> v > pow128(m) - 2,
{
    lemma_pow128_values();
    let n = coded_width(v);
    assert forall|m: int| 1 <= m < n implies v > pow128(m) - 2 by {
        lemma_pow128_mono(m, n - 1);
    }
    if v > pow128(8) - 2 {
        assert forall|m: int| 1 <= m <= 8 implies v > pow128(m) - 2 by {
            lemma_pow128_mono(m, 8);
        }
    }
}

/// Write an element id in its plain big-endian width, announcing the
/// element's start to the sink.
pub(crate) fn WriteID<W: Writer>(writer: &mut W, t: u64) -> (ok: bool)
    requires
        old(writer).inv(),
    ensures
        final(writer).inv(),
        final(writer).is_seekable() == old(writer).is_seekable(),
        ok ==> final(writer).out() == write_at(
            old(writer).out(),
            old(writer).pos(),
            id_bytes(t as int),
        ) && final(writer).pos() == old(writer).pos() + uint_width(t as int),
{
    let p = writer.get_position();
    writer.element_start_notify(t, p);
    let size = GetUIntSize(t);
    SerializeInt(writer, t, size)
}

// ---------------------------------------------------------------------------
// Lengths of the spec-level serializers.
// ---------------------------------------------------------------------------

pub proof fn lemma_vint_bytes_len(v: int, n: int)
    requires
        n >= 0,
    ensures
        vint_bytes(v, n).len() == n,
{
    lemma_be_bytes_len(v + pow128(n), n);
}

pub proof fn lemma_master_header_bytes_len(t: int, payload_size: int)
    ensures
        master_header_bytes(t, payload_size).len() == uint_width(t) + coded_width(payload_size),
{
    lemma_be_bytes_len(t, uint_width(t));
    lemma_be_bytes_len(payload_size + pow128(coded_width(payload_size)), coded_width(payload_size));
}

pub proof fn lemma_uint_elem_bytes_len(t: int, v: int, w: int)
    requires
        0 <= w,
    ensures
        uint_elem_bytes(t, v, w).len() == uint_width(t) + 1 + w,
{
    lemma_be_bytes_len(t, uint_width(t));
    lemma_be_bytes_len(w + pow128(1), 1);
    lemma_be_bytes_len(v, w);
}

pub proof fn lemma_int_elem_bytes_len(t: int, x: int)
    ensures
        int_elem_bytes(t, x).len() == int_elem_size(t, x),
{
    lemma_be_bytes_len(t, uint_width(t));
    lemma_be_bytes_len(int_width(x) + pow128(1), 1);
    lemma_be_bytes_len(i64_bits(x), int_width(x));
}

pub proof fn lemma_date_elem_bytes_len(t: int, x: int)
    ensures
        date_elem_bytes(t, x).len() == date_elem_size(t),
{
    lemma_be_bytes_len(t, uint_width(t));
    lemma_be_bytes_len(8 + pow128(1), 1);
    lemma_be_bytes_len(i64_bits(x), 8);
}

pub proof fn lemma_bin_elem_bytes_len(t: int, data: Seq<u8>)
    ensures
        bin_elem_bytes(t, data).len() == bin_elem_size(t, data.len() as int),
{
    lemma_be_bytes_len(t, uint_width(t));
    lemma_be_bytes_len(
        data.len() + pow128(coded_width(data.len() as int)),
        coded_width(data.len() as int),
    );
}

// ---------------------------------------------------------------------------
// Element size functions and writers.
// ---------------------------------------------------------------------------

/// Size of a master element's id-plus-size-field header alone, excluding
/// its payload, as accounted for throughout this library.
pub fn EbmlMasterElementSize(t: u64, _value: u64) -> (r: u64)
    ensures
        r == master_elem_size(t as int),
{
    // Size of EBML ID
    let mut ebml_size: u64 = GetUIntSize(t) as u64;
    // Datasize: the account saturates at the widest size field where no
    // width holds the id's own value.
    ebml_size += match GetCodedUIntSize(t) {
        Some(c) => c as u64,
        None => 8,
    };
    ebml_size
}

/// Write a master element's header: its id and the var-uint size field
/// declaring `size` payload bytes to follow.
pub fn WriteEbmlMasterElement<W: Writer>(writer: &mut W, t: u64, size: u64) -> (r: bool)
    requires
        old(writer).inv(),
    ensures
        final(writer).inv(),
        final(writer).is_seekable() == old(writer).is_seekable(),
        size as int > pow128(8) - 2 ==> !r,
        r ==> final(writer).out() == write_at(
            old(writer).out(),
            old(writer).pos(),
            master_header_bytes(t as int, size as int),
        ) && final(writer).pos() == old(writer).pos() + uint_width(t as int) + coded_width(
            size as int,
        ),
{
    let ghost out0 = old(writer).out();
    let ghost p0 = old(writer).pos();
    proof {
        writer.lemma_inv();
    }
    if !WriteID(writer, t) {
        return false;
    }
    if !WriteUInt(writer, size) {
        return false;
    }
    proof {
        lemma_be_bytes_len(t as int, uint_width(t as int));
        lemma_write_at_concat(
            out0,
            p0,
            id_bytes(t as int),
            vint_bytes(size as int, coded_width(size as int)),
        );
    }
    true
}

/// Size of a whole date element.
pub fn EbmlDateElementSize(t: u64) -> (r: u64)
    ensures
        r == date_elem_size(t as int),
{
    // Size of EBML ID
    let mut ebml_size: u64 = GetUIntSize(t) as u64;
    // Datasize
    ebml_size += DATE_ELEMENT_SIZE;
    // Size of Datasize
    ebml_size += 1;
    ebml_size
}

/// Write a date element: a signed timestamp in a fixed 8-byte payload.
pub fn WriteEbmlDateElement<W: Writer>(writer: &mut W, t: u64, value: i64) -> (r: bool)
    requires
        old(writer).inv(),
    ensures
        final(writer).inv(),
        final(writer).is_seekable() == old(writer).is_seekable(),
        r ==> final(writer).out() == write_at(
            old(writer).out(),
            old(writer).pos(),
            date_elem_bytes(t as int, value as int),
        ) && final(writer).pos() == old(writer).pos() + date_elem_size(t as int),
{
    let ghost out0 = old(writer).out();
    let ghost p0 = old(writer).pos();
    proof {
        writer.lemma_inv();
    }
    if !WriteID(writer, t) {
        return false;
    }
    if !WriteUInt(writer, DATE_ELEMENT_SIZE) {
        return false;
    }
    proof {
        lemma_be_bytes_len(t as int, uint_width(t as int));
        lemma_write_at_concat(out0, p0, id_bytes(t as int), vint_bytes(8, 1));
        lemma_be_bytes_len(8 + pow128(1), 1);
    }
    if !SerializeInt(writer, i64_to_bits(value), 8) {
        return false;
    }
    proof {
        lemma_write_at_concat(
            out0,
            p0,
            id_bytes(t as int) + vint_bytes(8, 1),
            be_bytes(i64_bits(value as int), 8),
        );
    }
    true
}

/// Size of a whole signed-integer element.
pub fn EbmlElementSizeArgI64(t: u64, value: i64) -> (r: u64)
    ensures
        r == int_elem_size(t as int, value as int),
{
    // Size of EBML ID
    let mut ebml_size: u64 = GetUIntSize(t) as u64;
    // Datasize
    ebml_size += GetIntSize(value) as u64;
    // Size of Datasize
    ebml_size += 1;
    ebml_size
}

/// Write a signed-integer element in its minimal payload width.
pub fn WriteEbmlElementArgI64<W: Writer>(writer: &mut W, t: u64, value: i64) -> (r: bool)
    requires
        old(writer).inv(),
    ensures
        final(writer).inv(),
        final(writer).is_seekable() == old(writer).is_seekable(),
        r ==> final(writer).out() == write_at(
            old(writer).out(),
            old(writer).pos(),
            int_elem_bytes(t as int, value as int),
        ) && final(writer).pos() == old(writer).pos() + int_elem_size(t as int, value as int),
{
    let ghost out0 = old(writer).out();
    let ghost p0 = old(writer).pos();
    proof {
        writer.lemma_inv();
    }
    if !WriteID(writer, t) {
        return false;
    }
    let size = GetIntSize(value);
    if !WriteUInt(writer, size as u64) {
        return false;
    }
    proof {
        lemma_be_bytes_len(t as int, uint_width(t as int));
        lemma_write_at_concat(
            out0,
            p0,
            id_bytes(t as int),
            vint_bytes(int_width(value as int), 1),
        );
        lemma_be_bytes_len(int_width(value as int) + pow128(1), 1);
    }
    if !SerializeInt(writer, i64_to_bits(value), size) {
        return false;
    }
    proof {
        lemma_write_at_concat(
            out0,
            p0,
            id_bytes(t as int) + vint_bytes(int_width(value as int), 1),
            be_bytes(i64_bits(value as int), int_width(value as int)),
        );
    }
    true
}

/// Size of a whole unsigned-integer element in its minimal payload width.
pub fn EbmlElementSizeArgU64(t: u64, value: u64) -> (r: u64)
    ensures
        r == uint_elem_size(t as int, value as int, 0),
{
    EbmlElementSizeArgsU64(t, value, 0)
}

/// Write an unsigned-integer element in its minimal payload width.
pub fn WriteEbmlElementArgU64<W: Writer>(writer: &mut W, t: u64, value: u64) -> (r: bool)
    requires
        old(writer).inv(),
    ensures
        final(writer).inv(),
        final(writer).is_seekable() == old(writer).is_seekable(),
        r ==> final(writer).out() == write_at(
            old(writer).out(),
            old(writer).pos(),
            uint_elem_bytes(t as int, value as int, uint_width(value as int)),
        ) && final(writer).pos() == old(writer).pos() + uint_elem_size(t as int, value as int, 0),
{
    WriteEbmlElementArgsU64(writer, t, value, 0)
}

/// Size of a whole unsigned-integer element; a positive `fixed_size`
/// forces that payload width.
pub fn EbmlElementSizeArgsU64(t: u64, value: u64, fixed_size: u64) -> (r: u64)
    requires
        uint_elem_size(t as int, value as int, fixed_size as int) <= u64::MAX,
    ensures
        r == uint_elem_size(t as int, value as int, fixed_size as int),
{
    // Size of EBML ID
    let mut ebml_size: u64 = GetUIntSize(t) as u64;
    // Datasize
    ebml_size += if fixed_size > 0 {
        fixed_size
    } else {
        GetUIntSize(value) as u64
    };
    // Size of Datasize
    ebml_size += 1;
    ebml_size
}

/// Write an unsigned-integer element; a positive `fixed_size` forces that
/// payload width and fails if the value's width exceeds it.
pub fn WriteEbmlElementArgsU64<W: Writer>(writer: &mut W, t: u64, value: u64, fixed_size: u64) -> (r:
    bool)
    requires
        old(writer).inv(),
    ensures
        final(writer).inv(),
        final(writer).is_seekable() == old(writer).is_seekable(),
        fixed_size > 0 && uint_width(value as int) > fixed_size ==> !r,
        fixed_size > 8 ==> !r,
        r ==> ({
            let w = if fixed_size > 0 {
                fixed_size as int
            } else {
                uint_width(value as int)
            };
            &&& w <= 8
            &&& final(writer).out() == write_at(
                old(writer).out(),
                old(writer).pos(),
                uint_elem_bytes(t as int, value as int, w),
            )
            &&& final(writer).pos() == old(writer).pos() + uint_elem_size(
                t as int,
                value as int,
                fixed_size as int,
            )
        }),
{
    let ghost out0 = old(writer).out();
    let ghost p0 = old(writer).pos();
    proof {
        writer.lemma_inv();
    }
    if !WriteID(writer, t) {
        return false;
    }
    let mut size: u64 = GetUIntSize(value) as u64;
    if fixed_size > 0 {
        if size > fixed_size {
            return false;
        }
        size = fixed_size;
    }
    if size > 8 {
        return false;
    }
    if !WriteUInt(writer, size) {
        return false;
    }
    proof {
        lemma_be_bytes_len(t as int, uint_width(t as int));
        lemma_write_at_concat(out0, p0, id_bytes(t as int), vint_bytes(size as int, 1));
        lemma_be_bytes_len(size as int + pow128(1), 1);
    }
    if !SerializeInt(writer, value, size as usize) {
        return false;
    }
    proof {
        lemma_write_at_concat(
            out0,
            p0,
            id_bytes(t as int) + vint_bytes(size as int, 1),
            be_bytes(value as int, size as int),
        );
    }
    true
}

/// Size of a whole string element: the payload is the string's bytes.
pub fn EbmlElementSizeArgStr(t: u64, value: &str) -> (r: u64)
    requires
        value.spec_bytes().len() <= usize::MAX,
        bin_elem_size(t as int, value.spec_bytes().len() as int) <= u64::MAX,
    ensures
        r == bin_elem_size(t as int, value.spec_bytes().len() as int),
{
    // Size of EBML ID
    let mut ebml_size: u64 = GetUIntSize(t) as u64;
    // Datasize
    ebml_size += value.len() as u64;
    // Size of Datasize; the account saturates at the widest size field.
    ebml_size += match GetCodedUIntSize(value.len() as u64) {
        Some(c) => c as u64,
        None => 8,
    };
    ebml_size
}

/// Write a string element: id, var-uint byte length, then the bytes.
pub fn WriteEbmlElementArgStr<W: Writer>(writer: &mut W, t: u64, value: &str) -> (r: bool)
    requires
        old(writer).inv(),
        value.spec_bytes().len() <= usize::MAX,
    ensures
        final(writer).inv(),
        final(writer).is_seekable() == old(writer).is_seekable(),
        r ==> final(writer).out() == write_at(
            old(writer).out(),
            old(writer).pos(),
            bin_elem_bytes(t as int, value.spec_bytes()),
        ) && final(writer).pos() == old(writer).pos() + bin_elem_size(
            t as int,
            value.spec_bytes().len() as int,
        ),
{
    let ghost out0 = old(writer).out();
    let ghost p0 = old(writer).pos();
    proof {
        writer.lemma_inv();
    }
    if !WriteID(writer, t) {
        return false;
    }
    let length = value.len() as u64;
    if !WriteUInt(writer, length) {
        return false;
    }
    proof {
        lemma_be_bytes_len(t as int, uint_width(t as int));
        lemma_write_at_concat(
            out0,
            p0,
            id_bytes(t as int),
            vint_bytes(length as int, coded_width(length as int)),
        );
        lemma_be_bytes_len(length as int + pow128(coded_width(length as int)), coded_width(
            length as int,
        ));
    }
    let bytes = value.as_bytes();
    let p = writer.get_position();
    if bytes.len() as u64 > u64::MAX - p {
        return false;
    }
    if !writer.write(bytes) {
        return false;
    }
    proof {
        lemma_write_at_concat(
            out0,
            p0,
            id_bytes(t as int) + vint_bytes(length as int, coded_width(length as int)),
            value.spec_bytes(),
        );
    }
    true
}

/// Size of a whole binary element: the payload is kept verbatim.
pub fn EbmlElementSizeArgSlice(t: u64, value: &[u8]) -> (r: u64)
    requires
        bin_elem_size(t as int, value@.len() as int) <= u64::MAX,
    ensures
        r == bin_elem_size(t as int, value@.len() as int),
{
    let size = value.len() as u64;
    // Size of EBML ID
    let mut ebml_size: u64 = GetUIntSize(t) as u64;
    // Datasize
    ebml_size += size;
    // Size of Datasize; the account saturates at the widest size field.
    ebml_size += match GetCodedUIntSize(size) {
        Some(c) => c as u64,
        None => 8,
    };
    ebml_size
}

/// Write a binary element: id, var-uint byte length, then the bytes.
pub fn WriteEbmlElementArgSlice<W: Writer>(writer: &mut W, t: u64, value: &[u8]) -> (r: bool)
    requires
        old(writer).inv(),
    ensures
        final(writer).inv(),
        final(writer).is_seekable() == old(writer).is_seekable(),
        r ==> final(writer).out() == write_at(
            old(writer).out(),
            old(writer).pos(),
            bin_elem_bytes(t as int, value@),
        ) && final(writer).pos() == old(writer).pos() + bin_elem_size(
            t as int,
            value@.len() as int,
        ),
{
    let ghost out0 = old(writer).out();
    let ghost p0 = old(writer).pos();
    proof {
        writer.lemma_inv();
    }
    if !WriteID(writer, t) {
        return false;
    }
    let length = value.len() as u64;
    if !WriteUInt(writer, length) {
        return false;
    }
    proof {
        lemma_be_bytes_len(t as int, uint_width(t as int));
        lemma_write_at_concat(
            out0,
            p0,
            id_bytes(t as int),
            vint_bytes(length as int, coded_width(length as int)),
        );
        lemma_be_bytes_len(length as int + pow128(coded_width(length as int)), coded_width(
            length as int,
        ));
    }
    let p = writer.get_position();
    if value.len() as u64 > u64::MAX - p {
        return false;
    }
    if !writer.write(value) {
        return false;
    }
    proof {
        lemma_write_at_concat(
            out0,
            p0,
            id_bytes(t as int) + vint_bytes(length as int, coded_width(length as int)),
            value@,
        );
    }
    true
}


// ---------------------------------------------------------------------------
// Void padding and the EBML document header.
// ---------------------------------------------------------------------------

/// Payload byte count of a void element that spans `total` bytes in all:
/// what remains of `total` after the 1-byte id and the size field.
pub open spec fn void_inner_size(total: int) -> int {
    total - 1 - coded_width(total - 1)
}

/// `n` zero bytes.
pub open spec fn zero_bytes(n: int) -> Seq<u8> {
    Seq::new(n as nat, |i: int| 0u8)
}

/// A whole void element spanning `total` bytes.
pub open spec fn void_bytes(total: int) -> Seq<u8> {
    id_bytes(ids::MkvVoid as int) + vint_bytes(
        void_inner_size(total),
        coded_width(void_inner_size(total)),
    ) + zero_bytes(void_inner_size(total))
}

/// Write a void element that spans exactly `size` bytes, padding a
/// reserved region. Returns the bytes written, or 0 when no exact fit
/// exists for `size` or the sink fails.
pub fn WriteVoidElement<W: Writer>(writer: &mut W, size: u64) -> (r: u64)
    requires
        old(writer).inv(),
    ensures
        final(writer).inv(),
        final(writer).is_seekable() == old(writer).is_seekable(),
        size < 2 ==> r == 0,
        size >= 2 && 1 + coded_width(void_inner_size(size as int)) + void_inner_size(size as int)
            != size ==> r == 0,
        r != 0 ==> r == size && 1 + coded_width(void_inner_size(size as int)) + void_inner_size(
            size as int,
        ) == size && final(writer).out() == write_at(
            old(writer).out(),
            old(writer).pos(),
            void_bytes(size as int),
        ) && final(writer).pos() == old(writer).pos() + size,
{
    let ghost out0 = old(writer).out();
    let ghost p0 = old(writer).pos();
    proof {
        writer.lemma_inv();
    }
    if size < 2 {
        return 0;
    }
    // Subtract one for the void ID, then the coded size's own bytes.
    let c = match GetCodedUIntSize(size - 1) {
        Some(c) => c,
        None => {
            return 0;
        },
    };
    if size < 1 + c as u64 {
        return 0;
    }
    let void_entry_size: u64 = size - 1 - c as u64;
    let c2 = match GetCodedUIntSize(void_entry_size) {
        Some(c) => c,
        None => {
            return 0;
        },
    };
    if 1 + c2 as u64 + void_entry_size != size {
        return 0;
    }
    if void_entry_size > usize::MAX as u64 {
        return 0;
    }
    let payload_position = writer.get_position();
    if !WriteID(writer, ids::MkvVoid) {
        return 0;
    }
    if !WriteUInt(writer, void_entry_size) {
        return 0;
    }
    proof {
        lemma_be_bytes_len(ids::MkvVoid as int, 1);
        lemma_write_at_concat(
            out0,
            p0,
            id_bytes(ids::MkvVoid as int),
            vint_bytes(void_entry_size as int, coded_width(void_entry_size as int)),
        );
        lemma_be_bytes_len(
            void_entry_size as int + pow128(coded_width(void_entry_size as int)),
            coded_width(void_entry_size as int),
        );
    }
    let n: usize = void_entry_size as usize;
    let mut value: Vec<u8> = Vec::new();
    let mut j: usize = 0;
    while j < n
        invariant
            j <= n,
            value@ == zero_bytes(j as int),
        decreases n - j,
    {
        value.push(0);
        proof {
            assert(value@ =~= zero_bytes(j + 1));
        }
        j = j + 1;
    }
    let p = writer.get_position();
    if n as u64 > u64::MAX - p {
        return 0;
    }
    if !writer.write(value.as_slice()) {
        return 0;
    }
    proof {
        lemma_write_at_concat(
            out0,
            p0,
            id_bytes(ids::MkvVoid as int) + vint_bytes(
                void_entry_size as int,
                coded_width(void_entry_size as int),
            ),
            zero_bytes(void_entry_size as int),
        );
    }
    let stop_position = writer.get_position();
    if stop_position - payload_position != size {
        return 0;
    }
    size
}

/// Payload byte count of the EBML document header for a doc type of
/// `len` bytes.
pub open spec fn ebml_header_payload_size(doc_type_version: int, len: int) -> int {
    uint_elem_size(ids::MkvEBMLVersion as int, 1, 0) + uint_elem_size(
        ids::MkvEBMLReadVersion as int,
        1,
        0,
    ) + uint_elem_size(ids::MkvEBMLMaxIDLength as int, 4, 0) + uint_elem_size(
        ids::MkvEBMLMaxSizeLength as int,
        8,
        0,
    ) + bin_elem_size(ids::MkvDocType as int, len) + uint_elem_size(
        ids::MkvDocTypeVersion as int,
        doc_type_version,
        0,
    ) + uint_elem_size(ids::MkvDocTypeReadVersion as int, 2, 0)
}

/// The whole EBML document header.
pub open spec fn ebml_header_bytes(doc_type_version: int, doc: Seq<u8>) -> Seq<u8> {
    master_header_bytes(
        ids::MkvEBML as int,
        ebml_header_payload_size(doc_type_version, doc.len() as int),
    ) + uint_elem_bytes(ids::MkvEBMLVersion as int, 1, 1) + uint_elem_bytes(
        ids::MkvEBMLReadVersion as int,
        1,
        1,
    ) + uint_elem_bytes(ids::MkvEBMLMaxIDLength as int, 4, 1) + uint_elem_bytes(
        ids::MkvEBMLMaxSizeLength as int,
        8,
        1,
    ) + bin_elem_bytes(ids::MkvDocType as int, doc) + uint_elem_bytes(
        ids::MkvDocTypeVersion as int,
        doc_type_version,
        uint_width(doc_type_version),
    ) + uint_elem_bytes(ids::MkvDocTypeReadVersion as int, 2, 1)
}

/// The declared payload of the EBML document header.
fn EbmlHeaderPayloadSize(doc_type_version: u64, doc_type: &str) -> (r: u64)
    requires
        doc_type.spec_bytes().len() <= usize::MAX,
        ebml_header_payload_size(doc_type_version as int, doc_type.spec_bytes().len() as int)
            <= u64::MAX,
    ensures
        r == ebml_header_payload_size(
            doc_type_version as int,
            doc_type.spec_bytes().len() as int,
        ),
{
    let mut size: u64 = EbmlElementSizeArgU64(ids::MkvEBMLVersion, 1);
    size += EbmlElementSizeArgU64(ids::MkvEBMLReadVersion, 1);
    size += EbmlElementSizeArgU64(ids::MkvEBMLMaxIDLength, 4);
    size += EbmlElementSizeArgU64(ids::MkvEBMLMaxSizeLength, 8);
    size += EbmlElementSizeArgStr(ids::MkvDocType, doc_type);
    size += EbmlElementSizeArgU64(ids::MkvDocTypeVersion, doc_type_version);
    size += EbmlElementSizeArgU64(ids::MkvDocTypeReadVersion, 2);
    size
}

/// Write the EBML document header that opens a container stream.
#[verifier::rlimit(100)]
pub fn WriteEbmlHeader<W: Writer>(writer: &mut W, doc_type_version: u64, doc_type: &str) -> (r:
    bool)
    requires
        old(writer).inv(),
        doc_type.spec_bytes().len() <= usize::MAX,
        ebml_header_payload_size(doc_type_version as int, doc_type.spec_bytes().len() as int)
            <= u64::MAX,
    ensures
        final(writer).inv(),
        final(writer).is_seekable() == old(writer).is_seekable(),
        r ==> final(writer).out() == write_at(
            old(writer).out(),
            old(writer).pos(),
            ebml_header_bytes(doc_type_version as int, doc_type.spec_bytes()),
        ) && final(writer).pos() == old(writer).pos() + ebml_header_bytes(
            doc_type_version as int,
            doc_type.spec_bytes(),
        ).len(),
{
    let ghost out0 = old(writer).out();
    let ghost p0 = old(writer).pos();
    let ghost dtv = doc_type_version as int;
    let ghost doc = doc_type.spec_bytes();
    proof {
        writer.lemma_inv();
    }
    // Level 0
    let size: u64 = EbmlHeaderPayloadSize(doc_type_version, doc_type);

    if !WriteEbmlMasterElement(writer, ids::MkvEBML, size) {
        return false;
    }
    let ghost acc0 = master_header_bytes(ids::MkvEBML as int, size as int);
    proof {
        lemma_master_header_bytes_len(ids::MkvEBML as int, size as int);
    }
    if !WriteEbmlElementArgU64(writer, ids::MkvEBMLVersion, 1) {
        return false;
    }
    let ghost acc1 = acc0 + uint_elem_bytes(ids::MkvEBMLVersion as int, 1, 1);
    proof {
        lemma_write_at_concat(out0, p0, acc0, uint_elem_bytes(ids::MkvEBMLVersion as int, 1, 1));
        lemma_uint_elem_bytes_len(ids::MkvEBMLVersion as int, 1, 1);
    }
    if !WriteEbmlElementArgU64(writer, ids::MkvEBMLReadVersion, 1) {
        return false;
    }
    let ghost acc2 = acc1 + uint_elem_bytes(ids::MkvEBMLReadVersion as int, 1, 1);
    proof {
        lemma_write_at_concat(out0, p0, acc1, uint_elem_bytes(ids::MkvEBMLReadVersion as int, 1, 1));
        lemma_uint_elem_bytes_len(ids::MkvEBMLReadVersion as int, 1, 1);
    }
    if !WriteEbmlElementArgU64(writer, ids::MkvEBMLMaxIDLength, 4) {
        return false;
    }
    let ghost acc3 = acc2 + uint_elem_bytes(ids::MkvEBMLMaxIDLength as int, 4, 1);
    proof {
        lemma_write_at_concat(out0, p0, acc2, uint_elem_bytes(ids::MkvEBMLMaxIDLength as int, 4, 1));
        lemma_uint_elem_bytes_len(ids::MkvEBMLMaxIDLength as int, 4, 1);
    }
    if !WriteEbmlElementArgU64(writer, ids::MkvEBMLMaxSizeLength, 8) {
        return false;
    }
    let ghost acc4 = acc3 + uint_elem_bytes(ids::MkvEBMLMaxSizeLength as int, 8, 1);
    proof {
        lemma_write_at_concat(
            out0,
            p0,
            acc3,
            uint_elem_bytes(ids::MkvEBMLMaxSizeLength as int, 8, 1),
        );
        lemma_uint_elem_bytes_len(ids::MkvEBMLMaxSizeLength as int, 8, 1);
    }
    if !WriteEbmlElementArgStr(writer, ids::MkvDocType, doc_type) {
        return false;
    }
    let ghost acc5 = acc4 + bin_elem_bytes(ids::MkvDocType as int, doc);
    proof {
        lemma_write_at_concat(out0, p0, acc4, bin_elem_bytes(ids::MkvDocType as int, doc));
        lemma_bin_elem_bytes_len(ids::MkvDocType as int, doc);
    }
    if !WriteEbmlElementArgU64(writer, ids::MkvDocTypeVersion, doc_type_version) {
        return false;
    }
    let ghost acc6 = acc5 + uint_elem_bytes(ids::MkvDocTypeVersion as int, dtv, uint_width(dtv));
    proof {
        lemma_write_at_concat(
            out0,
            p0,
            acc5,
            uint_elem_bytes(ids::MkvDocTypeVersion as int, dtv, uint_width(dtv)),
        );
        lemma_uint_elem_bytes_len(ids::MkvDocTypeVersion as int, dtv, uint_width(dtv));
    }
    if !WriteEbmlElementArgU64(writer, ids::MkvDocTypeReadVersion, 2) {
        return false;
    }
    proof {
        lemma_write_at_concat(
            out0,
            p0,
            acc6,
            uint_elem_bytes(ids::MkvDocTypeReadVersion as int, 2, 1),
        );
        lemma_uint_elem_bytes_len(ids::MkvDocTypeReadVersion as int, 2, 1);
    }
    true
}

/// Write the EBML document header for the WebM doc type.
pub fn WriteEbmlHeader2<W: Writer>(writer: &mut W, doc_type_version: u64) -> (r: bool)
    requires
        old(writer).inv(),
    ensures
        final(writer).inv(),
        final(writer).is_seekable() == old(writer).is_seekable(),
        r ==> final(writer).out() == write_at(
            old(writer).out(),
            old(writer).pos(),
            ebml_header_bytes(doc_type_version as int, DOC_TYPE_WEBM.spec_bytes()),
        ) && final(writer).pos() == old(writer).pos() + ebml_header_bytes(
            doc_type_version as int,
            DOC_TYPE_WEBM.spec_bytes(),
        ).len(),
{
    proof {
        reveal_strlit("webm");
        assert(is_ascii_chars(DOC_TYPE_WEBM@));
        is_ascii_chars_encode_utf8(DOC_TYPE_WEBM@);
    }
    WriteEbmlHeader(writer, doc_type_version, DOC_TYPE_WEBM)
}

} // verus!
