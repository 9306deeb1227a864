//! What the readers give back of what the writer wrote.
use vstd::prelude::*;
use crate::binary::le::{le16, le32, le64, from_le16, from_le32, from_le64, u16_from_le, u32_from_le, u64_from_le, u16_to_le, u32_to_le, u64_to_le, lemma_le16_roundtrip, lemma_le32_roundtrip, lemma_le64_roundtrip};
use vstd::utf8::*;
use crate::binary::cursor::{Cursor, take, read_u8, read_i16, read_i32, length_rest, read_length, string_bytes,
    read_string_lenient, read_string_strict, read_u16, read_u32, read_u64};
use crate::binary::writer::{length_bytes, string_enc, text_enc, texts_enc};
use crate::binary::types::TextModel;
use crate::binary::reader::{text_at, texts_at};

verus! {

proof fn bv_bit_set(n: u64, shift: u64)
    requires
        shift < 64,
    ensures
        ((n & (((1u64 << shift) - 1) as u64)) | (1u64 << shift)) & (1u64 << shift) != 0,
{
    assert(shift < 64 ==> ((n & (((1u64 << shift) - 1) as u64)) | (1u64 << shift)) & (1u64 << shift) != 0)
        by (bit_vector);
}

proof fn bv_last_group(n: u64, shift: u64)
    requires
        shift <= 56,
        n >> shift < 128,
    ensures
        ((((n & (((1u64 << shift) - 1) as u64)) | (1u64 << shift)) & !(1u64 << shift)) | ((((n >> shift) as u8)
            as u64) << shift)) == n,
        n & (1u64 << ((shift + 7) as u64)) == 0,
{
    assert(shift <= 56 && n >> shift < 128 ==> ((((n & (((1u64 << shift) - 1) as u64)) | (1u64 << shift))
        & !(1u64 << shift)) | ((((n >> shift) as u8) as u64) << shift)) == n) by (bit_vector);
    assert(shift <= 56 && n >> shift < 128 ==> n & (1u64 << ((shift + 7) as u64)) == 0)
        by (bit_vector);
}

proof fn bv_more_groups(n: u64, shift: u64)
    requires
        shift <= 56,
        n >> shift >= 128,
        n < 0x8000_0000_0000_0000,
    ensures
        ((((n & (((1u64 << shift) - 1) as u64)) | (1u64 << shift)) & !(1u64 << shift)) | (((((n >> shift)
            & 127) | 128) as u8 as u64) << shift)) == (n & (((1u64 << ((shift + 7) as u64)) - 1) as u64)) | (
        1u64 << ((shift + 7) as u64)),
        n >> ((shift + 7) as u64) == (n >> shift) >> 7u64,
        n >> ((shift + 7) as u64) != 0,
        shift + 7 < 63,
{
    assert(shift <= 56 && n >> shift >= 128 ==> ((((n & (((1u64 << shift) - 1) as u64)) | (1u64 << shift))
        & !(1u64 << shift)) | (((((n >> shift) & 127) | 128) as u8 as u64) << shift)) == (n & (((1u64
        << ((shift + 7) as u64)) - 1) as u64)) | (1u64 << ((shift + 7) as u64))) by (bit_vector);
    assert(shift <= 56 ==> n >> ((shift + 7) as u64) == (n >> shift) >> 7u64) by (bit_vector);
    assert(shift <= 56 && n >> shift >= 128 ==> n >> ((shift + 7) as u64) != 0) by (bit_vector);
    assert(shift <= 56 && n >> shift >= 128 && n < 0x8000_0000_0000_0000 ==> shift + 7 < 63)
        by (bit_vector);
}

proof fn bv_first_group(n: u64)
    requires
        n >= 128,
    ensures
        (((n & 127) | 128) as u8 as u64) == (n & (((1u64 << 7u64) - 1) as u64)) | (1u64 << 7u64),
        n >> 7u64 != 0,
{
    assert(n >= 128 ==> (((n & 127) | 128) as u8 as u64) == (n & (((1u64 << 7u64) - 1) as u64)) | (1u64
        << 7u64)) by (bit_vector);
    assert(n >= 128 ==> n >> 7u64 != 0) by (bit_vector);
}

proof fn bv_single_group(n: u64)
    requires
        n < 128,
    ensures
        (n as u8) as u64 == n,
        n & (1u64 << 7u64) == 0,
{
    assert(n < 128 ==> (n as u8) as u64 == n) by (bit_vector);
    assert(n < 128 ==> n & (1u64 << 7u64) == 0) by (bit_vector);
}

proof fn lemma_length_rest_decodes(c: Cursor, n: u64, shift: u64)
    requires
        c.ok(),
        0 <= c.pos,
        7 <= shift <= 56,
        shift % 7 == 0,
        n < 0x8000_0000_0000_0000,
        n >> shift != 0,
        c.buf.len() <= usize::MAX,
        c.pos + length_bytes(n >> shift).len() <= c.buf.len(),
        c.buf.subrange(c.pos, c.pos + length_bytes(n >> shift).len()) == length_bytes(n >> shift),
    ensures
        length_rest(c, (n & (((1u64 << shift) - 1) as u64)) | (1u64 << shift), shift as int) == (Cursor {
            pos: c.pos + length_bytes(n >> shift).len(),
            ..c
        }, n),
    decreases 64 - shift,
{
    let m = n >> shift;
    let acc = (n & (((1u64 << shift) - 1) as u64)) | (1u64 << shift);
    bv_bit_set(n, shift);
    let lb = length_bytes(m);
    assert(lb[0] == c.buf[c.pos]);
    let c1 = Cursor { pos: c.pos + 1, ..c };
    assert(read_u8(c) == (c1, lb[0]));
    if m < 128 {
        bv_last_group(n, shift);
        assert(length_rest(c1, n, (shift + 7) as int) == (c1, n));
    } else {
        bv_more_groups(n, shift);
        let s2 = (shift + 7) as u64;
        assert(lb == seq![((m & 127) | 128) as u8] + length_bytes(m >> 7u64));
        let rest = length_bytes(m >> 7u64);
        assert(c1.buf.subrange(c1.pos, c1.pos + rest.len()) =~= rest) by {
            assert forall|i: int| 0 <= i < rest.len() implies c1.buf.subrange(
                c1.pos,
                c1.pos + rest.len(),
            )[i] == rest[i] by {
                assert(c.buf.subrange(c.pos, c.pos + lb.len())[i + 1] == lb[i + 1]);
            }
        }
        lemma_length_rest_decodes(c1, n, s2);
    }
}

/// Reading a length at the start of its encoding gives the length back and moves past
/// the encoding, for every length below 2^63 (a larger one takes ten bytes, and the reader
/// overflows its bit shift on the tenth).
pub proof fn lemma_length_roundtrip(pre: Seq<u8>, n: u64, rest: Seq<u8>)
    requires
        n < 0x8000_0000_0000_0000,
        (pre + length_bytes(n) + rest).len() <= usize::MAX,
    ensures
        read_length(Cursor::at(pre + length_bytes(n) + rest, pre.len() as int)) == (Cursor::at(
            pre + length_bytes(n) + rest,
            (pre.len() + length_bytes(n).len()) as int,
        ), n as usize),
{
    let buf = pre + length_bytes(n) + rest;
    let c = Cursor::at(buf, pre.len() as int);
    let lb = length_bytes(n);
    assert(buf.subrange(pre.len() as int, pre.len() + lb.len() as int) =~= lb);
    assert(buf[pre.len() as int] == lb[0]);
    let c1 = Cursor { pos: c.pos + 1, ..c };
    assert(read_u8(c) == (c1, lb[0]));
    if n < 128 {
        bv_single_group(n);
    } else {
        bv_first_group(n);
        let rest_bytes = length_bytes(n >> 7u64);
        assert(lb == seq![((n & 127) | 128) as u8] + rest_bytes);
        assert(c1.buf.subrange(c1.pos, c1.pos + rest_bytes.len()) =~= rest_bytes) by {
            assert forall|i: int| 0 <= i < rest_bytes.len() implies c1.buf.subrange(
                c1.pos,
                c1.pos + rest_bytes.len(),
            )[i] == rest_bytes[i] by {
                assert(buf[pre.len() + 1 + i] == lb[i + 1]);
            }
        }
        lemma_length_rest_decodes(c1, n, 7);
    }
}

/// Reading a string at the start of its encoding gives the string back and moves past
/// the encoding, strictly or leniently.
pub proof fn lemma_string_roundtrip(pre: Seq<u8>, s: Seq<char>, rest: Seq<u8>)
    requires
        (pre + string_enc(s) + rest).len() <= usize::MAX,
        encode_utf8(s).len() < 0x8000_0000_0000_0000,
    ensures
        read_string_strict(Cursor::at(pre + string_enc(s) + rest, pre.len() as int)) == (Cursor::at(
            pre + string_enc(s) + rest,
            (pre.len() + string_enc(s).len()) as int,
        ), s),
        read_string_lenient(Cursor::at(pre + string_enc(s) + rest, pre.len() as int)) == (Cursor::at(
            pre + string_enc(s) + rest,
            (pre.len() + string_enc(s).len()) as int,
        ), s),
{
    let bytes = encode_utf8(s);
    let n = bytes.len() as u64;
    let lb = length_bytes(n);
    let buf = pre + string_enc(s) + rest;
    assert(buf == pre + lb + (bytes + rest));
    lemma_length_roundtrip(pre, n, bytes + rest);
    let c1 = Cursor::at(buf, pre.len() + lb.len() as int);
    assert(buf.subrange(c1.pos, c1.pos + n) =~= bytes);
    encode_utf8_valid_utf8(s);
    encode_utf8_decode_utf8(s);
}

/// Fixed-width integers read back as written.
pub proof fn lemma_ints_roundtrip(pre: Seq<u8>, a: u16, b: u32, d: u64, rest: Seq<u8>)
    requires
        (pre + le64(d) + rest).len() <= usize::MAX,
        (pre + le32(b) + rest).len() <= usize::MAX,
        (pre + le16(a) + rest).len() <= usize::MAX,
    ensures
        read_u16(Cursor::at(pre + le16(a) + rest, pre.len() as int)) == (Cursor::at(
            pre + le16(a) + rest,
            pre.len() + 2 as int,
        ), a),
        read_u32(Cursor::at(pre + le32(b) + rest, pre.len() as int)) == (Cursor::at(
            pre + le32(b) + rest,
            pre.len() + 4 as int,
        ), b),
        read_u64(Cursor::at(pre + le64(d) + rest, pre.len() as int)) == (Cursor::at(
            pre + le64(d) + rest,
            pre.len() + 8 as int,
        ), d),
{
    lemma_le16_roundtrip(a);
    lemma_le32_roundtrip(b);
    lemma_le64_roundtrip(d);
    assert((pre + le16(a) + rest).subrange(pre.len() as int, pre.len() + 2 as int)
        =~= le16(a));
    assert((pre + le32(b) + rest).subrange(pre.len() as int, pre.len() + 4 as int)
        =~= le32(b));
    assert((pre + le64(d) + rest).subrange(pre.len() as int, pre.len() + 8 as int)
        =~= le64(d));
}

/// A text that its encoding represents faithfully: no invalid text anywhere (it encodes
/// as an empty literal), at most 255 substitutions in each list (the count is a byte),
/// and strings shorter than 2^63 bytes.
pub open spec fn text_encodable(t: TextModel) -> bool
    decreases t,
{
    match t {
        TextModel::Literal(s) => encode_utf8(s).len() < 0x8000_0000_0000_0000,
        TextModel::Formattable(f, subs) => encode_utf8(f).len() < 0x8000_0000_0000_0000
            && subs.len() <= 255 && texts_encodable(subs),
        TextModel::Key(f, subs) => encode_utf8(f).len() < 0x8000_0000_0000_0000 && subs.len()
            <= 255 && texts_encodable(subs),
        TextModel::Invalid => false,
    }
}

pub open spec fn texts_encodable(ts: Seq<TextModel>) -> bool
    decreases ts,
{
    if ts.len() == 0 {
        true
    } else {
        text_encodable(ts[0]) && texts_encodable(ts.drop_first())
    }
}

/// Reading a text at the start of its encoding gives the text back and moves past the
/// encoding.
pub proof fn lemma_text_roundtrip(pre: Seq<u8>, t: TextModel, rest: Seq<u8>)
    requires
        text_encodable(t),
        (pre + text_enc(t) + rest).len() <= usize::MAX,
    ensures
        text_at(Cursor::at(pre + text_enc(t) + rest, pre.len() as int)) == (Cursor::at(
            pre + text_enc(t) + rest,
            (pre.len() + text_enc(t).len()) as int,
        ), t),
    decreases t, 0nat,
{
    let buf = pre + text_enc(t) + rest;
    let c = Cursor::at(buf, pre.len() as int);
    let c1 = Cursor::at(buf, (pre.len() + 1) as int);
    assert(buf[pre.len() as int] == text_enc(t)[0]);
    assert(read_u8(c) == (c1, text_enc(t)[0]));
    match t {
        TextModel::Literal(s) => {
            assert(buf == (pre + seq![0u8]) + string_enc(s) + rest);
            lemma_string_roundtrip(pre + seq![0u8], s, rest);
        },
        TextModel::Formattable(f, subs) => {
            lemma_composite_text(pre, 1u8, f, subs, rest);
        },
        TextModel::Key(f, subs) => {
            lemma_composite_text(pre, 2u8, f, subs, rest);
        },
        TextModel::Invalid => {},
    }
}

proof fn lemma_composite_text(
    pre: Seq<u8>,
    kind: u8,
    f: Seq<char>,
    subs: Seq<TextModel>,
    rest: Seq<u8>,
)
    requires
        kind == 1 || kind == 2,
        encode_utf8(f).len() < 0x8000_0000_0000_0000,
        subs.len() <= 255,
        texts_encodable(subs),
        (pre + seq![kind] + string_enc(f) + seq![subs.len() as u8] + texts_enc(subs) + rest).len()
            <= usize::MAX,
    ensures
        ({
            let enc = seq![kind] + string_enc(f) + seq![subs.len() as u8] + texts_enc(subs);
            let t = if kind == 1 {
                TextModel::Formattable(f, subs)
            } else {
                TextModel::Key(f, subs)
            };
            text_at(Cursor::at(pre + enc + rest, pre.len() as int)) == (Cursor::at(
                pre + enc + rest,
                (pre.len() + enc.len()) as int,
            ), t)
        }),
    decreases subs, 2nat,
{
    let enc = seq![kind] + string_enc(f) + seq![subs.len() as u8] + texts_enc(subs);
    let buf = pre + enc + rest;
    let c = Cursor::at(buf, pre.len() as int);
    let c1 = Cursor::at(buf, (pre.len() + 1) as int);
    assert(buf[pre.len() as int] == kind);
    assert(read_u8(c) == (c1, kind));
    let pre1 = pre + seq![kind];
    let rest1 = seq![subs.len() as u8] + texts_enc(subs) + rest;
    assert(buf =~= pre1 + string_enc(f) + rest1);
    lemma_string_roundtrip(pre1, f, rest1);
    let p2: int = (pre1.len() + string_enc(f).len()) as int;
    let c2 = Cursor::at(buf, p2);
    assert(buf[p2] == subs.len() as u8);
    let c3 = Cursor::at(buf, p2 + 1);
    assert(read_u8(c2) == (c3, subs.len() as u8));
    let pre3 = pre1 + string_enc(f) + seq![subs.len() as u8];
    assert(buf =~= pre3 + texts_enc(subs) + rest);
    assert(pre3.len() == p2 + 1);
    lemma_texts_roundtrip(pre3, subs, rest);
    assert((subs.len() as u8) as nat == subs.len());
}

/// Reading texts at the start of their encodings gives them back.
pub proof fn lemma_texts_roundtrip(pre: Seq<u8>, ts: Seq<TextModel>, rest: Seq<u8>)
    requires
        texts_encodable(ts),
        (pre + texts_enc(ts) + rest).len() <= usize::MAX,
    ensures
        texts_at(Cursor::at(pre + texts_enc(ts) + rest, pre.len() as int), ts.len()) == (
        Cursor::at(pre + texts_enc(ts) + rest, (pre.len() + texts_enc(ts).len()) as int),
        ts),
    decreases ts, 1nat,
{
    let buf = pre + texts_enc(ts) + rest;
    if ts.len() == 0 {
        assert(texts_enc(ts) == Seq::<u8>::empty());
        assert(ts =~= Seq::<TextModel>::empty());
    } else {
        let t = ts[0];
        let tail = ts.drop_first();
        assert(texts_enc(ts) == text_enc(t) + texts_enc(tail));
        assert(buf =~= pre + text_enc(t) + (texts_enc(tail) + rest));
        lemma_text_roundtrip(pre, t, texts_enc(tail) + rest);
        lemma_text_enc_nonempty(t);
        let pre1 = pre + text_enc(t);
        assert(buf =~= pre1 + texts_enc(tail) + rest);
        lemma_texts_roundtrip(pre1, tail, rest);
        assert(seq![t] + tail =~= ts);
    }
}

proof fn lemma_text_enc_nonempty(t: TextModel)
    ensures
        text_enc(t).len() >= 1,
{
}

/// A signed 16-bit integer survives the trip through its unsigned bit pattern.
pub proof fn lemma_cast16(x: i16)
    by (bit_vector)
    ensures
        (x as u16) as i16 == x,
{
}

/// A signed 32-bit integer survives the trip through its unsigned bit pattern.
pub proof fn lemma_cast32(x: i32)
    by (bit_vector)
    ensures
        (x as u32) as i32 == x,
{
}

/// A byte read at `p` is the byte there.
pub proof fn lemma_u8_at(buf: Seq<u8>, p: int)
    requires
        0 <= p < buf.len(),
        buf.len() <= usize::MAX,
    ensures
        read_u8(Cursor::at(buf, p)) == (Cursor::at(buf, p + 1), buf[p]),
{
    assert(buf.subrange(p, p + 1)[0] == buf[p]);
}

/// A 16-bit integer read at `p` is the one whose bytes are there.
pub proof fn lemma_u16_at(buf: Seq<u8>, p: int, x: u16)
    requires
        0 <= p,
        p + 2 <= buf.len(),
        buf.len() <= usize::MAX,
        buf.subrange(p, p + 2) == le16(x),
    ensures
        read_u16(Cursor::at(buf, p)) == (Cursor::at(buf, p + 2), x),
        read_i16(Cursor::at(buf, p)) == (Cursor::at(buf, p + 2), x as i16),
{
    lemma_le16_roundtrip(x);
}

/// A 32-bit integer read at `p` is the one whose bytes are there.
pub proof fn lemma_u32_at(buf: Seq<u8>, p: int, x: u32)
    requires
        0 <= p,
        p + 4 <= buf.len(),
        buf.len() <= usize::MAX,
        buf.subrange(p, p + 4) == le32(x),
    ensures
        read_u32(Cursor::at(buf, p)) == (Cursor::at(buf, p + 4), x),
        read_i32(Cursor::at(buf, p)) == (Cursor::at(buf, p + 4), x as i32),
{
    lemma_le32_roundtrip(x);
}

} // verus!
