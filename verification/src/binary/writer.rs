//! A writer of the encodings that [`crate::binary::reader::Reader`] and
//! [`crate::world::binary::SafeReader`] read, appending to a byte vector.
use vstd::prelude::*;
use crate::binary::le::{le16, le32, le64, from_le16, from_le32, from_le64, u16_from_le, u32_from_le, u64_from_le, u16_to_le, u32_to_le, u64_to_le, lemma_le16_roundtrip, lemma_le32_roundtrip, lemma_le64_roundtrip};
use vstd::utf8::encode_utf8;
use crate::binary::types::{RGB, Vector2, Text, TextModel, text_model, texts_model};

verus! {

/// A length in 7-bit groups, least significant group first; every byte but the last
/// has its high bit set.
pub open spec fn length_bytes(n: u64) -> Seq<u8>
    decreases n,
{
    if n < 128 {
        seq![n as u8]
    } else {
        proof {
            assert(n >= 128 ==> n >> 7u64 < n) by (bit_vector);
        }
        seq![((n & 127) | 128) as u8] + length_bytes(n >> 7u64)
    }
}

/// A string as its UTF-8 byte length followed by its UTF-8 bytes.
pub open spec fn string_enc(s: Seq<char>) -> Seq<u8> {
    length_bytes(encode_utf8(s).len() as u64) + encode_utf8(s)
}

/// A text: its kind byte, then for a literal its string, for a format string or a
/// localization key the string, the number of substitutions as a byte and the
/// substitutions; nothing follows the kind byte of an invalid text.
pub open spec fn text_enc(t: TextModel) -> Seq<u8>
    decreases t,
{
    match t {
        TextModel::Literal(s) => seq![0u8] + string_enc(s),
        TextModel::Formattable(f, subs) => seq![1u8] + string_enc(f) + seq![subs.len() as u8]
            + texts_enc(subs),
        TextModel::Key(f, subs) => seq![2u8] + string_enc(f) + seq![subs.len() as u8]
            + texts_enc(subs),
        TextModel::Invalid => seq![0u8],
    }
}

/// Texts one after the other.
pub open spec fn texts_enc(ts: Seq<TextModel>) -> Seq<u8>
    decreases ts,
{
    if ts.len() == 0 {
        Seq::empty()
    } else {
        text_enc(ts[0]) + texts_enc(ts.drop_first())
    }
}

/// The encoding of a list of texts is the encodings of its parts in order.
pub proof fn lemma_texts_enc_append(a: Seq<TextModel>, b: Seq<TextModel>)
    ensures
        texts_enc(a + b) == texts_enc(a) + texts_enc(b),
    decreases a.len(),
{
    if a.len() == 0 {
        assert(a + b =~= b);
        assert(texts_enc(a) + texts_enc(b) =~= texts_enc(b));
    } else {
        assert((a + b).drop_first() =~= a.drop_first() + b);
        lemma_texts_enc_append(a.drop_first(), b);
        assert(texts_enc(a + b) =~= texts_enc(a) + texts_enc(b));
    }
}

/// The encoding of one text as a list.
pub proof fn lemma_texts_enc_single(t: TextModel)
    ensures
        texts_enc(seq![t]) == text_enc(t),
{
    assert(seq![t].drop_first() =~= Seq::<TextModel>::empty());
    assert(texts_enc(Seq::<TextModel>::empty()) == Seq::<u8>::empty());
    assert(seq![t][0] == t);
    assert(texts_enc(seq![t]) =~= text_enc(t) + Seq::<u8>::empty());
}

/// Appends encoded values to a byte vector.
pub struct Writer {
    pub dst: Vec<u8>,
}

impl Writer {
    /// A writer that appends to `dst`.
    pub fn new(dst: Vec<u8>) -> (w: Self)
        ensures
            w.dst@ == dst@,
    {
        Self { dst }
    }

    /// The bytes written, after what `dst` held at the start.
    pub fn into_inner(self) -> (v: Vec<u8>)
        ensures
            v@ == self.dst@,
    {
        self.dst
    }

    pub fn write_bytes(&mut self, bytes: &[u8])
        ensures
            final(self).dst@ == old(self).dst@ + bytes@,
    {
        self.dst.extend_from_slice(bytes);
        assert(self.dst@ =~= old(self).dst@ + bytes@);
    }

    pub fn write_byte(&mut self, byte: u8)
        ensures
            final(self).dst@ == old(self).dst@.push(byte),
    {
        self.dst.push(byte);
    }

    pub fn write_bool(&mut self, b: bool)
        ensures
            final(self).dst@ == old(self).dst@.push(if b { 1u8 } else { 0u8 }),
    {
        self.write_byte(b as u8)
    }

    pub fn write_i8(&mut self, num: i8)
        ensures
            final(self).dst@ == old(self).dst@.push(num as u8),
    {
        self.write_byte(num as u8)
    }

    pub fn write_u16(&mut self, num: u16)
        ensures
            final(self).dst@ == old(self).dst@ + le16(num),
    {
        let b = u16_to_le(num);
        self.write_bytes(&b);
    }

    pub fn write_i16(&mut self, num: i16)
        ensures
            final(self).dst@ == old(self).dst@ + le16(num as u16),
    {
        let b = u16_to_le(num as u16);
        self.write_bytes(&b);
    }

    pub fn write_u32(&mut self, num: u32)
        ensures
            final(self).dst@ == old(self).dst@ + le32(num),
    {
        let b = u32_to_le(num);
        self.write_bytes(&b);
    }

    pub fn write_i32(&mut self, num: i32)
        ensures
            final(self).dst@ == old(self).dst@ + le32(num as u32),
    {
        let b = u32_to_le(num as u32);
        self.write_bytes(&b);
    }

    pub fn write_u64(&mut self, num: u64)
        ensures
            final(self).dst@ == old(self).dst@ + le64(num),
    {
        let b = u64_to_le(num);
        self.write_bytes(&b);
    }

    pub fn write_i64(&mut self, num: i64)
        ensures
            final(self).dst@ == old(self).dst@ + le64(num as u64),
    {
        let b = u64_to_le(num as u64);
        self.write_bytes(&b);
    }

    /// An `f32` given by its bit pattern, little-endian.
    pub fn write_f32_bits(&mut self, bits: u32)
        ensures
            final(self).dst@ == old(self).dst@ + le32(bits),
    {
        self.write_u32(bits)
    }

    /// A length in 7-bit groups (see [`length_bytes`]).
    pub fn write_length(&mut self, len: usize)
        ensures
            final(self).dst@ == old(self).dst@ + length_bytes(len as u64),
    {
        let mut len: u64 = len as u64;
        let ghost start = self.dst@;
        let ghost total = length_bytes(len);
        while len >= 128
            invariant
                self.dst@ + length_bytes(len) == start + total,
            decreases len,
        {
            let ghost before = self.dst@;
            let ghost prev = len;
            let b = ((len & 0b1111111) | 128) as u8;
            self.write_byte(b);
            assert(len >= 128 ==> len >> 7u64 < len) by (bit_vector);
            len = len >> 7;
            assert(length_bytes(prev) == seq![b] + length_bytes(len));
            assert(before + length_bytes(prev) =~= self.dst@ + length_bytes(len));
        }
        self.write_byte(len as u8);
        assert(self.dst@ =~= start + total);
    }

    /// A string as its UTF-8 byte length and its UTF-8 bytes.
    pub fn write_string(&mut self, string: &str)
        ensures
            final(self).dst@ == old(self).dst@ + string_enc(string@),
    {
        let r = string.as_bytes();
        self.write_length(r.len());
        self.write_bytes(r);
        assert(self.dst@ =~= old(self).dst@ + string_enc(string@));
    }

    /// A text (see [`text_enc`]).
    pub fn write_text(&mut self, text: &Text)
        ensures
            final(self).dst@ == old(self).dst@ + text_enc(text@),
        decreases text,
    {
        self.write_byte(text.code());
        match text {
            Text::Literal(lit) => {
                self.write_string(lit.as_str());
                assert(self.dst@ =~= old(self).dst@ + text_enc(text@));
            },
            Text::Formattable(form, subs) => {
                self.write_string(form.as_str());
                self.write_subs(subs);
                assert(self.dst@ =~= old(self).dst@ + text_enc(text@));
            },
            Text::Key(form, subs) => {
                self.write_string(form.as_str());
                self.write_subs(subs);
                assert(self.dst@ =~= old(self).dst@ + text_enc(text@));
            },
            _ => {
                assert(self.dst@ =~= old(self).dst@ + text_enc(text@));
            },
        }
    }

    /// The number of substitutions as a byte, then the substitutions.
    fn write_subs(&mut self, subs: &Vec<Text>)
        ensures
            final(self).dst@ == old(self).dst@ + seq![subs@.len() as u8] + texts_enc(texts_model(*subs)),
        decreases subs, 0nat,
    {
        self.write_byte(subs.len() as u8);
        let ghost start = self.dst@;
        let ghost m = texts_model(*subs);
        let mut i: usize = 0;
        while i < subs.len()
            invariant
                i <= subs@.len(),
                m == texts_model(*subs),
                self.dst@ == start + texts_enc(m.take(i as int)),
            decreases subs@.len() - i,
        {
            let ghost before = self.dst@;
            self.write_text(&subs[i]);
            proof {
                assert(m.take(i + 1) =~= m.take(i as int) + seq![m[i as int]]);
                lemma_texts_enc_append(m.take(i as int), seq![m[i as int]]);
                lemma_texts_enc_single(m[i as int]);
                assert(m[i as int] == subs@[i as int]@);
            }
            i = i + 1;
        }
        assert(m.take(subs@.len() as int) =~= m);
    }

    pub fn write_rgb(&mut self, rgb: RGB)
        ensures
            final(self).dst@ == old(self).dst@ + seq![rgb.0, rgb.1, rgb.2],
    {
        self.write_byte(rgb.0);
        self.write_byte(rgb.1);
        self.write_byte(rgb.2);
        assert(self.dst@ =~= old(self).dst@ + seq![rgb.0, rgb.1, rgb.2]);
    }

    /// Two `f32`s given by their bit patterns.
    pub fn write_vector2(&mut self, vec2: Vector2)
        ensures
            final(self).dst@ == old(self).dst@ + le32(vec2.0) + le32(vec2.1),
    {
        self.write_f32_bits(vec2.0);
        self.write_f32_bits(vec2.1);
        assert(self.dst@ =~= old(self).dst@ + le32(vec2.0) + le32(vec2.1));
    }
}

/// Builds a network message: two bytes reserved for the message length, the message
/// code, then the payload written through [`MessageWriter::inner_mut`].
pub struct MessageWriter(Writer);

impl MessageWriter {
    /// The bytes of the message so far.
    pub closed spec fn bytes(&self) -> Seq<u8> {
        self.0.dst@
    }

    pub fn new(code: u8) -> (m: Self)
        ensures
            m.bytes() == seq![0u8, 0u8, code],
    {
        let mut w = Writer::new(Vec::new());
        // the length, zero until the message is finalized
        w.write_byte(0);
        w.write_byte(0);
        w.write_byte(code);
        assert(w.dst@ =~= seq![0u8, 0u8, code]);
        Self(w)
    }

    /// The writer of the payload.
    pub fn inner_mut(&mut self) -> (w: &mut Writer)
        ensures
            w.dst@ == old(self).bytes(),
            final(self).bytes() == final(w).dst@,
    {
        &mut self.0
    }

    /// The finished message: the first two bytes hold the message's total length as a
    /// little-endian `u16` (truncated, as the length field is 16 bits wide).
    pub fn finalize(self) -> (v: Vec<u8>)
        requires
            self.bytes().len() >= 2,
        ensures
            v@ == le16(self.bytes().len() as u16) + self.bytes().subrange(
                2,
                self.bytes().len() as int,
            ),
    {
        let mut v = self.0.into_inner();
        let len = v.len();
        let b = u16_to_le(len as u16);
        let b0 = b[0];
        let b1 = b[1];
        v.set(0, b0);
        v.set(1, b1);
        assert(v@ =~= b@ + self.bytes().subrange(2, self.bytes().len() as int));
        v
    }
}

} // verus!
