//! A reader of network message payloads. Reading past the end of the payload is a
//! precondition violation (the reads index the payload directly).
use vstd::prelude::*;
use crate::binary::le::{le16, le32, le64, from_le16, from_le32, from_le64, u16_from_le, u32_from_le, u64_from_le, u16_to_le, u32_to_le, u64_to_le, lemma_le16_roundtrip, lemma_le32_roundtrip, lemma_le64_roundtrip};
use vstd::slice::slice_subrange;
use crate::binary::cursor::{
    Cursor, Stop, take, read_u8, read_bool, read_i8, read_u16, read_i16, read_u32, read_i32,
    read_u64, read_i64, length_rest, read_length, read_string_lenient, lemma_string_forward,
};
use crate::binary::types::{RGB, Vector2, Text, TextModel, texts_model};
use crate::binary::strings::str_from_utf8;

verus! {

/// A text: its kind byte, then a string for a literal, or a string, a count byte and
/// that many texts for a format string (kind 1) or a localization key (kind 2).
/// Any other kind is an invalid text with nothing after the kind byte.
pub open spec fn text_at(c: Cursor) -> (Cursor, TextModel)
    decreases c.buf.len() - c.pos, 0nat, 0nat,
{
    if !c.ok() {
        (c, TextModel::Invalid)
    } else {
        let (c1, kind) = read_u8(c);
        if !c1.ok() {
            (c1, TextModel::Invalid)
        } else if kind == 0 {
            let (c2, s) = read_string_lenient(c1);
            (c2, TextModel::Literal(s))
        } else if kind == 1 || kind == 2 {
            let (c2, form) = read_string_lenient(c1);
            let c3 = read_u8(c2).0;
            let n = read_u8(c2).1;
            if !c3.ok() {
                (c3, TextModel::Invalid)
            } else if !(0 <= c3.buf.len() - c3.pos < c.buf.len() - c.pos) {
                // never taken: the reads above moved forward within the buffer
                (c3.halt(Stop::Panic), TextModel::Invalid)
            } else {
                let (c4, subs) = texts_at(c3, n as nat);
                (c4, if kind == 1 { TextModel::Formattable(form, subs) } else { TextModel::Key(form, subs) })
            }
        } else {
            (c1, TextModel::Invalid)
        }
    }
}

/// `n` texts one after the other.
pub open spec fn texts_at(c: Cursor, n: nat) -> (Cursor, Seq<TextModel>)
    decreases c.buf.len() - c.pos, 1nat, n,
{
    if !c.ok() || n == 0 {
        (c, Seq::empty())
    } else {
        let c1 = text_at(c).0;
        let t = text_at(c).1;
        if !c1.ok() {
            (c1, Seq::empty())
        } else if !(0 <= c1.buf.len() - c1.pos <= c.buf.len() - c.pos) {
            // never taken: reading a text moves forward within the buffer
            (c1.halt(Stop::Panic), Seq::empty())
        } else {
            let (c2, ts) = texts_at(c1, (n - 1) as nat);
            (c2, seq![t] + ts)
        }
    }
}

/// A cursor over a borrowed payload.
pub struct Reader<'a> {
    pub buf: &'a [u8],
    pub cur: usize,
}

impl<'a> Reader<'a> {
    /// The reader's position as a cursor that has not stopped.
    pub open spec fn cursor(&self) -> Cursor {
        Cursor::at(self.buf@, self.cur as int)
    }

    pub fn new(buf: &'a [u8]) -> (r: Self)
        ensures
            r.buf@ == buf@,
            r.cur == 0,
    {
        Self { buf, cur: 0 }
    }

    /// The next `amount` bytes.
    pub fn read_bytes(&mut self, amount: usize) -> (out: &'a [u8])
        requires
            old(self).cur + amount <= old(self).buf@.len(),
        ensures
            final(self).buf@ == old(self).buf@,
            final(self).cur == old(self).cur + amount,
            out@ == old(self).buf@.subrange(old(self).cur as int, old(self).cur + amount),
            (final(self).cursor(), out@) == take(old(self).cursor(), amount as int),
    {
        let len = self.buf.len();
        self.cur = self.cur + amount;
        slice_subrange(self.buf, self.cur - amount, self.cur)
    }

    pub fn read_byte(&mut self) -> (b: u8)
        requires
            old(self).cur + 1 <= old(self).buf@.len(),
        ensures
            final(self).buf@ == old(self).buf@,
            (final(self).cursor(), b) == read_u8(old(self).cursor()),
    {
        self.read_bytes(1)[0]
    }

    pub fn read_bool(&mut self) -> (b: bool)
        requires
            old(self).cur + 1 <= old(self).buf@.len(),
        ensures
            final(self).buf@ == old(self).buf@,
            (final(self).cursor(), b) == read_bool(old(self).cursor()),
    {
        self.read_byte() != 0
    }

    pub fn read_i8(&mut self) -> (v: i8)
        requires
            old(self).cur + 1 <= old(self).buf@.len(),
        ensures
            final(self).buf@ == old(self).buf@,
            (final(self).cursor(), v) == read_i8(old(self).cursor()),
    {
        self.read_byte() as i8
    }

    pub fn read_u16(&mut self) -> (v: u16)
        requires
            old(self).cur + 2 <= old(self).buf@.len(),
        ensures
            final(self).buf@ == old(self).buf@,
            (final(self).cursor(), v) == read_u16(old(self).cursor()),
    {
        u16_from_le(self.read_bytes(2))
    }

    pub fn read_i16(&mut self) -> (v: i16)
        requires
            old(self).cur + 2 <= old(self).buf@.len(),
        ensures
            final(self).buf@ == old(self).buf@,
            (final(self).cursor(), v) == read_i16(old(self).cursor()),
    {
        u16_from_le(self.read_bytes(2)) as i16
    }

    pub fn read_u32(&mut self) -> (v: u32)
        requires
            old(self).cur + 4 <= old(self).buf@.len(),
        ensures
            final(self).buf@ == old(self).buf@,
            (final(self).cursor(), v) == read_u32(old(self).cursor()),
    {
        u32_from_le(self.read_bytes(4))
    }

    pub fn read_i32(&mut self) -> (v: i32)
        requires
            old(self).cur + 4 <= old(self).buf@.len(),
        ensures
            final(self).buf@ == old(self).buf@,
            (final(self).cursor(), v) == read_i32(old(self).cursor()),
    {
        u32_from_le(self.read_bytes(4)) as i32
    }

    pub fn read_u64(&mut self) -> (v: u64)
        requires
            old(self).cur + 8 <= old(self).buf@.len(),
        ensures
            final(self).buf@ == old(self).buf@,
            (final(self).cursor(), v) == read_u64(old(self).cursor()),
    {
        u64_from_le(self.read_bytes(8))
    }

    pub fn read_i64(&mut self) -> (v: i64)
        requires
            old(self).cur + 8 <= old(self).buf@.len(),
        ensures
            final(self).buf@ == old(self).buf@,
            (final(self).cursor(), v) == read_i64(old(self).cursor()),
    {
        u64_from_le(self.read_bytes(8)) as i64
    }

    /// The bit pattern of a little-endian `f32`.
    pub fn read_f32_bits(&mut self) -> (v: u32)
        requires
            old(self).cur + 4 <= old(self).buf@.len(),
        ensures
            final(self).buf@ == old(self).buf@,
            (final(self).cursor(), v) == read_u32(old(self).cursor()),
    {
        u32_from_le(self.read_bytes(4))
    }

    /// A length in 7-bit groups (see [`read_length`]).
    pub fn read_length(&mut self) -> (n: usize)
        requires
            read_length(old(self).cursor()).0.ok(),
        ensures
            final(self).buf@ == old(self).buf@,
            (final(self).cursor(), n) == read_length(old(self).cursor()),
    {
        let ghost c0 = self.cursor();
        let first = self.read_byte();
        let ghost c1 = self.cursor();
        let mut length: u64 = first as u64;
        let mut shift: u64 = 7;
        while length & (1u64 << shift) != 0
            invariant
                self.buf@ == c0.buf,
                7 <= shift,
                length_rest(self.cursor(), length, shift as int) == length_rest(c1, first as u64, 7),
                length_rest(c1, first as u64, 7).0.ok(),
            decreases 71 - shift,
        {
            let ghost cc = self.cursor();
            assert(read_u8(cc).0.ok());
            length = length & !(1u64 << shift);
            let b = self.read_byte();
            length = length | ((b as u64) << shift);
            shift = shift + 7;
        }
        length as usize
    }

    /// A length-prefixed string; bytes that are not valid UTF-8 give the empty string.
    pub fn read_string(&mut self) -> (s: String)
        requires
            read_string_lenient(old(self).cursor()).0.ok(),
        ensures
            final(self).buf@ == old(self).buf@,
            (final(self).cursor(), s@) == read_string_lenient(old(self).cursor()),
    {
        proof {
            lemma_string_forward(self.cursor());
        }
        let length = self.read_length();
        let bytes = self.read_bytes(length);
        match str_from_utf8(bytes) {
            Ok(s) => s.to_owned(),
            Err(_) => String::new(),
        }
    }

    /// A text (see [`text_at`]).
    pub fn read_text(&mut self) -> (t: Text)
        requires
            text_at(old(self).cursor()).0.ok(),
        ensures
            final(self).buf@ == old(self).buf@,
            (final(self).cursor(), t@) == text_at(old(self).cursor()),
            old(self).cur < final(self).cur <= final(self).buf@.len(),
        decreases old(self).buf@.len() - old(self).cur,
    {
        let ghost c0 = self.cursor();
        let kind = self.read_byte();
        if kind == 0 {
            proof {
                lemma_string_forward(self.cursor());
            }
            Text::Literal(self.read_string())
        } else if kind == 1 || kind == 2 {
            proof {
                lemma_string_forward(self.cursor());
            }
            let form = self.read_string();
            let n = self.read_byte();
            let ghost c3 = self.cursor();
            let mut subs: Vec<Text> = Vec::new();
            let mut i: u8 = 0;
            assert(texts_model(subs) =~= Seq::<TextModel>::empty());
            while i < n
                invariant
                    self.buf@ == c0.buf,
                    c0 == old(self).cursor(),
                    i <= n,
                    c0.pos < self.cur <= self.buf@.len(),
                    texts_at(c3, n as nat).0.ok(),
                    texts_at(c3, n as nat) == ({
                        let (cc, ts) = texts_at(self.cursor(), (n - i) as nat);
                        (cc, texts_model(subs) + ts)
                    }),
                decreases n - i,
            {
                let ghost before = texts_model(subs);
                let ghost cc = self.cursor();
                let t = self.read_text();
                subs.push(t);
                proof {
                    assert(texts_model(subs) =~= before + seq![t@]);
                    let (c2, ts) = texts_at(self.cursor(), (n - i - 1) as nat);
                    assert(texts_at(cc, (n - i) as nat) == (c2, seq![t@] + ts));
                    assert(before + (seq![t@] + ts) =~= texts_model(subs) + ts);
                }
                i = i + 1;
            }
            proof {
                assert(texts_model(subs) + Seq::<TextModel>::empty() =~= texts_model(subs));
            }
            if kind == 1 {
                Text::Formattable(form, subs)
            } else {
                Text::Key(form, subs)
            }
        } else {
            Text::Invalid
        }
    }

    pub fn read_rgb(&mut self) -> (c: RGB)
        requires
            old(self).cur + 3 <= old(self).buf@.len(),
        ensures
            final(self).buf@ == old(self).buf@,
            final(self).cur == old(self).cur + 3,
            c == RGB(
                old(self).buf@[old(self).cur as int],
                old(self).buf@[old(self).cur + 1],
                old(self).buf@[old(self).cur + 2],
            ),
    {
        RGB(self.read_byte(), self.read_byte(), self.read_byte())
    }

    /// Two little-endian `f32`s, as bit patterns.
    pub fn read_vector2(&mut self) -> (v: Vector2)
        requires
            old(self).cur + 8 <= old(self).buf@.len(),
        ensures
            final(self).buf@ == old(self).buf@,
            final(self).cur == old(self).cur + 8,
            v == Vector2(read_u32(old(self).cursor()).1, read_u32(read_u32(old(self).cursor()).0).1),
    {
        Vector2(self.read_f32_bits(), self.read_f32_bits())
    }
}

} // verus!
