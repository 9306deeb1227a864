//! A reader of world files that reports running out of data as an error.
use vstd::prelude::*;
use crate::binary::le::{le16, le32, le64, from_le16, from_le32, from_le64, u16_from_le, u32_from_le, u64_from_le, u16_to_le, u32_to_le, u64_to_le, lemma_le16_roundtrip, lemma_le32_roundtrip, lemma_le64_roundtrip};
use vstd::slice::slice_subrange;
use crate::binary::cursor::{
    Cursor, Stop, take, skip, read_u8, read_bool, read_i8, read_u16, read_i16, read_u32, read_i32,
    read_u64, read_i64, length_rest, read_length, string_bytes, read_string_strict,
    lemma_string_forward, read_rgb, read_vector2,
};
use crate::binary::types::{RGB, Vector2};
use crate::binary::strings::str_from_utf8;
use crate::world::types::{WorldParseError, reports};

verus! {

/// The result `r` of a read agrees with the cursor `c` that the read leaves: a value
/// exactly when the cursor has not stopped, and otherwise the error of its stop.
pub open spec fn agrees<T>(r: Result<T, WorldParseError>, c: Cursor) -> bool {
    match r {
        Ok(_) => c.ok(),
        Err(e) => match c.stop {
            Some(s) => reports(e, s),
            None => false,
        },
    }
}

/// The read does not panic.
pub open spec fn no_panic(c: Cursor) -> bool {
    c.stop != Some(Stop::Panic)
}

/// A cursor over an owned buffer; the position may be anywhere, even past the end.
pub struct SafeReader {
    pub buf: Vec<u8>,
    pub cur: usize,
}

impl SafeReader {
    /// The reader's position as a cursor that has not stopped.
    pub open spec fn cursor(&self) -> Cursor {
        Cursor::at(self.buf@, self.cur as int)
    }

    pub fn new(buf: Vec<u8>) -> (r: Self)
        ensures
            r.buf@ == buf@,
            r.cur == 0,
    {
        Self { buf, cur: 0 }
    }

    pub fn seek(&mut self, index: usize)
        ensures
            final(self).buf@ == old(self).buf@,
            final(self).cur == index,
    {
        self.cur = index;
    }

    pub fn skip(&mut self, delta: usize)
        requires
            old(self).cur + delta <= usize::MAX,
        ensures
            final(self).buf@ == old(self).buf@,
            final(self).cursor() == skip(old(self).cursor(), delta as int),
    {
        self.cur = self.cur + delta;
    }

    pub fn get_cur(&self) -> (c: usize)
        ensures
            c == self.cur,
    {
        self.cur
    }

    /// The next `amount` bytes; the position moves by `amount` even when they are not
    /// all there.
    pub fn read_bytes(&mut self, amount: usize) -> (r: Result<&[u8], WorldParseError>)
        requires
            old(self).cur + amount <= usize::MAX,
        ensures
            final(self).buf@ == old(self).buf@,
            final(self).cur == old(self).cur + amount,
            agrees(r, take(old(self).cursor(), amount as int).0),
            r matches Ok(b) ==> b@ == take(old(self).cursor(), amount as int).1,
    {
        self.cur = self.cur + amount;
        if self.cur <= self.buf.len() {
            Ok(slice_subrange(self.buf.as_slice(), self.cur - amount, self.cur))
        } else {
            Err(WorldParseError::UnexpectedEOI)
        }
    }

    pub fn read_byte(&mut self) -> (r: Result<u8, WorldParseError>)
        requires
            no_panic(read_u8(old(self).cursor()).0),
        ensures
            final(self).buf@ == old(self).buf@,
            final(self).cursor().pos == read_u8(old(self).cursor()).0.pos,
            agrees(r, read_u8(old(self).cursor()).0),
            r matches Ok(v) ==> v == read_u8(old(self).cursor()).1,
    {
        let b = self.read_bytes(1)?;
        Ok(b[0])
    }

    pub fn read_bool(&mut self) -> (r: Result<bool, WorldParseError>)
        requires
            no_panic(read_bool(old(self).cursor()).0),
        ensures
            final(self).buf@ == old(self).buf@,
            final(self).cur == read_bool(old(self).cursor()).0.pos,
            agrees(r, read_bool(old(self).cursor()).0),
            r matches Ok(v) ==> v == read_bool(old(self).cursor()).1,
    {
        Ok(self.read_byte()? != 0)
    }

    pub fn read_i8(&mut self) -> (r: Result<i8, WorldParseError>)
        requires
            no_panic(read_i8(old(self).cursor()).0),
        ensures
            final(self).buf@ == old(self).buf@,
            final(self).cur == read_i8(old(self).cursor()).0.pos,
            agrees(r, read_i8(old(self).cursor()).0),
            r matches Ok(v) ==> v == read_i8(old(self).cursor()).1,
    {
        Ok(self.read_byte()? as i8)
    }

    pub fn read_u16(&mut self) -> (r: Result<u16, WorldParseError>)
        requires
            no_panic(read_u16(old(self).cursor()).0),
        ensures
            final(self).buf@ == old(self).buf@,
            final(self).cur == read_u16(old(self).cursor()).0.pos,
            agrees(r, read_u16(old(self).cursor()).0),
            r matches Ok(v) ==> v == read_u16(old(self).cursor()).1,
    {
        let b = self.read_bytes(2)?;
        Ok(u16_from_le(b))
    }

    pub fn read_i16(&mut self) -> (r: Result<i16, WorldParseError>)
        requires
            no_panic(read_i16(old(self).cursor()).0),
        ensures
            final(self).buf@ == old(self).buf@,
            final(self).cur == read_i16(old(self).cursor()).0.pos,
            agrees(r, read_i16(old(self).cursor()).0),
            r matches Ok(v) ==> v == read_i16(old(self).cursor()).1,
    {
        let b = self.read_bytes(2)?;
        Ok(u16_from_le(b) as i16)
    }

    pub fn read_u32(&mut self) -> (r: Result<u32, WorldParseError>)
        requires
            no_panic(read_u32(old(self).cursor()).0),
        ensures
            final(self).buf@ == old(self).buf@,
            final(self).cur == read_u32(old(self).cursor()).0.pos,
            agrees(r, read_u32(old(self).cursor()).0),
            r matches Ok(v) ==> v == read_u32(old(self).cursor()).1,
    {
        let b = self.read_bytes(4)?;
        Ok(u32_from_le(b))
    }

    pub fn read_i32(&mut self) -> (r: Result<i32, WorldParseError>)
        requires
            no_panic(read_i32(old(self).cursor()).0),
        ensures
            final(self).buf@ == old(self).buf@,
            final(self).cur == read_i32(old(self).cursor()).0.pos,
            agrees(r, read_i32(old(self).cursor()).0),
            r matches Ok(v) ==> v == read_i32(old(self).cursor()).1,
    {
        let b = self.read_bytes(4)?;
        Ok(u32_from_le(b) as i32)
    }

    pub fn read_u64(&mut self) -> (r: Result<u64, WorldParseError>)
        requires
            no_panic(read_u64(old(self).cursor()).0),
        ensures
            final(self).buf@ == old(self).buf@,
            final(self).cur == read_u64(old(self).cursor()).0.pos,
            agrees(r, read_u64(old(self).cursor()).0),
            r matches Ok(v) ==> v == read_u64(old(self).cursor()).1,
    {
        let b = self.read_bytes(8)?;
        Ok(u64_from_le(b))
    }

    pub fn read_i64(&mut self) -> (r: Result<i64, WorldParseError>)
        requires
            no_panic(read_i64(old(self).cursor()).0),
        ensures
            final(self).buf@ == old(self).buf@,
            final(self).cur == read_i64(old(self).cursor()).0.pos,
            agrees(r, read_i64(old(self).cursor()).0),
            r matches Ok(v) ==> v == read_i64(old(self).cursor()).1,
    {
        let b = self.read_bytes(8)?;
        Ok(u64_from_le(b) as i64)
    }

    /// The bit pattern of a little-endian `f32`.
    pub fn read_f32_bits(&mut self) -> (r: Result<u32, WorldParseError>)
        requires
            no_panic(read_u32(old(self).cursor()).0),
        ensures
            final(self).buf@ == old(self).buf@,
            final(self).cur == read_u32(old(self).cursor()).0.pos,
            agrees(r, read_u32(old(self).cursor()).0),
            r matches Ok(v) ==> v == read_u32(old(self).cursor()).1,
    {
        self.read_u32()
    }

    /// The bit pattern of a little-endian `f64`.
    pub fn read_f64_bits(&mut self) -> (r: Result<u64, WorldParseError>)
        requires
            no_panic(read_u64(old(self).cursor()).0),
        ensures
            final(self).buf@ == old(self).buf@,
            final(self).cur == read_u64(old(self).cursor()).0.pos,
            agrees(r, read_u64(old(self).cursor()).0),
            r matches Ok(v) ==> v == read_u64(old(self).cursor()).1,
    {
        self.read_u64()
    }

    pub fn read_vector2(&mut self) -> (r: Result<Vector2, WorldParseError>)
        requires
            no_panic(read_vector2(old(self).cursor()).0),
        ensures
            final(self).buf@ == old(self).buf@,
            final(self).cur == read_vector2(old(self).cursor()).0.pos,
            agrees(r, read_vector2(old(self).cursor()).0),
            r matches Ok(v) ==> v == read_vector2(old(self).cursor()).1,
    {
        let x = self.read_f32_bits()?;
        let y = self.read_f32_bits()?;
        Ok(Vector2(x, y))
    }

    pub fn read_rgb(&mut self) -> (r: Result<RGB, WorldParseError>)
        requires
            no_panic(read_rgb(old(self).cursor()).0),
        ensures
            final(self).buf@ == old(self).buf@,
            final(self).cur == read_rgb(old(self).cursor()).0.pos,
            agrees(r, read_rgb(old(self).cursor()).0),
            r matches Ok(v) ==> v == read_rgb(old(self).cursor()).1,
    {
        let r = self.read_byte()?;
        let g = self.read_byte()?;
        let b = self.read_byte()?;
        Ok(RGB(r, g, b))
    }

    /// A length in 7-bit groups (see [`read_length`]).
    pub fn read_length(&mut self) -> (r: Result<usize, WorldParseError>)
        requires
            no_panic(read_length(old(self).cursor()).0),
        ensures
            final(self).buf@ == old(self).buf@,
            final(self).cur == read_length(old(self).cursor()).0.pos,
            agrees(r, read_length(old(self).cursor()).0),
            r matches Ok(v) ==> v == read_length(old(self).cursor()).1,
    {
        let ghost c0 = self.cursor();
        let first = self.read_byte()?;
        let ghost c1 = self.cursor();
        let mut length: u64 = first as u64;
        let mut shift: u64 = 7;
        while length & (1u64 << shift) != 0
            invariant
                self.buf@ == c0.buf,
                c0 == old(self).cursor(),
                read_u8(c0).0 == c1,
                read_u8(c0).1 == first,
                7 <= shift,
                length_rest(self.cursor(), length, shift as int) == length_rest(c1, first as u64, 7),
                no_panic(length_rest(c1, first as u64, 7).0),
            decreases 71 - shift,
        {
            length = length & !(1u64 << shift);
            let b = self.read_byte()?;
            length = length | ((b as u64) << shift);
            shift = shift + 7;
        }
        Ok(length as usize)
    }

    /// A length-prefixed UTF-8 string.
    pub fn read_string(&mut self) -> (r: Result<String, WorldParseError>)
        requires
            no_panic(read_string_strict(old(self).cursor()).0),
        ensures
            final(self).buf@ == old(self).buf@,
            final(self).cur == read_string_strict(old(self).cursor()).0.pos,
            agrees(r, read_string_strict(old(self).cursor()).0),
            r matches Ok(v) ==> v@ == read_string_strict(old(self).cursor()).1,
    {
        let ghost c0 = self.cursor();
        proof {
            lemma_string_forward(c0);
        }
        let length = self.read_length()?;
        assert(self.cursor() == read_length(c0).0);
        let bytes = self.read_bytes(length)?;
        match str_from_utf8(bytes) {
            Ok(s) => Ok(s.to_owned()),
            Err(e) => Err(WorldParseError::InvalidString(e)),
        }
    }
}

} // verus!
