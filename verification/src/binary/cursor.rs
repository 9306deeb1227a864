//! A model of sequential reading from a byte buffer.
//!
//! A [`Cursor`] is a position in a buffer together with the reason reading stopped,
//! if it did. Every read on a stopped cursor leaves it unchanged, so a chain of reads
//! records the first failure, as the readers of this crate do with early returns.
use vstd::prelude::*;
use crate::binary::le::{le16, le32, le64, from_le16, from_le32, from_le64, u16_from_le, u32_from_le, u64_from_le, u16_to_le, u32_to_le, u64_to_le, lemma_le16_roundtrip, lemma_le32_roundtrip, lemma_le64_roundtrip};
use vstd::utf8::*;
use crate::binary::types::{RGB, Vector2};

verus! {

/// Why a chain of reads stopped.
pub enum Stop {
    /// A read went past the end of the buffer.
    EndOfInput,
    /// A string's bytes are not valid UTF-8.
    InvalidString,
    /// A tile entity has an unknown kind.
    InvalidEntityKind,
    /// The file does not start with the expected signature.
    BadFileSignature,
    /// The file is not a world file.
    ExpectedWorldType,
    /// The footer does not repeat the header's name and id.
    InvalidFooter,
    /// The file version is newer than the supported one.
    UnsupportedVersion(i32),
    /// A section does not end where the file's table of positions says it does.
    PositionCheckFailed(Seq<char>),
    /// The reading code would panic: an arithmetic overflow, an out-of-range index,
    /// an impossible allocation or a file feature that is not implemented.
    Panic,
}

/// A read position in a byte buffer and the reason reading stopped, if it did.
pub struct Cursor {
    pub buf: Seq<u8>,
    pub pos: int,
    pub stop: Option<Stop>,
}

impl Cursor {
    /// A fresh cursor at `pos`.
    pub open spec fn at(buf: Seq<u8>, pos: int) -> Cursor {
        Cursor { buf, pos, stop: None }
    }

    /// No read has failed yet.
    pub open spec fn ok(self) -> bool {
        self.stop is None
    }

    /// Stop with `s`, unless already stopped.
    pub open spec fn halt(self, s: Stop) -> Cursor {
        if self.ok() {
            Cursor { stop: Some(s), ..self }
        } else {
            self
        }
    }

    /// The cursor moved to `pos`, unless already stopped (as `seek` does).
    pub open spec fn goto(self, pos: int) -> Cursor {
        if self.ok() {
            Cursor { pos, ..self }
        } else {
            self
        }
    }
}

/// Takes `n` bytes. The position moves by `n` even when the bytes are not there;
/// a position past `usize::MAX` is an overflow.
pub open spec fn take(c: Cursor, n: int) -> (Cursor, Seq<u8>) {
    if !c.ok() {
        (c, Seq::empty())
    } else if c.pos + n > usize::MAX {
        (c.halt(Stop::Panic), Seq::empty())
    } else if c.pos + n <= c.buf.len() {
        (Cursor { pos: c.pos + n, ..c }, c.buf.subrange(c.pos, c.pos + n))
    } else {
        (Cursor { pos: c.pos + n, stop: Some(Stop::EndOfInput), ..c }, Seq::empty())
    }
}

/// Moves the position by `n` without looking at the bytes.
pub open spec fn skip(c: Cursor, n: int) -> Cursor {
    if !c.ok() {
        c
    } else if c.pos + n > usize::MAX {
        c.halt(Stop::Panic)
    } else {
        Cursor { pos: c.pos + n, ..c }
    }
}

pub open spec fn read_u8(c: Cursor) -> (Cursor, u8) {
    let (c1, b) = take(c, 1);
    (c1, if c1.ok() { b[0] } else { 0 })
}

pub open spec fn read_bool(c: Cursor) -> (Cursor, bool) {
    let (c1, b) = read_u8(c);
    (c1, b != 0)
}

pub open spec fn read_i8(c: Cursor) -> (Cursor, i8) {
    let (c1, b) = read_u8(c);
    (c1, b as i8)
}

pub open spec fn read_u16(c: Cursor) -> (Cursor, u16) {
    let (c1, b) = take(c, 2);
    (c1, if c1.ok() { from_le16(b) } else { 0 })
}

pub open spec fn read_i16(c: Cursor) -> (Cursor, i16) {
    let (c1, v) = read_u16(c);
    (c1, v as i16)
}

pub open spec fn read_u32(c: Cursor) -> (Cursor, u32) {
    let (c1, b) = take(c, 4);
    (c1, if c1.ok() { from_le32(b) } else { 0 })
}

pub open spec fn read_i32(c: Cursor) -> (Cursor, i32) {
    let (c1, v) = read_u32(c);
    (c1, v as i32)
}

pub open spec fn read_u64(c: Cursor) -> (Cursor, u64) {
    let (c1, b) = take(c, 8);
    (c1, if c1.ok() { from_le64(b) } else { 0 })
}

pub open spec fn read_i64(c: Cursor) -> (Cursor, i64) {
    let (c1, v) = read_u64(c);
    (c1, v as i64)
}

/// Three bytes: red, green, blue.
pub open spec fn read_rgb(c: Cursor) -> (Cursor, RGB) {
    let (c1, r) = read_u8(c);
    let (c2, g) = read_u8(c1);
    let (c3, b) = read_u8(c2);
    (c3, RGB(r, g, b))
}

/// Two little-endian `f32` bit patterns.
pub open spec fn read_vector2(c: Cursor) -> (Cursor, Vector2) {
    let (c1, x) = read_u32(c);
    let (c2, y) = read_u32(c1);
    (c2, Vector2(x, y))
}

/// The continuation of a 7-bit length after its first byte: while the bit at `shift`
/// is set, it is cleared and the next byte is placed at `shift`. Testing a bit at 64
/// or above overflows.
pub open spec fn length_rest(c: Cursor, length: u64, shift: int) -> (Cursor, u64)
    decreases 71 - shift,
{
    if !c.ok() {
        (c, length)
    } else if shift < 0 || shift >= 64 {
        (c.halt(Stop::Panic), length)
    } else if length & (1u64 << (shift as u64)) == 0 {
        (c, length)
    } else {
        let (c1, b) = read_u8(c);
        if !c1.ok() {
            (c1, length)
        } else {
            length_rest(
                c1,
                (length & !(1u64 << (shift as u64))) | ((b as u64) << (shift as u64)),
                shift + 7,
            )
        }
    }
}

/// A length written in 7-bit groups, least significant group first, the high bit of
/// each byte telling that another byte follows.
pub open spec fn read_length(c: Cursor) -> (Cursor, usize) {
    let (c1, b) = read_u8(c);
    let (c2, n) = length_rest(c1, b as u64, 7);
    (c2, n as usize)
}

/// The bytes of a length-prefixed string.
pub open spec fn string_bytes(c: Cursor) -> (Cursor, Seq<u8>) {
    let (c1, n) = read_length(c);
    take(c1, n as int)
}

/// A length-prefixed string whose invalid UTF-8 reads as the empty string.
pub open spec fn read_string_lenient(c: Cursor) -> (Cursor, Seq<char>) {
    let (c1, b) = string_bytes(c);
    (c1, if c1.ok() && valid_utf8(b) { decode_utf8(b) } else { Seq::empty() })
}

/// A length-prefixed string whose invalid UTF-8 stops reading.
pub open spec fn read_string_strict(c: Cursor) -> (Cursor, Seq<char>) {
    let (c1, b) = string_bytes(c);
    if !c1.ok() {
        (c1, Seq::empty())
    } else if valid_utf8(b) {
        (c1, decode_utf8(b))
    } else {
        (c1.halt(Stop::InvalidString), Seq::empty())
    }
}


/// Reading a length moves forward and leaves the buffer alone.
pub proof fn lemma_length_rest_forward(c: Cursor, length: u64, shift: int)
    ensures
        length_rest(c, length, shift).0.buf == c.buf,
        length_rest(c, length, shift).0.pos >= c.pos,
    decreases 71 - shift,
{
    if c.ok() && 0 <= shift < 64 && length & (1u64 << (shift as u64)) != 0 {
        let (c1, b) = read_u8(c);
        if c1.ok() {
            lemma_length_rest_forward(
                c1,
                (length & !(1u64 << (shift as u64))) | ((b as u64) << (shift as u64)),
                shift + 7,
            );
        }
    }
}

/// Reading a string moves forward and leaves the buffer alone.
pub proof fn lemma_string_forward(c: Cursor)
    ensures
        string_bytes(c).0.buf == c.buf,
        string_bytes(c).0.pos >= c.pos,
        read_length(c).0.buf == c.buf,
        read_length(c).0.pos >= c.pos,
        read_string_lenient(c).0 == string_bytes(c).0,
        read_string_strict(c).0.buf == c.buf,
        read_string_strict(c).0.pos >= c.pos,
        string_bytes(c).0.ok() ==> string_bytes(c).0.pos <= c.buf.len(),
{
    let (c1, b) = read_u8(c);
    lemma_length_rest_forward(c1, b as u64, 7);
}

} // verus!
