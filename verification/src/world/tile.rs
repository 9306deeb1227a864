//! Tiles and their run-length encoding in world files and tile section messages.
use vstd::prelude::*;
use crate::binary::le::{le16, le32, le64, from_le16, from_le32, from_le64, u16_from_le, u32_from_le, u64_from_le, u16_to_le, u32_to_le, u64_to_le, lemma_le16_roundtrip, lemma_le32_roundtrip, lemma_le64_roundtrip};
use crate::binary::cursor::{Cursor, Stop, read_u8, read_i16};
use crate::binary::writer::Writer;
use crate::world::binary::{SafeReader, agrees, no_panic};
use crate::world::types::{WorldParseError, WALL_COUNT};
use crate::binary::roundtrip::{lemma_u8_at, lemma_u16_at, lemma_cast16};

verus! {

#[derive(Debug, Clone, Copy, PartialEq, Eq, Structural)]
pub enum Liquid {
    Water,
    Lava,
    Honey,
    Shimmer,
    /// No liquid.
    Empty,
}

impl Default for Liquid {
    fn default() -> (l: Self)
        ensures
            l == Liquid::Empty,
    {
        Liquid::Empty
    }
}

#[derive(Debug, Clone, Copy, PartialEq, Eq, Structural)]
pub struct Tile {
    pub id: i16,
    pub active: bool,
    pub frame_x: i16,
    pub frame_y: i16,
    pub color: u8,
    pub wall: u16,
    pub wall_color: u16,
    pub liquid: u8,
    pub liquid_kind: Liquid,
    pub wire_1: bool,
    pub wire_2: bool,
    pub wire_3: bool,
    pub wire_4: bool,
    pub actuator: bool,
    pub in_active: bool,
    pub invisible_block: bool,
    pub invisible_wall: bool,
    pub fullbright_block: bool,
    pub fullbright_wall: bool,
    pub half_brick: bool,
    pub slope: u8,
}

/// The tile whose every field is zero, false or empty.
pub open spec fn empty_tile() -> Tile {
    Tile {
        id: 0,
        active: false,
        frame_x: 0,
        frame_y: 0,
        color: 0,
        wall: 0,
        wall_color: 0,
        liquid: 0,
        liquid_kind: Liquid::Empty,
        wire_1: false,
        wire_2: false,
        wire_3: false,
        wire_4: false,
        actuator: false,
        in_active: false,
        invisible_block: false,
        invisible_wall: false,
        fullbright_block: false,
        fullbright_wall: false,
        half_brick: false,
        slope: 0,
    }
}

impl Default for Tile {
    fn default() -> (t: Self)
        ensures
            t == empty_tile(),
    {
        Tile {
            id: 0,
            active: false,
            frame_x: 0,
            frame_y: 0,
            color: 0,
            wall: 0,
            wall_color: 0,
            liquid: 0,
            liquid_kind: Liquid::Empty,
            wire_1: false,
            wire_2: false,
            wire_3: false,
            wire_4: false,
            actuator: false,
            in_active: false,
            invisible_block: false,
            invisible_wall: false,
            fullbright_block: false,
            fullbright_wall: false,
            half_brick: false,
            slope: 0,
        }
    }
}

/// The liquid that the liquid bits of the first header byte name, shimmer being
/// flagged in the third header byte instead.
pub open spec fn liquid_kind_of(bits: u8, h_3: u8) -> Liquid {
    if h_3 & 128 == 128 {
        Liquid::Shimmer
    } else if bits == 1 {
        Liquid::Water
    } else if bits == 2 {
        Liquid::Lava
    } else {
        Liquid::Honey
    }
}

/// Up to four header bytes, each present when the bit 1 of the one before is set.
pub open spec fn headers_at(c: Cursor) -> (Cursor, (u8, u8, u8, u8)) {
    let (c1, h_1) = read_u8(c);
    let (c2, h_2) = if h_1 & 1 == 1 { read_u8(c1) } else { (c1, 0u8) };
    let (c3, h_3) = if h_2 & 1 == 1 { read_u8(c2) } else { (c2, 0u8) };
    let (c4, h_4) = if h_3 & 1 == 1 { read_u8(c3) } else { (c3, 0u8) };
    (c4, (h_1, h_2, h_3, h_4))
}

/// The block of an active tile (header bit 2): its type (a byte, or an `i16` when
/// header bit 32 is set), its frame when the type's frame matters (the `y` of type 144
/// reads as 0) and `(-1, -1)` otherwise, and its paint when the third header has bit 8.
/// An inactive tile has type -1, frame `(0, 0)` and no paint. Looking up the frame
/// table with a type outside it panics.
pub open spec fn block_at(c: Cursor, h_1: u8, h_3: u8, frame_important: Seq<bool>) -> (Cursor, (i16, i16, i16, u8)) {
    if h_1 & 2 != 2 {
        (c, (-1i16, 0i16, 0i16, 0u8))
    } else {
        let (c1, id) = if h_1 & 32 == 32 {
            read_i16(c)
        } else {
            let (cc, b) = read_u8(c);
            (cc, b as i16)
        };
        let in_table = 0 <= id < frame_important.len();
        let c2 = if !in_table { c1.halt(Stop::Panic) } else { c1 };
        let (c3, frame_x, frame_y) = if in_table && frame_important[id as int] {
            let (cx, x) = read_i16(c2);
            let (cy, y) = read_i16(cx);
            (cy, x, if id == 144 { 0i16 } else { y })
        } else {
            (c2, -1i16, -1i16)
        };
        let (c4, color) = if h_3 & 8 == 8 { read_u8(c3) } else { (c3, 0u8) };
        (c4, (id, frame_x, frame_y, color))
    }
}

/// The low byte of the wall (header bit 4) and its paint (third header bit 16).
pub open spec fn wall_at(c: Cursor, h_1: u8, h_3: u8) -> (Cursor, (u16, u16)) {
    if h_1 & 4 != 4 {
        (c, (0u16, 0u16))
    } else {
        let (c1, w) = read_u8(c);
        let (c2, wc) = if h_3 & 16 == 16 { read_u8(c1) } else { (c1, 0u8) };
        (c2, (w as u16, wc as u16))
    }
}

/// The liquid amount, present when the liquid bits (8 and 16) of the first header are
/// not both clear.
pub open spec fn liquid_at(c: Cursor, h_1: u8, h_3: u8) -> (Cursor, (u8, Liquid)) {
    let bits = (h_1 & 0b11000) >> 3u8;
    if bits > 0 {
        let (c1, amount) = read_u8(c);
        (c1, (amount, liquid_kind_of(bits, h_3)))
    } else {
        (c, (0u8, Liquid::Empty))
    }
}

/// The wall with its high byte (third header bit 64, only read when the third header
/// is more than 1); a wall id at or above the wall count becomes 0.
pub open spec fn wall_high_at(c: Cursor, h_3: u8, wall_lo: u16) -> (Cursor, u16) {
    if h_3 > 1 && h_3 & 64 == 64 {
        let (c1, hi) = read_u8(c);
        let new_wall = ((hi as u16) << 8u16) | wall_lo;
        (c1, if new_wall < WALL_COUNT { new_wall } else { 0u16 })
    } else {
        (c, wall_lo)
    }
}

/// The repeat count: none when the top two header bits are 00, a byte when 01, an
/// `i16` (converted to `usize`) when 10 or 11.
pub open spec fn repeat_at(c: Cursor, h_1: u8) -> (Cursor, usize) {
    if h_1 >> 6u8 == 0 {
        (c, 0usize)
    } else if h_1 >> 6u8 == 1 {
        let (c1, b) = read_u8(c);
        (c1, b as usize)
    } else {
        let (c1, v) = read_i16(c);
        (c1, v as usize)
    }
}

/// The tile that the header bytes and the decoded parts describe.
pub open spec fn assemble(
    h: (u8, u8, u8, u8),
    block: (i16, i16, i16, u8),
    walls: (u16, u16),
    liquid: (u8, Liquid),
    wall: u16,
) -> Tile {
    let (h_1, h_2, h_3, h_4) = h;
    let n_9 = (h_2 & 0b1110000) >> 4u8;
    Tile {
        id: block.0,
        active: h_1 & 2 == 2,
        frame_x: block.1,
        frame_y: block.2,
        color: block.3,
        wall,
        wall_color: walls.1,
        liquid: liquid.0,
        liquid_kind: liquid.1,
        wire_1: h_2 > 1 && h_2 & 2 == 2,
        wire_2: h_2 > 1 && h_2 & 4 == 4,
        wire_3: h_2 > 1 && h_2 & 8 == 8,
        wire_4: h_3 > 1 && h_3 & 32 == 32,
        actuator: h_3 > 1 && h_3 & 2 == 2,
        in_active: h_3 > 1 && h_3 & 4 == 4,
        invisible_block: h_4 > 1 && h_4 & 2 == 2,
        invisible_wall: h_4 > 1 && h_4 & 4 == 4,
        fullbright_block: h_4 > 1 && h_4 & 8 == 8,
        fullbright_wall: h_4 > 1 && h_4 & 16 == 16,
        half_brick: h_2 > 1 && n_9 == 1,
        slope: if h_2 > 1 && n_9 != 0 { (n_9 - 1) as u8 } else { 0u8 },
    }
}

/// A tile and its repeat count, in the order: headers, block, wall and its paint,
/// liquid, high byte of the wall, repeat count.
#[verifier::opaque]
pub open spec fn tile_at(c: Cursor, frame_important: Seq<bool>) -> (Cursor, (Tile, usize)) {
    let (c1, h) = headers_at(c);
    let (c2, block) = block_at(c1, h.0, h.2, frame_important);
    let (c3, walls) = wall_at(c2, h.0, h.2);
    let (c4, liquid) = liquid_at(c3, h.0, h.2);
    let (c5, wall) = wall_high_at(c4, h.2, walls.0);
    let (c6, repeat) = repeat_at(c5, h.0);
    (c6, (assemble(h, block, walls, liquid, wall), repeat))
}

/// `c1` comes from `c` by reads: the same buffer, a stopped cursor kept as it is, and a
/// good one moved forward, and only to positions within the buffer.
pub open spec fn forward(c: Cursor, c1: Cursor) -> bool {
    &&& c1.buf == c.buf
    &&& !c.ok() ==> c1 == c
    &&& c1.ok() ==> c.ok() && c.pos <= c1.pos && (c1.pos == c.pos || c1.pos <= c.buf.len())
}

proof fn lemma_forward_trans(a: Cursor, b: Cursor, c: Cursor)
    requires
        forward(a, b),
        forward(b, c),
    ensures
        forward(a, c),
{
}

proof fn lemma_tile_steps(c: Cursor, h: (u8, u8, u8, u8), frame_important: Seq<bool>, wall: u16)
    ensures
        forward(c, headers_at(c).0),
        headers_at(c).0.ok() ==> c.pos < headers_at(c).0.pos <= c.buf.len(),
        forward(c, block_at(c, h.0, h.2, frame_important).0),
        forward(c, wall_at(c, h.0, h.2).0),
        forward(c, liquid_at(c, h.0, h.2).0),
        forward(c, wall_high_at(c, h.2, wall).0),
        forward(c, repeat_at(c, h.0).0),
{
}

/// Reading a tile leaves the buffer alone, keeps a stopped cursor as it is, and moves
/// a cursor that stays good forward by at least one byte, within the buffer.
pub proof fn lemma_tile_forward(c: Cursor, frame_important: Seq<bool>)
    ensures
        tile_at(c, frame_important).0.buf == c.buf,
        !c.ok() ==> tile_at(c, frame_important).0 == c,
        tile_at(c, frame_important).0.ok() ==> c.pos < tile_at(c, frame_important).0.pos
            <= c.buf.len(),
{
    reveal(tile_at);
    let (c1, h) = headers_at(c);
    lemma_tile_steps(c, h, frame_important, 0);
    let (c2, block) = block_at(c1, h.0, h.2, frame_important);
    lemma_tile_steps(c1, h, frame_important, 0);
    let (c3, walls) = wall_at(c2, h.0, h.2);
    lemma_tile_steps(c2, h, frame_important, 0);
    let (c4, liquid) = liquid_at(c3, h.0, h.2);
    lemma_tile_steps(c3, h, frame_important, 0);
    let (c5, wall) = wall_high_at(c4, h.2, walls.0);
    lemma_tile_steps(c4, h, frame_important, walls.0);
    let (c6, repeat) = repeat_at(c5, h.0);
    lemma_tile_steps(c5, h, frame_important, 0);
    lemma_forward_trans(c1, c2, c3);
    lemma_forward_trans(c1, c3, c4);
    lemma_forward_trans(c1, c4, c5);
    lemma_forward_trans(c1, c5, c6);
    assert(tile_at(c, frame_important).0 == c6);
}

/// Reads with the contract of a spec read: the buffer unchanged, the position of the
/// cursor that the spec read leaves, the error of its stop, or its value.
pub open spec fn follows<T>(r: SafeReader, r2: SafeReader, res: Result<T, WorldParseError>, c: Cursor, v: T) -> bool {
    &&& r2.buf@ == r.buf@
    &&& r2.cur == c.pos
    &&& agrees(res, c)
    &&& (res matches Ok(x) ==> x == v)
}

fn read_headers(r: &mut SafeReader) -> (res: Result<(u8, u8, u8, u8), WorldParseError>)
    requires
        no_panic(headers_at(old(r).cursor()).0),
    ensures
        follows(*old(r), *final(r), res, headers_at(old(r).cursor()).0, headers_at(old(r).cursor()).1),
{
    let h_1 = r.read_byte()?;
    let h_2 = if h_1 & 1 == 1 { r.read_byte()? } else { 0 };
    let h_3 = if h_2 & 1 == 1 { r.read_byte()? } else { 0 };
    let h_4 = if h_3 & 1 == 1 { r.read_byte()? } else { 0 };
    Ok((h_1, h_2, h_3, h_4))
}

fn read_block(r: &mut SafeReader, h_1: u8, h_3: u8, frame_important: &[bool]) -> (res: Result<(i16, i16, i16, u8), WorldParseError>)
    requires
        no_panic(block_at(old(r).cursor(), h_1, h_3, frame_important@).0),
    ensures
        follows(*old(r), *final(r), res, block_at(old(r).cursor(), h_1, h_3, frame_important@).0,
            block_at(old(r).cursor(), h_1, h_3, frame_important@).1),
{
    if h_1 & 2 != 2 {
        return Ok((-1, 0, 0, 0));
    }
    let id = if h_1 & 32 == 32 { r.read_i16()? } else { r.read_byte()? as i16 };
    let mut frame_x: i16 = -1;
    let mut frame_y: i16 = -1;
    if frame_important[id as usize] {
        let x = r.read_i16()?;
        let y = r.read_i16()?;
        frame_x = x;
        frame_y = if id == 144 { 0 } else { y };
    }
    let color = if h_3 & 8 == 8 { r.read_byte()? } else { 0 };
    Ok((id, frame_x, frame_y, color))
}

fn read_wall(r: &mut SafeReader, h_1: u8, h_3: u8) -> (res: Result<(u16, u16), WorldParseError>)
    requires
        no_panic(wall_at(old(r).cursor(), h_1, h_3).0),
    ensures
        follows(*old(r), *final(r), res, wall_at(old(r).cursor(), h_1, h_3).0, wall_at(old(r).cursor(), h_1, h_3).1),
{
    if h_1 & 4 != 4 {
        return Ok((0, 0));
    }
    let w = r.read_byte()? as u16;
    let wc = if h_3 & 16 == 16 { r.read_byte()? as u16 } else { 0 };
    Ok((w, wc))
}

fn read_liquid(r: &mut SafeReader, h_1: u8, h_3: u8) -> (res: Result<(u8, Liquid), WorldParseError>)
    requires
        no_panic(liquid_at(old(r).cursor(), h_1, h_3).0),
    ensures
        follows(*old(r), *final(r), res, liquid_at(old(r).cursor(), h_1, h_3).0, liquid_at(old(r).cursor(), h_1, h_3).1),
{
    let liquid_bits = (h_1 & 0b11000) >> 3;
    if liquid_bits > 0 {
        let kind = if h_3 & 128 == 128 {
            Liquid::Shimmer
        } else if liquid_bits == 1 {
            Liquid::Water
        } else if liquid_bits == 2 {
            Liquid::Lava
        } else {
            Liquid::Honey
        };
        let amount = r.read_byte()?;
        Ok((amount, kind))
    } else {
        Ok((0, Liquid::Empty))
    }
}

fn read_wall_high(r: &mut SafeReader, h_3: u8, wall: u16) -> (res: Result<u16, WorldParseError>)
    requires
        no_panic(wall_high_at(old(r).cursor(), h_3, wall).0),
    ensures
        follows(*old(r), *final(r), res, wall_high_at(old(r).cursor(), h_3, wall).0, wall_high_at(old(r).cursor(), h_3, wall).1),
{
    if h_3 > 1 && h_3 & 64 == 64 {
        let new_wall = (r.read_byte()? as u16) << 8 | wall;
        Ok(if new_wall < WALL_COUNT { new_wall } else { 0 })
    } else {
        Ok(wall)
    }
}

fn read_repeat(r: &mut SafeReader, h_1: u8) -> (res: Result<usize, WorldParseError>)
    requires
        no_panic(repeat_at(old(r).cursor(), h_1).0),
    ensures
        follows(*old(r), *final(r), res, repeat_at(old(r).cursor(), h_1).0, repeat_at(old(r).cursor(), h_1).1),
{
    if h_1 >> 6 == 0 {
        Ok(0)
    } else if h_1 >> 6 == 1 {
        Ok(r.read_byte()? as usize)
    } else {
        Ok(r.read_i16()? as usize)
    }
}

impl Tile {
    /// Reads a tile and its repeat count (see [`tile_at`]); `frame_important[id]` tells
    /// whether a tile of type `id` stores its frame.
    pub fn decode(r: &mut SafeReader, frame_important: &[bool]) -> (res: Result<(Self, usize), WorldParseError>)
        requires
            no_panic(tile_at(old(r).cursor(), frame_important@).0),
        ensures
            follows(*old(r), *final(r), res, tile_at(old(r).cursor(), frame_important@).0,
                tile_at(old(r).cursor(), frame_important@).1),
    {
        proof {
            reveal(tile_at);
        }
        let ghost c0 = r.cursor();
        let h = read_headers(r)?;
        let ghost c1 = headers_at(c0).0;
        assert(r.cursor() == c1);
        let block = read_block(r, h.0, h.2, frame_important)?;
        let ghost c2 = block_at(c1, h.0, h.2, frame_important@).0;
        assert(r.cursor() == c2);
        let walls = read_wall(r, h.0, h.2)?;
        let ghost c3 = wall_at(c2, h.0, h.2).0;
        assert(r.cursor() == c3);
        let liquid = read_liquid(r, h.0, h.2)?;
        let ghost c4 = liquid_at(c3, h.0, h.2).0;
        assert(r.cursor() == c4);
        let wall = read_wall_high(r, h.2, walls.0)?;
        let ghost c5 = wall_high_at(c4, h.2, walls.0).0;
        assert(r.cursor() == c5);
        let repeat = read_repeat(r, h.0)?;
        let (h_1, h_2, h_3, h_4) = h;
        let n_9 = (h_2 & 0b1110000) >> 4;
        let tile = Tile {
            id: block.0,
            active: h_1 & 2 == 2,
            frame_x: block.1,
            frame_y: block.2,
            color: block.3,
            wall,
            wall_color: walls.1,
            liquid: liquid.0,
            liquid_kind: liquid.1,
            wire_1: h_2 > 1 && h_2 & 2 == 2,
            wire_2: h_2 > 1 && h_2 & 4 == 4,
            wire_3: h_2 > 1 && h_2 & 8 == 8,
            wire_4: h_3 > 1 && h_3 & 32 == 32,
            actuator: h_3 > 1 && h_3 & 2 == 2,
            in_active: h_3 > 1 && h_3 & 4 == 4,
            invisible_block: h_4 > 1 && h_4 & 2 == 2,
            invisible_wall: h_4 > 1 && h_4 & 4 == 4,
            fullbright_block: h_4 > 1 && h_4 & 8 == 8,
            fullbright_wall: h_4 > 1 && h_4 & 16 == 16,
            half_brick: h_2 > 1 && n_9 == 1,
            slope: if h_2 > 1 && n_9 != 0 { n_9 - 1 } else { 0 },
        };
        Ok((tile, repeat))
    }
}

/// The liquid flags of the first and third header bytes.
pub open spec fn liquid_flags(kind: Liquid) -> (u8, u8) {
    match kind {
        Liquid::Shimmer => (8u8, 128u8),
        Liquid::Lava => (16u8, 0u8),
        Liquid::Honey => (24u8, 0u8),
        _ => (8u8, 0u8),
    }
}

/// The fourth header byte: invisibility and full-brightness flags.
#[verifier::opaque]
pub open spec fn header_4(t: Tile) -> u8 {
    let h: u8 = if t.invisible_block { 2u8 } else { 0u8 };
    let h: u8 = if t.invisible_wall { h | 4u8 } else { h };
    let h: u8 = if t.fullbright_block { h | 8u8 } else { h };
    if t.fullbright_wall { h | 16u8 } else { h }
}

/// The third header byte: paint, wall paint, shimmer, actuator, inactivity, the fourth
/// wire, the wall's high byte, and bit 1 when the fourth header is not zero.
#[verifier::opaque]
pub open spec fn header_3(t: Tile, h_4: u8) -> u8 {
    let h: u8 = if t.active && t.color > 0 { 8u8 } else { 0u8 };
    let h: u8 = if t.wall > 0 && t.wall_color > 0 { h | 16u8 } else { h };
    let h: u8 = if t.liquid > 0 { h | liquid_flags(t.liquid_kind).1 } else { h };
    let h: u8 = if t.actuator { h | 2u8 } else { h };
    let h: u8 = if t.in_active { h | 4u8 } else { h };
    let h: u8 = if t.wire_4 { h | 32u8 } else { h };
    let h: u8 = if t.wall > 255 { h | 64u8 } else { h };
    if h_4 > 0 { h | 1u8 } else { h }
}

/// The second header byte: three wires, the half brick or the slope plus one in bits
/// 16 to 64, and bit 1 when the third header is not zero.
#[verifier::opaque]
pub open spec fn header_2(t: Tile, h_3: u8) -> u8 {
    let h: u8 = if t.wire_1 { 2u8 } else { 0u8 };
    let h: u8 = if t.wire_2 { h | 4u8 } else { h };
    let h: u8 = if t.wire_3 { h | 8u8 } else { h };
    let h: u8 = if t.half_brick {
        h | 16u8
    } else if t.slope > 0 {
        h | ((((t.slope + 1) as u8) << 4u8) as u8)
    } else {
        h
    };
    if h_3 > 0 { h | 1u8 } else { h }
}

/// The first header byte: the repeat count's width in the top two bits, activity,
/// wall, liquid, a wide type, and bit 1 when the second header is not zero.
#[verifier::opaque]
pub open spec fn header_1(t: Tile, repeat: usize, h_2: u8) -> u8 {
    let h: u8 = if repeat > 0 { if repeat > 255 { 128u8 } else { 64u8 } } else { 0u8 };
    let h: u8 = if t.active { h | 2u8 } else { h };
    let h: u8 = if t.active && t.id > 255 { h | 32u8 } else { h };
    let h: u8 = if t.wall > 0 { h | 4u8 } else { h };
    let h: u8 = if t.liquid > 0 { h | liquid_flags(t.liquid_kind).0 } else { h };
    if h_2 > 0 { h | 1u8 } else { h }
}

/// The header bytes of a tile.
pub open spec fn tile_headers(t: Tile, repeat: usize) -> (u8, u8, u8, u8) {
    let h_4 = header_4(t);
    let h_3 = header_3(t, h_4);
    let h_2 = header_2(t, h_3);
    (header_1(t, repeat, h_2), h_2, h_3, h_4)
}

/// The byte `b` if `present`, else nothing.
pub open spec fn opt_byte(present: bool, b: u8) -> Seq<u8> {
    if present { seq![b] } else { Seq::empty() }
}

/// The block's bytes: the type's low byte, its high byte when it is above 255, the
/// frame when the type's frame matters, and the paint when there is one.
pub open spec fn block_bytes(t: Tile, frame_important: Seq<bool>) -> Seq<u8> {
    if t.active {
        seq![t.id as u8] + opt_byte(t.id > 255, (t.id >> 8u16) as u8) + (if frame_important[t.id as int] {
            le16(t.frame_x as u16) + le16(t.frame_y as u16)
        } else {
            Seq::empty()
        }) + opt_byte(t.color > 0, t.color)
    } else {
        Seq::empty()
    }
}

/// The bytes after the block: the wall's low byte and paint, the liquid amount, the
/// wall's high byte, the repeat count.
pub open spec fn after_block_bytes(t: Tile, repeat: usize) -> Seq<u8> {
    let walls = if t.wall > 0 {
        seq![t.wall as u8] + opt_byte(t.wall_color > 0, t.wall_color as u8)
    } else {
        Seq::empty()
    };
    let rep = if repeat > 0 {
        if repeat > 255 { le16(repeat as u16) } else { seq![repeat as u8] }
    } else {
        Seq::empty()
    };
    walls + opt_byte(t.liquid > 0, t.liquid) + opt_byte(t.wall > 255, (t.wall >> 8u16) as u8) + rep
}

/// The present header bytes: the first always, the others when not zero.
pub open spec fn header_bytes(h: (u8, u8, u8, u8)) -> Seq<u8> {
    seq![h.0] + opt_byte(h.1 > 0, h.1) + opt_byte(h.2 > 0, h.2) + opt_byte(h.3 > 0, h.3)
}

/// The encoding of a tile followed by `repeat` copies of itself: the header bytes that
/// are not zero (the first always), then the body.
pub open spec fn tile_enc(t: Tile, repeat: usize, frame_important: Seq<bool>) -> Seq<u8> {
    header_bytes(tile_headers(t, repeat)) + block_bytes(t, frame_important) + after_block_bytes(t, repeat)
}

fn write_headers(w: &mut Writer, h: (u8, u8, u8, u8))
    ensures
        final(w).dst@ == old(w).dst@ + header_bytes(h),
{
    let (h_1, h_2, h_3, h_4) = h;
    w.write_byte(h_1);
    if h_2 > 0 {
        w.write_byte(h_2);
    }
    if h_3 > 0 {
        w.write_byte(h_3);
    }
    if h_4 > 0 {
        w.write_byte(h_4);
    }
    assert(w.dst@ =~= old(w).dst@ + header_bytes(h));
}

impl Tile {
    fn header_4(&self) -> (h: u8)
        ensures
            h == header_4(*self),
    {
        proof {
            reveal(header_4);
        }
        let h: u8 = if self.invisible_block { 2 } else { 0 };
        let h: u8 = if self.invisible_wall { h | 4 } else { h };
        let h: u8 = if self.fullbright_block { h | 8 } else { h };
        if self.fullbright_wall { h | 16 } else { h }
    }

    fn header_3(&self, h_4: u8) -> (h: u8)
        ensures
            h == header_3(*self, h_4),
    {
        proof {
            reveal(header_3);
        }
        let h: u8 = if self.active && self.color > 0 { 8 } else { 0 };
        let h: u8 = if self.wall > 0 && self.wall_color > 0 { h | 16 } else { h };
        let f_3: u8 = match self.liquid_kind {
            Liquid::Shimmer => 128,
            _ => 0,
        };
        let h: u8 = if self.liquid > 0 { h | f_3 } else { h };
        let h: u8 = if self.actuator { h | 2 } else { h };
        let h: u8 = if self.in_active { h | 4 } else { h };
        let h: u8 = if self.wire_4 { h | 32 } else { h };
        let h: u8 = if self.wall > 255 { h | 64 } else { h };
        if h_4 > 0 { h | 1 } else { h }
    }

    fn header_2(&self, h_3: u8) -> (h: u8)
        requires
            !self.half_brick && self.slope > 0 ==> self.slope < 255,
        ensures
            h == header_2(*self, h_3),
    {
        proof {
            reveal(header_2);
        }
        let h: u8 = if self.wire_1 { 2 } else { 0 };
        let h: u8 = if self.wire_2 { h | 4 } else { h };
        let h: u8 = if self.wire_3 { h | 8 } else { h };
        let h: u8 = if self.half_brick {
            h | 16
        } else if self.slope > 0 {
            h | (self.slope + 1) << 4
        } else {
            h
        };
        if h_3 > 0 { h | 1 } else { h }
    }

    fn header_1(&self, repeat: usize, h_2: u8) -> (h: u8)
        ensures
            h == header_1(*self, repeat, h_2),
    {
        proof {
            reveal(header_1);
        }
        let h: u8 = if repeat > 0 { if repeat > 255 { 128 } else { 64 } } else { 0 };
        let h: u8 = if self.active { h | 2 } else { h };
        let h: u8 = if self.active && self.id > 255 { h | 32 } else { h };
        let h: u8 = if self.wall > 0 { h | 4 } else { h };
        let f_1: u8 = match self.liquid_kind {
            Liquid::Lava => 16,
            Liquid::Honey => 24,
            _ => 8,
        };
        let h: u8 = if self.liquid > 0 { h | f_1 } else { h };
        if h_2 > 0 { h | 1 } else { h }
    }

    fn write_block(&self, w: &mut Writer, frame_important: &[bool])
        requires
            self.active ==> 0 <= self.id < frame_important@.len(),
        ensures
            final(w).dst@ == old(w).dst@ + block_bytes(*self, frame_important@),
    {
        if self.active {
            w.write_byte(self.id as u8);
            if self.id > 255 {
                w.write_byte((self.id >> 8) as u8);
            }
            if frame_important[self.id as usize] {
                w.write_i16(self.frame_x);
                w.write_i16(self.frame_y);
            }
            if self.color > 0 {
                w.write_byte(self.color);
            }
        }
        assert(w.dst@ =~= old(w).dst@ + block_bytes(*self, frame_important@));
    }

    fn write_after_block(&self, w: &mut Writer, repeat: usize)
        ensures
            final(w).dst@ == old(w).dst@ + after_block_bytes(*self, repeat),
    {
        let ghost start = w.dst@;
        if self.wall > 0 {
            w.write_byte(self.wall as u8);
            if self.wall_color > 0 {
                w.write_byte(self.wall_color as u8);
            }
        }
        let ghost a = w.dst@;
        assert(a =~= start + (if self.wall > 0 {
            seq![self.wall as u8] + opt_byte(self.wall_color > 0, self.wall_color as u8)
        } else {
            Seq::<u8>::empty()
        }));
        if self.liquid > 0 {
            w.write_byte(self.liquid);
        }
        if self.wall > 255 {
            w.write_byte((self.wall >> 8) as u8);
        }
        let ghost b = w.dst@;
        assert(b =~= a + opt_byte(self.liquid > 0, self.liquid) + opt_byte(self.wall > 255, (self.wall >> 8u16) as u8));
        if repeat > 0 {
            if repeat > 255 {
                w.write_u16(repeat as u16);
            } else {
                w.write_byte(repeat as u8);
            }
        }
        assert(w.dst@ =~= b + (if repeat > 0 {
            if repeat > 255 { le16(repeat as u16) } else { seq![repeat as u8] }
        } else {
            Seq::<u8>::empty()
        }));
        assert(w.dst@ =~= start + after_block_bytes(*self, repeat));
    }

    /// Writes the tile followed by `repeat` copies of itself (see [`tile_enc`]).
    pub fn encode(&self, w: &mut Writer, repeat: usize, frame_important: &[bool])
        requires
            self.active ==> 0 <= self.id < frame_important@.len(),
            !self.half_brick && self.slope > 0 ==> self.slope < 255,
        ensures
            final(w).dst@ == old(w).dst@ + tile_enc(*self, repeat, frame_important@),
    {
        let h_4 = self.header_4();
        let h_3 = self.header_3(h_4);
        let h_2 = self.header_2(h_3);
        let h_1 = self.header_1(repeat, h_2);
        write_headers(w, (h_1, h_2, h_3, h_4));
        self.write_block(w, frame_important);
        self.write_after_block(w, repeat);
        assert(w.dst@ =~= old(w).dst@ + tile_enc(*self, repeat, frame_important@));
    }
}

/// Two tiles count as the same for run-length compression: equal activity, paint,
/// wall, wall paint, liquid kind, wiring, shape and visibility, and, where they are
/// active, equal type and frame. Identical tiles are always the same.
pub open spec fn same_tile(a: Tile, b: Tile) -> bool {
    &&& a.slope == b.slope
    &&& a.color == b.color
    &&& a.active == b.active
    &&& a.in_active == b.in_active
    &&& a.wire_1 == b.wire_1
    &&& a.wire_2 == b.wire_2
    &&& a.wire_3 == b.wire_3
    &&& a.half_brick == b.half_brick
    &&& a.actuator == b.actuator
    &&& a.fullbright_wall == b.fullbright_wall
    &&& a.active ==> a.id == b.id && a.frame_x == b.frame_x && a.frame_y == b.frame_y
    &&& a.wall == b.wall
    &&& a.liquid_kind == b.liquid_kind
    &&& a.wall_color == b.wall_color
    &&& a.wire_4 == b.wire_4
    &&& a.invisible_block == b.invisible_block
    &&& a.invisible_wall == b.invisible_wall
    &&& a.fullbright_block == b.fullbright_block
}

/// Identical tiles are the same, active or not.
pub proof fn lemma_same_tile_reflexive(t: Tile)
    ensures
        same_tile(t, t),
{
}

impl Tile {
    /// Whether `other` counts as the same tile (see [`same_tile`]).
    pub fn is(&self, other: &Tile) -> (r: bool)
        ensures
            r == same_tile(*self, *other),
    {
        if !(self.slope == other.slope && self.color == other.color && self.active == other.active
            && self.in_active == other.in_active && self.wire_1 == other.wire_1 && self.wire_2
            == other.wire_2 && self.wire_3 == other.wire_3 && self.half_brick == other.half_brick
            && self.actuator == other.actuator && self.slope == other.slope && self.fullbright_wall
            == other.fullbright_wall && (!self.active || (self.id == other.id && self.frame_x
            == other.frame_x && self.frame_y == other.frame_y)) && self.wall == other.wall
            && self.liquid_kind == other.liquid_kind) {
            return false;
        }
        self.wall_color == other.wall_color && self.wire_4 == other.wire_4 && self.invisible_block
            == other.invisible_block && self.invisible_wall == other.invisible_wall
            && self.fullbright_block == other.fullbright_block && self.fullbright_wall
            == other.fullbright_wall
    }
}

// ---------------------------------------------------------------------------------
// Reading back what was written

proof fn lemma_header_4_bits(ib: bool, iw: bool, fb: bool, fw: bool)
    by (bit_vector)
    ensures
        ({
            let h: u8 = if ib { 2u8 } else { 0u8 };
            let h: u8 = if iw { h | 4u8 } else { h };
            let h: u8 = if fb { h | 8u8 } else { h };
            let h4: u8 = if fw { h | 16u8 } else { h };
            &&& h4 & 1 == 0
            &&& (h4 > 0) == (ib || iw || fb || fw)
            &&& (h4 > 1 && h4 & 2 == 2) == ib
            &&& (h4 > 1 && h4 & 4 == 4) == iw
            &&& (h4 > 1 && h4 & 8 == 8) == fb
            &&& (h4 > 1 && h4 & 16 == 16) == fw
        }),
{
}

proof fn lemma_header_3_bits(
    paint: bool,
    wall_paint: bool,
    wet: bool,
    shimmer_flag: u8,
    act: bool,
    ina: bool,
    w4: bool,
    high_wall: bool,
    h4: u8,
)
    by (bit_vector)
    requires
        shimmer_flag == 0 || shimmer_flag == 128,
    ensures
        ({
            let h: u8 = if paint { 8u8 } else { 0u8 };
            let h: u8 = if wall_paint { h | 16u8 } else { h };
            let h: u8 = if wet { h | shimmer_flag } else { h };
            let h: u8 = if act { h | 2u8 } else { h };
            let h: u8 = if ina { h | 4u8 } else { h };
            let h: u8 = if w4 { h | 32u8 } else { h };
            let h: u8 = if high_wall { h | 64u8 } else { h };
            let h3: u8 = if h4 > 0 { h | 1u8 } else { h };
            &&& (h3 & 1 == 1) == (h4 > 0)
            &&& (h3 > 0) == (paint || wall_paint || (wet && shimmer_flag == 128) || act || ina || w4 || high_wall
                || h4 > 0)
            &&& (h3 & 8 == 8) == paint
            &&& (h3 & 16 == 16) == wall_paint
            &&& (h3 & 128 == 128) == (wet && shimmer_flag == 128)
            &&& (h3 > 1 && h3 & 2 == 2) == act
            &&& (h3 > 1 && h3 & 4 == 4) == ina
            &&& (h3 > 1 && h3 & 32 == 32) == w4
            &&& (h3 > 1 && h3 & 64 == 64) == high_wall
        }),
{
}

proof fn lemma_header_2_bits(w1: bool, w2: bool, w3: bool, hb: bool, slope: u8, h3: u8)
    by (bit_vector)
    requires
        slope <= 6,
        hb ==> slope == 0,
    ensures
        ({
            let h: u8 = if w1 { 2u8 } else { 0u8 };
            let h: u8 = if w2 { h | 4u8 } else { h };
            let h: u8 = if w3 { h | 8u8 } else { h };
            let h: u8 = if hb {
                h | 16u8
            } else if slope > 0 {
                h | ((((slope + 1) as u8) << 4u8) as u8)
            } else {
                h
            };
            let h2: u8 = if h3 > 0 { h | 1u8 } else { h };
            let n_9 = (h2 & 0b1110000) >> 4u8;
            &&& (h2 & 1 == 1) == (h3 > 0)
            &&& (h2 > 0) == (w1 || w2 || w3 || hb || slope > 0 || h3 > 0)
            &&& (h2 > 1 && h2 & 2 == 2) == w1
            &&& (h2 > 1 && h2 & 4 == 4) == w2
            &&& (h2 > 1 && h2 & 8 == 8) == w3
            &&& (h2 > 1 && n_9 == 1) == hb
            &&& (if h2 > 1 && n_9 != 0 { (n_9 - 1) as u8 } else { 0u8 }) == slope
        }),
{
}

proof fn lemma_header_1_bits(repeat: usize, act: bool, wide: bool, walled: bool, wet: bool, liquid_flag: u8, h2: u8)
    by (bit_vector)
    requires
        liquid_flag == 8 || liquid_flag == 16 || liquid_flag == 24,
    ensures
        ({
            let h: u8 = if repeat > 0 { if repeat > 255 { 128u8 } else { 64u8 } } else { 0u8 };
            let h: u8 = if act { h | 2u8 } else { h };
            let h: u8 = if wide { h | 32u8 } else { h };
            let h: u8 = if walled { h | 4u8 } else { h };
            let h: u8 = if wet { h | liquid_flag } else { h };
            let h1: u8 = if h2 > 0 { h | 1u8 } else { h };
            &&& (h1 & 1 == 1) == (h2 > 0)
            &&& (h1 & 2 == 2) == act
            &&& (h1 & 32 == 32) == wide
            &&& (h1 & 4 == 4) == walled
            &&& (h1 & 0b11000) >> 3u8 == (if !wet {
                0u8
            } else if liquid_flag == 8 {
                1u8
            } else if liquid_flag == 16 {
                2u8
            } else {
                3u8
            })
            &&& h1 >> 6u8 == (if repeat > 0 { if repeat > 255 { 2u8 } else { 1u8 } } else { 0u8 })
        }),
{
}

proof fn lemma_tile_casts(id: i16, wall: u16, wall_color: u16, repeat: usize)
    by (bit_vector)
    ensures
        0 <= id ==> (id as u8) == ((id as u16) & 0xff) as u8 && ((id >> 8u16) as u8) == (((id as u16) >> 8u16)
            & 0xff) as u8,
        0 <= id <= 255 ==> (id as u8) as i16 == id,
        ((((wall >> 8u16) as u8) as u16) << 8u16) | ((wall as u8) as u16) == wall,
        wall <= 255 ==> (wall as u8) as u16 == wall,
        wall_color < 256 ==> (wall_color as u8) as u16 == wall_color,
        256 <= repeat <= 32767 ==> ((repeat as u16) as i16) as usize == repeat,
        1 <= repeat <= 255 ==> (repeat as u8) as usize == repeat,
{
}

/// A tile as reading gives it back: an active tile's type is in the frame table and
/// its frame is `(-1, -1)` when the type's frame does not matter (and its `y` is 0 for
/// type 144); an inactive tile has type -1, frame `(0, 0)` and no paint; the wall is a
/// known wall, painted only when there is one, with a paint that fits a byte; there is
/// liquid exactly when it has a kind; a half brick has no slope, and a slope is at most
/// 6.
pub open spec fn canonical_tile(t: Tile, frame_important: Seq<bool>) -> bool {
    &&& if t.active {
        &&& 0 <= t.id < frame_important.len()
        &&& if frame_important[t.id as int] {
            t.id == 144 ==> t.frame_y == 0
        } else {
            t.frame_x == -1 && t.frame_y == -1
        }
    } else {
        t.id == -1 && t.frame_x == 0 && t.frame_y == 0 && t.color == 0
    }
    &&& t.wall < WALL_COUNT
    &&& t.wall_color < 256
    &&& t.wall == 0 ==> t.wall_color == 0
    &&& (t.liquid == 0) == (t.liquid_kind == Liquid::Empty)
    &&& t.half_brick ==> t.slope == 0
    &&& t.slope <= 6
}

proof fn lemma_headers_read(buf: Seq<u8>, p: int, h: (u8, u8, u8, u8))
    requires
        0 <= p,
        p + header_bytes(h).len() <= buf.len() <= usize::MAX,
        buf.subrange(p, p + header_bytes(h).len()) == header_bytes(h),
        (h.0 & 1 == 1) == (h.1 > 0),
        (h.1 & 1 == 1) == (h.2 > 0),
        (h.2 & 1 == 1) == (h.3 > 0),
    ensures
        headers_at(Cursor::at(buf, p)) == (Cursor::at(buf, p + header_bytes(h).len()), h),
{
    let hb = header_bytes(h);
    assert(buf[p] == hb[0]);
    lemma_u8_at(buf, p);
    let mut q = p + 1;
    if h.1 > 0 {
        assert(buf[q] == hb[q - p]);
        lemma_u8_at(buf, q);
        q = q + 1;
    }
    if h.2 > 0 {
        assert(buf[q] == hb[q - p]);
        lemma_u8_at(buf, q);
        q = q + 1;
    }
    if h.3 > 0 {
        assert(buf[q] == hb[q - p]);
        lemma_u8_at(buf, q);
    }
}

proof fn lemma_sub_piece(buf: Seq<u8>, q: int, whole: Seq<u8>, off: int, piece: Seq<u8>)
    requires
        0 <= q,
        q + whole.len() <= buf.len(),
        buf.subrange(q, q + whole.len()) == whole,
        0 <= off,
        off + piece.len() <= whole.len(),
        whole.subrange(off, off + piece.len()) == piece,
    ensures
        buf.subrange(q + off, q + off + piece.len()) == piece,
{
    assert forall|j: int| 0 <= j < piece.len() implies buf.subrange(q + off, q + off + piece.len())[j] == piece[j] by {
        assert(buf.subrange(q, q + whole.len())[off + j] == whole[off + j]);
        assert(whole.subrange(off, off + piece.len())[j] == whole[off + j]);
    }
    assert(buf.subrange(q + off, q + off + piece.len()) =~= piece);
}

proof fn lemma_block_read(buf: Seq<u8>, q: int, t: Tile, fi: Seq<bool>, h_1: u8, h_3: u8)
    requires
        canonical_tile(t, fi),
        (h_1 & 2 == 2) == t.active,
        (h_1 & 32 == 32) == (t.active && t.id > 255),
        (h_3 & 8 == 8) == (t.active && t.color > 0),
        0 <= q,
        q + block_bytes(t, fi).len() <= buf.len() <= usize::MAX,
        buf.subrange(q, q + block_bytes(t, fi).len()) == block_bytes(t, fi),
    ensures
        block_at(Cursor::at(buf, q), h_1, h_3, fi) == (
            Cursor::at(buf, q + block_bytes(t, fi).len()),
            (t.id, t.frame_x, t.frame_y, t.color),
        ),
{
    if t.active {
        let bb = block_bytes(t, fi);
        let idb = seq![t.id as u8] + opt_byte(t.id > 255, (t.id >> 8u16) as u8);
        let fr = if fi[t.id as int] {
            le16(t.frame_x as u16) + le16(t.frame_y as u16)
        } else {
            Seq::empty()
        };
        let col = opt_byte(t.color > 0, t.color);
        assert(bb =~= idb + fr + col);
        assert(bb.subrange(0, idb.len() as int) =~= idb);
        lemma_sub_piece(buf, q, bb, 0, idb);
        assert(bb.subrange(idb.len() as int, (idb.len() + fr.len()) as int) =~= fr);
        lemma_sub_piece(buf, q, bb, idb.len() as int, fr);
        assert(bb.subrange((idb.len() + fr.len()) as int, (idb.len() + fr.len() + col.len()) as int) =~= col);
        lemma_sub_piece(buf, q, bb, (idb.len() + fr.len()) as int, col);
        lemma_tile_casts(t.id, 0, 0, 0);
        let k = q + idb.len();
        if t.id > 255 {
            assert(buf.subrange(q, q + 2) =~= le16(t.id as u16));
            lemma_u16_at(buf, q, t.id as u16);
            lemma_cast16(t.id);
        } else {
            assert(buf[q] == idb[0]);
            lemma_u8_at(buf, q);
        }
        if fi[t.id as int] {
            assert(fr.subrange(0, 2) =~= le16(t.frame_x as u16));
            lemma_sub_piece(buf, k, fr, 0, le16(t.frame_x as u16));
            lemma_u16_at(buf, k, t.frame_x as u16);
            lemma_cast16(t.frame_x);
            assert(fr.subrange(2, 4) =~= le16(t.frame_y as u16));
            lemma_sub_piece(buf, k, fr, 2, le16(t.frame_y as u16));
            lemma_u16_at(buf, k + 2, t.frame_y as u16);
            lemma_cast16(t.frame_y);
        }
        let k2 = k + fr.len();
        if t.color > 0 {
            assert(buf[k2] == col[0]);
            lemma_u8_at(buf, k2);
        }
    }
}

/// The wall bytes of a tile: the low byte and the paint.
pub open spec fn wall_bytes(t: Tile) -> Seq<u8> {
    if t.wall > 0 {
        seq![t.wall as u8] + opt_byte(t.wall_color > 0, t.wall_color as u8)
    } else {
        Seq::empty()
    }
}

/// The repeat count's bytes.
pub open spec fn repeat_bytes(repeat: usize) -> Seq<u8> {
    if repeat > 0 {
        if repeat > 255 { le16(repeat as u16) } else { seq![repeat as u8] }
    } else {
        Seq::empty()
    }
}

proof fn lemma_walls_read(buf: Seq<u8>, q: int, t: Tile, h_1: u8, h_3: u8)
    requires
        t.wall_color < 256,
        t.wall == 0 ==> t.wall_color == 0,
        (h_1 & 4 == 4) == (t.wall > 0),
        (h_3 & 16 == 16) == (t.wall > 0 && t.wall_color > 0),
        0 <= q,
        q + wall_bytes(t).len() <= buf.len() <= usize::MAX,
        buf.subrange(q, q + wall_bytes(t).len()) == wall_bytes(t),
    ensures
        wall_at(Cursor::at(buf, q), h_1, h_3) == (
            Cursor::at(buf, q + wall_bytes(t).len()),
            (if t.wall > 0 { (t.wall as u8) as u16 } else { 0u16 }, t.wall_color),
        ),
{
    let wb = wall_bytes(t);
    lemma_tile_casts(0, t.wall, t.wall_color, 0);
    if t.wall > 0 {
        assert(buf.subrange(q, q + wb.len())[0] == wb[0]);
        lemma_u8_at(buf, q);
        if t.wall_color > 0 {
            assert(buf.subrange(q, q + wb.len())[1] == wb[1]);
            lemma_u8_at(buf, q + 1);
        }
    }
}

proof fn lemma_liquid_read(buf: Seq<u8>, q: int, t: Tile, h_1: u8, h_3: u8)
    requires
        (t.liquid == 0) == (t.liquid_kind == Liquid::Empty),
        (h_1 & 0b11000) >> 3u8 == (if t.liquid == 0 {
            0u8
        } else if liquid_flags(t.liquid_kind).0 == 8 {
            1u8
        } else if liquid_flags(t.liquid_kind).0 == 16 {
            2u8
        } else {
            3u8
        }),
        (h_3 & 128 == 128) == (t.liquid > 0 && liquid_flags(t.liquid_kind).1 == 128),
        0 <= q,
        q + opt_byte(t.liquid > 0, t.liquid).len() <= buf.len() <= usize::MAX,
        buf.subrange(q, q + opt_byte(t.liquid > 0, t.liquid).len()) == opt_byte(t.liquid > 0, t.liquid),
    ensures
        liquid_at(Cursor::at(buf, q), h_1, h_3) == (
            Cursor::at(buf, q + opt_byte(t.liquid > 0, t.liquid).len()),
            (t.liquid, t.liquid_kind),
        ),
{
    if t.liquid > 0 {
        assert(buf.subrange(q, q + 1)[0] == t.liquid);
        lemma_u8_at(buf, q);
    }
}

proof fn lemma_high_read(buf: Seq<u8>, q: int, t: Tile, h_3: u8)
    requires
        t.wall < WALL_COUNT,
        (h_3 > 1 && h_3 & 64 == 64) == (t.wall > 255),
        0 <= q,
        q + opt_byte(t.wall > 255, (t.wall >> 8u16) as u8).len() <= buf.len() <= usize::MAX,
        buf.subrange(q, q + opt_byte(t.wall > 255, (t.wall >> 8u16) as u8).len()) == opt_byte(
            t.wall > 255,
            (t.wall >> 8u16) as u8,
        ),
    ensures
        wall_high_at(Cursor::at(buf, q), h_3, if t.wall > 0 { (t.wall as u8) as u16 } else { 0u16 }) == (
            Cursor::at(buf, q + opt_byte(t.wall > 255, (t.wall >> 8u16) as u8).len()),
            t.wall,
        ),
{
    lemma_tile_casts(0, t.wall, 0, 0);
    if t.wall > 255 {
        assert(buf.subrange(q, q + 1)[0] == (t.wall >> 8u16) as u8);
        lemma_u8_at(buf, q);
    }
}

proof fn lemma_repeat_read(buf: Seq<u8>, q: int, repeat: usize, h_1: u8)
    requires
        repeat <= 32767,
        h_1 >> 6u8 == (if repeat > 0 { if repeat > 255 { 2u8 } else { 1u8 } } else { 0u8 }),
        0 <= q,
        q + repeat_bytes(repeat).len() <= buf.len() <= usize::MAX,
        buf.subrange(q, q + repeat_bytes(repeat).len()) == repeat_bytes(repeat),
    ensures
        repeat_at(Cursor::at(buf, q), h_1) == (Cursor::at(buf, q + repeat_bytes(repeat).len()), repeat),
{
    lemma_tile_casts(0, 0, 0, repeat);
    if repeat > 255 {
        lemma_u16_at(buf, q, repeat as u16);
    } else if repeat > 0 {
        assert(buf.subrange(q, q + 1)[0] == repeat as u8);
        lemma_u8_at(buf, q);
    }
}

proof fn lemma_header_4(t: Tile)
    ensures
        header_4(t) & 1 == 0,
        (header_4(t) > 0) == (t.invisible_block || t.invisible_wall || t.fullbright_block || t.fullbright_wall),
        (header_4(t) > 1 && header_4(t) & 2 == 2) == t.invisible_block,
        (header_4(t) > 1 && header_4(t) & 4 == 4) == t.invisible_wall,
        (header_4(t) > 1 && header_4(t) & 8 == 8) == t.fullbright_block,
        (header_4(t) > 1 && header_4(t) & 16 == 16) == t.fullbright_wall,
{
    reveal(header_4);
    lemma_header_4_bits(t.invisible_block, t.invisible_wall, t.fullbright_block, t.fullbright_wall);
}

proof fn lemma_header_3(t: Tile, h4: u8)
    ensures
        (header_3(t, h4) & 1 == 1) == (h4 > 0),
        (header_3(t, h4) > 0) == ((t.active && t.color > 0) || (t.wall > 0 && t.wall_color > 0) || (t.liquid
            > 0 && liquid_flags(t.liquid_kind).1 == 128) || t.actuator || t.in_active || t.wire_4 || t.wall > 255
            || h4 > 0),
        (header_3(t, h4) & 8 == 8) == (t.active && t.color > 0),
        (header_3(t, h4) & 16 == 16) == (t.wall > 0 && t.wall_color > 0),
        (header_3(t, h4) & 128 == 128) == (t.liquid > 0 && liquid_flags(t.liquid_kind).1 == 128),
        (header_3(t, h4) > 1 && header_3(t, h4) & 2 == 2) == t.actuator,
        (header_3(t, h4) > 1 && header_3(t, h4) & 4 == 4) == t.in_active,
        (header_3(t, h4) > 1 && header_3(t, h4) & 32 == 32) == t.wire_4,
        (header_3(t, h4) > 1 && header_3(t, h4) & 64 == 64) == (t.wall > 255),
{
    reveal(header_3);
    lemma_header_3_bits(
        t.active && t.color > 0,
        t.wall > 0 && t.wall_color > 0,
        t.liquid > 0,
        liquid_flags(t.liquid_kind).1,
        t.actuator,
        t.in_active,
        t.wire_4,
        t.wall > 255,
        h4,
    );
}

proof fn lemma_header_2(t: Tile, h3: u8)
    requires
        t.slope <= 6,
        t.half_brick ==> t.slope == 0,
    ensures
        (header_2(t, h3) & 1 == 1) == (h3 > 0),
        (header_2(t, h3) > 1 && header_2(t, h3) & 2 == 2) == t.wire_1,
        (header_2(t, h3) > 1 && header_2(t, h3) & 4 == 4) == t.wire_2,
        (header_2(t, h3) > 1 && header_2(t, h3) & 8 == 8) == t.wire_3,
        (header_2(t, h3) > 1 && (header_2(t, h3) & 0b1110000) >> 4u8 == 1) == t.half_brick,
        (if header_2(t, h3) > 1 && (header_2(t, h3) & 0b1110000) >> 4u8 != 0 {
            (((header_2(t, h3) & 0b1110000) >> 4u8) - 1) as u8
        } else {
            0u8
        }) == t.slope,
{
    reveal(header_2);
    lemma_header_2_bits(t.wire_1, t.wire_2, t.wire_3, t.half_brick, t.slope, h3);
}

proof fn lemma_header_1(t: Tile, repeat: usize, h2: u8)
    ensures
        (header_1(t, repeat, h2) & 1 == 1) == (h2 > 0),
        (header_1(t, repeat, h2) & 2 == 2) == t.active,
        (header_1(t, repeat, h2) & 32 == 32) == (t.active && t.id > 255),
        (header_1(t, repeat, h2) & 4 == 4) == (t.wall > 0),
        (header_1(t, repeat, h2) & 0b11000) >> 3u8 == (if t.liquid == 0 {
            0u8
        } else if liquid_flags(t.liquid_kind).0 == 8 {
            1u8
        } else if liquid_flags(t.liquid_kind).0 == 16 {
            2u8
        } else {
            3u8
        }),
        header_1(t, repeat, h2) >> 6u8 == (if repeat > 0 { if repeat > 255 { 2u8 } else { 1u8 } } else { 0u8 }),
{
    reveal(header_1);
    lemma_header_1_bits(
        repeat,
        t.active,
        t.active && t.id > 255,
        t.wall > 0,
        t.liquid > 0,
        liquid_flags(t.liquid_kind).0,
        h2,
    );
}

proof fn lemma_assemble(t: Tile, h: (u8, u8, u8, u8), w0: u16)
    requires
        (h.0 & 2 == 2) == t.active,
        (h.1 > 1 && h.1 & 2 == 2) == t.wire_1,
        (h.1 > 1 && h.1 & 4 == 4) == t.wire_2,
        (h.1 > 1 && h.1 & 8 == 8) == t.wire_3,
        (h.1 > 1 && (h.1 & 0b1110000) >> 4u8 == 1) == t.half_brick,
        (if h.1 > 1 && (h.1 & 0b1110000) >> 4u8 != 0 { (((h.1 & 0b1110000) >> 4u8) - 1) as u8 } else { 0u8 })
            == t.slope,
        (h.2 > 1 && h.2 & 2 == 2) == t.actuator,
        (h.2 > 1 && h.2 & 4 == 4) == t.in_active,
        (h.2 > 1 && h.2 & 32 == 32) == t.wire_4,
        (h.3 > 1 && h.3 & 2 == 2) == t.invisible_block,
        (h.3 > 1 && h.3 & 4 == 4) == t.invisible_wall,
        (h.3 > 1 && h.3 & 8 == 8) == t.fullbright_block,
        (h.3 > 1 && h.3 & 16 == 16) == t.fullbright_wall,
    ensures
        assemble(
            h,
            (t.id, t.frame_x, t.frame_y, t.color),
            (w0, t.wall_color),
            (t.liquid, t.liquid_kind),
            t.wall,
        ) == t,
{
}

#[verifier::rlimit(80)]
#[verifier::spinoff_prover]
proof fn lemma_body_read(buf: Seq<u8>, q: int, t: Tile, repeat: usize, fi: Seq<bool>, h_1: u8, h_3: u8)
    requires
        canonical_tile(t, fi),
        repeat <= 32767,
        (h_1 & 2 == 2) == t.active,
        (h_1 & 32 == 32) == (t.active && t.id > 255),
        (h_3 & 8 == 8) == (t.active && t.color > 0),
        (h_1 & 4 == 4) == (t.wall > 0),
        (h_3 & 16 == 16) == (t.wall > 0 && t.wall_color > 0),
        (h_1 & 0b11000) >> 3u8 == (if t.liquid == 0 {
            0u8
        } else if liquid_flags(t.liquid_kind).0 == 8 {
            1u8
        } else if liquid_flags(t.liquid_kind).0 == 16 {
            2u8
        } else {
            3u8
        }),
        (h_3 & 128 == 128) == (t.liquid > 0 && liquid_flags(t.liquid_kind).1 == 128),
        (h_3 > 1 && h_3 & 64 == 64) == (t.wall > 255),
        h_1 >> 6u8 == (if repeat > 0 { if repeat > 255 { 2u8 } else { 1u8 } } else { 0u8 }),
        0 <= q,
        q + block_bytes(t, fi).len() + after_block_bytes(t, repeat).len() <= buf.len() <= usize::MAX,
        buf.subrange(q, q + block_bytes(t, fi).len() + after_block_bytes(t, repeat).len()) == block_bytes(t, fi)
            + after_block_bytes(t, repeat),
    ensures
        ({
            let (c2, block) = block_at(Cursor::at(buf, q), h_1, h_3, fi);
            let (c3, walls) = wall_at(c2, h_1, h_3);
            let (c4, liquid) = liquid_at(c3, h_1, h_3);
            let (c5, wall) = wall_high_at(c4, h_3, walls.0);
            let (c6, rep) = repeat_at(c5, h_1);
            &&& c6 == Cursor::at(buf, q + block_bytes(t, fi).len() + after_block_bytes(t, repeat).len())
            &&& block == (t.id, t.frame_x, t.frame_y, t.color)
            &&& walls.1 == t.wall_color
            &&& liquid == (t.liquid, t.liquid_kind)
            &&& wall == t.wall
            &&& rep == repeat
        }),
{
    let bb = block_bytes(t, fi);
    let ab = after_block_bytes(t, repeat);
    let whole = bb + ab;
    assert(whole.subrange(0, bb.len() as int) =~= bb);
    lemma_sub_piece(buf, q, whole, 0, bb);
    lemma_block_read(buf, q, t, fi, h_1, h_3);
    assert(whole.subrange(bb.len() as int, whole.len() as int) =~= ab);
    lemma_sub_piece(buf, q, whole, bb.len() as int, ab);
    lemma_after_read(buf, q + bb.len(), t, repeat, h_1, h_3);
}

#[verifier::rlimit(40)]
proof fn lemma_after_read(buf: Seq<u8>, q: int, t: Tile, repeat: usize, h_1: u8, h_3: u8)
    requires
        t.wall < WALL_COUNT,
        t.wall_color < 256,
        t.wall == 0 ==> t.wall_color == 0,
        (t.liquid == 0) == (t.liquid_kind == Liquid::Empty),
        repeat <= 32767,
        (h_1 & 4 == 4) == (t.wall > 0),
        (h_3 & 16 == 16) == (t.wall > 0 && t.wall_color > 0),
        (h_1 & 0b11000) >> 3u8 == (if t.liquid == 0 {
            0u8
        } else if liquid_flags(t.liquid_kind).0 == 8 {
            1u8
        } else if liquid_flags(t.liquid_kind).0 == 16 {
            2u8
        } else {
            3u8
        }),
        (h_3 & 128 == 128) == (t.liquid > 0 && liquid_flags(t.liquid_kind).1 == 128),
        (h_3 > 1 && h_3 & 64 == 64) == (t.wall > 255),
        h_1 >> 6u8 == (if repeat > 0 { if repeat > 255 { 2u8 } else { 1u8 } } else { 0u8 }),
        0 <= q,
        q + after_block_bytes(t, repeat).len() <= buf.len() <= usize::MAX,
        buf.subrange(q, q + after_block_bytes(t, repeat).len()) == after_block_bytes(t, repeat),
    ensures
        ({
            let (c3, walls) = wall_at(Cursor::at(buf, q), h_1, h_3);
            let (c4, liquid) = liquid_at(c3, h_1, h_3);
            let (c5, wall) = wall_high_at(c4, h_3, walls.0);
            let (c6, rep) = repeat_at(c5, h_1);
            &&& c6 == Cursor::at(buf, q + after_block_bytes(t, repeat).len())
            &&& walls.1 == t.wall_color
            &&& liquid == (t.liquid, t.liquid_kind)
            &&& wall == t.wall
            &&& rep == repeat
        }),
{
    let ab = after_block_bytes(t, repeat);
    let wb = wall_bytes(t);
    let liq = opt_byte(t.liquid > 0, t.liquid);
    let high = opt_byte(t.wall > 255, (t.wall >> 8u16) as u8);
    let rb = repeat_bytes(repeat);
    assert(ab =~= wb + liq + high + rb);
    let o2 = wb.len() as int;
    let o3 = o2 + liq.len();
    let o4 = o3 + high.len();
    assert(ab.subrange(0, o2) =~= wb);
    lemma_sub_piece(buf, q, ab, 0, wb);
    assert(ab.subrange(o2, o3) =~= liq);
    lemma_sub_piece(buf, q, ab, o2, liq);
    assert(ab.subrange(o3, o4) =~= high);
    lemma_sub_piece(buf, q, ab, o3, high);
    assert(ab.subrange(o4, o4 + rb.len()) =~= rb);
    lemma_sub_piece(buf, q, ab, o4, rb);
    lemma_walls_read(buf, q, t, h_1, h_3);
    lemma_liquid_read(buf, q + o2, t, h_1, h_3);
    lemma_high_read(buf, q + o3, t, h_3);
    lemma_repeat_read(buf, q + o4, repeat, h_1);
}

/// Reading the encoding of a tile with its repeat count, wherever it stands in a
/// buffer, gives back the tile and the count, and ends where the encoding ends, for a
/// tile as reading gives it (see [`canonical_tile`]) and a count that fits an `i16`.
#[verifier::rlimit(80)]
#[verifier::spinoff_prover]
pub proof fn lemma_tile_roundtrip(pre: Seq<u8>, t: Tile, repeat: usize, fi: Seq<bool>, rest: Seq<u8>)
    requires
        canonical_tile(t, fi),
        repeat <= 32767,
        (pre + tile_enc(t, repeat, fi) + rest).len() <= usize::MAX,
    ensures
        tile_at(Cursor::at(pre + tile_enc(t, repeat, fi) + rest, pre.len() as int), fi) == (
            Cursor::at(pre + tile_enc(t, repeat, fi) + rest, (pre.len() + tile_enc(t, repeat, fi).len()) as int),
            (t, repeat),
        ),
{
    reveal(tile_at);
    let h4 = header_4(t);
    let h3 = header_3(t, h4);
    let h2 = header_2(t, h3);
    let h1 = header_1(t, repeat, h2);
    let h = (h1, h2, h3, h4);
    lemma_header_4(t);
    lemma_header_3(t, h4);
    lemma_header_2(t, h3);
    lemma_header_1(t, repeat, h2);
    let hb = header_bytes(h);
    let bb = block_bytes(t, fi);
    let ab = after_block_bytes(t, repeat);
    let e = tile_enc(t, repeat, fi);
    let buf = pre + e + rest;
    let p0 = pre.len() as int;
    assert(tile_headers(t, repeat) == h);
    assert(e =~= hb + (bb + ab));
    assert(buf.subrange(p0, p0 + e.len()) =~= e);
    assert(e.subrange(0, hb.len() as int) =~= hb);
    lemma_sub_piece(buf, p0, e, 0, hb);
    assert(e.subrange(hb.len() as int, e.len() as int) =~= bb + ab);
    lemma_sub_piece(buf, p0, e, hb.len() as int, bb + ab);
    lemma_headers_read(buf, p0, h);
    lemma_body_read(buf, p0 + hb.len(), t, repeat, fi, h1, h3);
    let w0 = wall_at(block_at(headers_at(Cursor::at(buf, p0)).0, h1, h3, fi).0, h1, h3).1.0;
    lemma_assemble(t, h, w0);
}

} // verus!
