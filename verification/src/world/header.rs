//! The header of a world file: the world's name, size, progress and settings, read
//! field by field in the order of the file, each field present from the file version
//! that introduced it.
use vstd::prelude::*;
use crate::binary::cursor::{Cursor, Stop, take, read_u8, read_bool, read_i16, read_i32, read_i64, read_u32, read_u64, read_string_strict, lemma_string_forward};
use crate::binary::strings::{decimal, i32_to_string};
use crate::world::binary::{SafeReader, agrees, no_panic};
use crate::world::tile::follows;
use crate::world::types::{WorldParseError, GameMode, Header, Metadata, World};

verus! {

// ---------------------------------------------------------------------------------
// Fields that a version may lack

/// A flag that the file holds when `present`, else false.
pub open spec fn bool_if(c: Cursor, present: bool) -> (Cursor, bool) {
    if present { read_bool(c) } else { (c, false) }
}

/// An `i32` that the file holds when `present`, else `default`.
pub open spec fn i32_if(c: Cursor, present: bool, default: i32) -> (Cursor, i32) {
    if present { read_i32(c) } else { (c, default) }
}

/// An `i64` that the file holds when `present`, else `default`.
pub open spec fn i64_if(c: Cursor, present: bool, default: i64) -> (Cursor, i64) {
    if present { read_i64(c) } else { (c, default) }
}

/// A byte that the file holds when `present`, else `default`.
pub open spec fn u8_if(c: Cursor, present: bool, default: u8) -> (Cursor, u8) {
    if present { read_u8(c) } else { (c, default) }
}

/// A byte widened to `i32`.
pub open spec fn read_byte_i32(c: Cursor) -> (Cursor, i32) {
    let (c1, b) = read_u8(c);
    (c1, b as i32)
}

/// A byte widened to `i32` that the file holds when `present`, else `default`.
pub open spec fn byte_i32_if(c: Cursor, present: bool, default: i32) -> (Cursor, i32) {
    if present { read_byte_i32(c) } else { (c, default) }
}

/// The bit pattern of an `f64` that the file holds when `present`, else `default`.
pub open spec fn u64_if(c: Cursor, present: bool, default: u64) -> (Cursor, u64) {
    if present { read_u64(c) } else { (c, default) }
}

/// The bit pattern of an `f32` that the file holds when `present`, else `default`.
pub open spec fn u32_if(c: Cursor, present: bool, default: u32) -> (Cursor, u32) {
    if present { read_u32(c) } else { (c, default) }
}

// ---------------------------------------------------------------------------------
// Counted lists

/// `n` integers.
pub open spec fn i32s_at(c: Cursor, n: nat) -> (Cursor, Seq<i32>)
    decreases n,
{
    if n == 0 {
        (c, Seq::empty())
    } else {
        let (c1, x) = read_i32(c);
        let (c2, rest) = i32s_at(c1, (n - 1) as nat);
        (c2, seq![x] + rest)
    }
}

/// `n` strings.
pub open spec fn strings_at(c: Cursor, n: nat) -> (Cursor, Seq<Seq<char>>)
    decreases n,
{
    if n == 0 {
        (c, Seq::empty())
    } else {
        let (c1, s) = read_string_strict(c);
        let (c2, rest) = strings_at(c1, (n - 1) as nat);
        (c2, seq![s] + rest)
    }
}

/// An `i32` count, then that many integers. A negative count panics: as a length it
/// is beyond any vector's capacity.
pub open spec fn counted_i32s_at(c: Cursor) -> (Cursor, Seq<i32>) {
    let (c1, n) = read_i32(c);
    if !c1.ok() {
        (c1, Seq::empty())
    } else if n < 0 {
        (c1.halt(Stop::Panic), Seq::empty())
    } else {
        i32s_at(c1, n as nat)
    }
}

/// An `i16` count, then that many `i32`s; a negative count panics.
pub open spec fn short_counted_i32s_at(c: Cursor) -> (Cursor, Seq<i32>) {
    let (c1, n) = read_i16(c);
    if !c1.ok() {
        (c1, Seq::empty())
    } else if n < 0 {
        (c1.halt(Stop::Panic), Seq::empty())
    } else {
        i32s_at(c1, n as nat)
    }
}

/// An `i32` count, then that many strings; a negative count panics.
pub open spec fn counted_strings_at(c: Cursor) -> (Cursor, Seq<Seq<char>>) {
    let (c1, n) = read_i32(c);
    if !c1.ok() {
        (c1, Seq::empty())
    } else if n < 0 {
        (c1.halt(Stop::Panic), Seq::empty())
    } else {
        strings_at(c1, n as nat)
    }
}

/// Reading a list leaves the buffer alone and a stopped cursor as it is.
pub proof fn lemma_lists_stopped(c: Cursor, n: nat)
    ensures
        i32s_at(c, n).0.buf == c.buf,
        strings_at(c, n).0.buf == c.buf,
        !c.ok() ==> i32s_at(c, n).0 == c && strings_at(c, n).0 == c,
    decreases n,
{
    lemma_string_forward(c);
    if n > 0 {
        lemma_lists_stopped(read_i32(c).0, (n - 1) as nat);
        lemma_lists_stopped(read_string_strict(c).0, (n - 1) as nat);
    }
}

/// Reading a counted list leaves the buffer alone and a stopped cursor as it is.
pub proof fn lemma_counted_stopped(c: Cursor)
    ensures
        !c.ok() ==> counted_i32s_at(c).0 == c && short_counted_i32s_at(c).0 == c
            && counted_strings_at(c).0 == c,
        counted_i32s_at(c).0.buf == c.buf,
        short_counted_i32s_at(c).0.buf == c.buf,
        counted_strings_at(c).0.buf == c.buf,
{
    let (c1, x) = read_i32(c);
    let (c1h, h) = read_i16(c);
    if x >= 0 {
        lemma_lists_stopped(c1, x as nat);
    }
    if h >= 0 {
        lemma_lists_stopped(c1h, h as nat);
    }
}

pub(crate) fn read_i32s(r: &mut SafeReader, n: usize) -> (res: Result<Vec<i32>, WorldParseError>)
    requires
        no_panic(i32s_at(old(r).cursor(), n as nat).0),
    ensures
        final(r).buf@ == old(r).buf@,
        final(r).cur == i32s_at(old(r).cursor(), n as nat).0.pos,
        agrees(res, i32s_at(old(r).cursor(), n as nat).0),
        res matches Ok(v) ==> v@ == i32s_at(old(r).cursor(), n as nat).1,
{
    let ghost target = i32s_at(r.cursor(), n as nat);
    let mut v: Vec<i32> = Vec::new();
    let mut i: usize = 0;
    while i < n
        invariant
            i <= n,
            r.buf@ == old(r).buf@,
            target == i32s_at(old(r).cursor(), n as nat),
            i32s_at(r.cursor(), (n - i) as nat).0 == target.0,
            v@ + i32s_at(r.cursor(), (n - i) as nat).1 == target.1,
            no_panic(target.0),
        decreases n - i,
    {
        let ghost c = r.cursor();
        proof {
            lemma_lists_stopped(read_i32(c).0, (n - i - 1) as nat);
        }
        let x = r.read_i32()?;
        let ghost before = v@;
        v.push(x);
        i = i + 1;
        assert(v@ + i32s_at(r.cursor(), (n - i) as nat).1 =~= before + (seq![x] + i32s_at(
            r.cursor(),
            (n - i) as nat,
        ).1));
    }
    assert(v@ =~= target.1);
    Ok(v)
}

pub(crate) fn read_strings(r: &mut SafeReader, n: usize) -> (res: Result<Vec<String>, WorldParseError>)
    requires
        no_panic(strings_at(old(r).cursor(), n as nat).0),
    ensures
        final(r).buf@ == old(r).buf@,
        final(r).cur == strings_at(old(r).cursor(), n as nat).0.pos,
        agrees(res, strings_at(old(r).cursor(), n as nat).0),
        res matches Ok(v) ==> v@.map_values(|s: String| s@) == strings_at(old(r).cursor(), n as nat).1,
{
    let ghost target = strings_at(r.cursor(), n as nat);
    let mut v: Vec<String> = Vec::new();
    let mut i: usize = 0;
    while i < n
        invariant
            i <= n,
            r.buf@ == old(r).buf@,
            target == strings_at(old(r).cursor(), n as nat),
            strings_at(r.cursor(), (n - i) as nat).0 == target.0,
            v@.map_values(|s: String| s@) + strings_at(r.cursor(), (n - i) as nat).1 == target.1,
            no_panic(target.0),
        decreases n - i,
    {
        let ghost c = r.cursor();
        proof {
            lemma_string_forward(c);
            lemma_lists_stopped(read_string_strict(c).0, (n - i - 1) as nat);
        }
        let s = r.read_string()?;
        let ghost before = v@.map_values(|s: String| s@);
        v.push(s);
        i = i + 1;
        assert(v@.map_values(|s: String| s@) =~= before.push(s@));
        assert(v@.map_values(|s: String| s@) + strings_at(r.cursor(), (n - i) as nat).1 =~= before + (
        seq![s@] + strings_at(r.cursor(), (n - i) as nat).1));
    }
    assert(v@.map_values(|s: String| s@) =~= target.1);
    Ok(v)
}

pub(crate) fn read_counted_i32s(r: &mut SafeReader) -> (res: Result<Vec<i32>, WorldParseError>)
    requires
        no_panic(counted_i32s_at(old(r).cursor()).0),
    ensures
        final(r).buf@ == old(r).buf@,
        final(r).cur == counted_i32s_at(old(r).cursor()).0.pos,
        agrees(res, counted_i32s_at(old(r).cursor()).0),
        res matches Ok(v) ==> v@ == counted_i32s_at(old(r).cursor()).1,
{
    let n = r.read_i32()?;
    if n < 0 {
        assert(false);
    }
    read_i32s(r, n as usize)
}

fn read_short_counted_i32s(r: &mut SafeReader) -> (res: Result<Vec<i32>, WorldParseError>)
    requires
        no_panic(short_counted_i32s_at(old(r).cursor()).0),
    ensures
        final(r).buf@ == old(r).buf@,
        final(r).cur == short_counted_i32s_at(old(r).cursor()).0.pos,
        agrees(res, short_counted_i32s_at(old(r).cursor()).0),
        res matches Ok(v) ==> v@ == short_counted_i32s_at(old(r).cursor()).1,
{
    let n = r.read_i16()?;
    if n < 0 {
        assert(false);
    }
    read_i32s(r, n as usize)
}

pub(crate) fn read_counted_strings(r: &mut SafeReader) -> (res: Result<Vec<String>, WorldParseError>)
    requires
        no_panic(counted_strings_at(old(r).cursor()).0),
    ensures
        final(r).buf@ == old(r).buf@,
        final(r).cur == counted_strings_at(old(r).cursor()).0.pos,
        agrees(res, counted_strings_at(old(r).cursor()).0),
        res matches Ok(v) ==> v@.map_values(|s: String| s@) == counted_strings_at(old(r).cursor()).1,
{
    let n = r.read_i32()?;
    if n < 0 {
        assert(false);
    }
    read_strings(r, n as usize)
}

// ---------------------------------------------------------------------------------
// Fields read in their own way

/// The name; the seed text (an `i32` in decimal in version 179, a string from 180 on,
/// empty before); the world generator's version (from 179); the world's unique id, 16
/// bytes (from 181).
pub open spec fn header_names_at(c: Cursor, v: i32) -> (Cursor, (Seq<char>, Seq<char>, u64, Option<Seq<u8>>)) {
    let (c1, name) = read_string_strict(c);
    let (c2, seed) = if v >= 179 {
        if v == 179 {
            let (cc, n) = read_i32(c1);
            (cc, decimal(n))
        } else {
            read_string_strict(c1)
        }
    } else {
        (c1, Seq::empty())
    };
    let (c3, worldgen) = u64_if(c2, v >= 179, 0);
    let (c4, uuid) = if v >= 181 {
        let (cc, b) = take(c3, 16);
        (cc, Some(b))
    } else {
        (c3, None)
    };
    (c4, (name, seed, worldgen, uuid))
}

/// The game mode: an `i32` (truncated to a byte) from version 209; before that a flag
/// for expert mode (from 112), and in version 208 a further flag for master mode.
pub open spec fn game_mode_at(c: Cursor, v: i32) -> (Cursor, GameMode) {
    if v >= 209 {
        let (c1, x) = read_i32(c);
        (c1, GameMode::from_code(x as u8))
    } else {
        let (c1, expert) = bool_if(c, v >= 112);
        let (c2, master) = bool_if(c1, v == 208);
        (c2, GameMode::from_code(if master { 2u8 } else if expert { 1u8 } else { 0u8 }))
    }
}

/// The zenith flag from version 267; before that, a world is zenith when it is both
/// drunk and remixed.
pub open spec fn zenith_at(c: Cursor, v: i32, drunk_and_remix: bool) -> (Cursor, bool) {
    if v >= 267 { read_bool(c) } else { (c, drunk_and_remix) }
}

/// The tree top variations: a counted list from version 211, before that the four tree
/// styles followed by the backgrounds 1 to 9.
pub open spec fn tree_tops_at(c: Cursor, v: i32, tree_style: Seq<i32>, bg: Seq<u8>) -> (Cursor, Seq<i32>) {
    if v >= 211 {
        counted_i32s_at(c)
    } else {
        (c, tree_style + bg.subrange(1, 10).map_values(|b: u8| b as i32))
    }
}

/// The `f64` bit pattern of the cloud background's alpha: 0.0 while the stored
/// activity is below 1, else 1.0.
pub open spec fn cloud_alpha(cloud_bg_active: i32) -> u64 {
    if cloud_bg_active < 1 { 0 } else { 0x3FF0_0000_0000_0000 }
}

/// The thirteen background styles: eight read together, the ninth and tenth read
/// later (from versions 193 and 215), the last three together (from version 194).
pub open spec fn header_bg(p: HeaderParts) -> Seq<u8> {
    p.bghead + seq![p.p15.0, p.p15.1] + p.bgtail
}

fn read_header_names(r: &mut SafeReader, v: i32) -> (res: Result<(String, String, u64, Option<[u8; 16]>), WorldParseError>)
    requires
        no_panic(header_names_at(old(r).cursor(), v).0),
    ensures
        final(r).buf@ == old(r).buf@,
        final(r).cur == header_names_at(old(r).cursor(), v).0.pos,
        agrees(res, header_names_at(old(r).cursor(), v).0),
        res matches Ok(t) ==> {
            let s = header_names_at(old(r).cursor(), v).1;
            &&& t.0@ == s.0
            &&& t.1@ == s.1
            &&& t.2 == s.2
            &&& match (t.3, s.3) {
                (Some(u), Some(b)) => u@ == b,
                (None, None) => true,
                _ => false,
            }
        },
{
    let ghost c = r.cursor();
    proof {
        lemma_string_forward(c);
        lemma_string_forward(read_string_strict(c).0);
    }
    let name = r.read_string()?;
    let seed_text = if v >= 179 {
        if v == 179 {
            let n = r.read_i32()?;
            i32_to_string(n)
        } else {
            r.read_string()?
        }
    } else {
        String::new()
    };
    let worldgen_version: u64 = if v >= 179 { r.read_u64()? } else { 0 };
    let uuid = if v >= 181 {
        let b = r.read_bytes(16)?;
        let u: [u8; 16] = [b[0], b[1], b[2], b[3], b[4], b[5], b[6], b[7], b[8], b[9], b[10], b[11], b[12], b[13], b[14], b[15]];
        assert(u@ =~= b@);
        Some(u)
    } else {
        None
    };
    Ok((name, seed_text, worldgen_version, uuid))
}

fn read_game_mode(r: &mut SafeReader, v: i32) -> (res: Result<GameMode, WorldParseError>)
    requires
        no_panic(game_mode_at(old(r).cursor(), v).0),
    ensures
        follows(*old(r), *final(r), res, game_mode_at(old(r).cursor(), v).0, game_mode_at(old(r).cursor(), v).1),
{
    let code: u8 = if v >= 209 {
        r.read_i32()? as u8
    } else {
        let expert = if v >= 112 { r.read_bool()? } else { false };
        let master = if v == 208 { r.read_bool()? } else { false };
        if master { 2 } else if expert { 1 } else { 0 }
    };
    Ok(GameMode::from(code))
}

fn read_eight(r: &mut SafeReader) -> (res: Result<[u8; 8], WorldParseError>)
    requires
        no_panic(take(old(r).cursor(), 8).0),
    ensures
        final(r).buf@ == old(r).buf@,
        final(r).cur == take(old(r).cursor(), 8).0.pos,
        agrees(res, take(old(r).cursor(), 8).0),
        res matches Ok(b) ==> b@ == take(old(r).cursor(), 8).1,
{
    let b = r.read_bytes(8)?;
    let a: [u8; 8] = [b[0], b[1], b[2], b[3], b[4], b[5], b[6], b[7]];
    assert(a@ =~= b@);
    Ok(a)
}

fn read_bg_tail(r: &mut SafeReader, v: i32) -> (res: Result<[u8; 3], WorldParseError>)
    requires
        no_panic((if v >= 194 { take(old(r).cursor(), 3) } else { (old(r).cursor(), seq![0u8, 0u8, 0u8]) }).0),
    ensures
        ({
            let s = if v >= 194 { take(old(r).cursor(), 3) } else { (old(r).cursor(), seq![0u8, 0u8, 0u8]) };
            &&& final(r).buf@ == old(r).buf@
            &&& final(r).cur == s.0.pos
            &&& agrees(res, s.0)
            &&& res matches Ok(b) ==> b@ == s.1
        }),
{
    if v >= 194 {
        let b = r.read_bytes(3)?;
        let a: [u8; 3] = [b[0], b[1], b[2]];
        assert(a@ =~= b@);
        Ok(a)
    } else {
        let a: [u8; 3] = [0, 0, 0];
        assert(a@ =~= seq![0u8, 0u8, 0u8]);
        Ok(a)
    }
}

fn read_tree_tops(r: &mut SafeReader, v: i32, tree_style: &[i32; 4], bg: &[u8; 13]) -> (res: Result<Vec<i32>, WorldParseError>)
    requires
        no_panic(tree_tops_at(old(r).cursor(), v, tree_style@, bg@).0),
    ensures
        final(r).buf@ == old(r).buf@,
        final(r).cur == tree_tops_at(old(r).cursor(), v, tree_style@, bg@).0.pos,
        agrees(res, tree_tops_at(old(r).cursor(), v, tree_style@, bg@).0),
        res matches Ok(t) ==> t@ == tree_tops_at(old(r).cursor(), v, tree_style@, bg@).1,
{
    if v >= 211 {
        read_counted_i32s(r)
    } else {
        let mut t: Vec<i32> = Vec::new();
        t.push(tree_style[0]);
        t.push(tree_style[1]);
        t.push(tree_style[2]);
        t.push(tree_style[3]);
        let mut i: usize = 1;
        while i < 10
            invariant
                1 <= i <= 10,
                t@ == tree_style@ + bg@.subrange(1, i as int).map_values(|b: u8| b as i32),
            decreases 10 - i,
        {
            t.push(bg[i] as i32);
            i = i + 1;
            assert(t@ =~= tree_style@ + bg@.subrange(1, i as int).map_values(|b: u8| b as i32));
        }
        Ok(t)
    }
}

// ---------------------------------------------------------------------------------
// Fields read in runs
/// Header fields, in file order (part 1).
#[verifier::opaque]
pub open spec fn header_part_1(c: Cursor, v: i32) -> (Cursor, (i32, i32, i32, i32, i32, i32, i32)) {
    let (c1, id) = read_i32(c);
    let (c2, left) = read_i32(c1);
    let (c3, right) = read_i32(c2);
    let (c4, top) = read_i32(c3);
    let (c5, bottom) = read_i32(c4);
    let (c6, height) = read_i32(c5);
    let (c7, width) = read_i32(c6);
    (c7, (id, left, right, top, bottom, height, width))
}

/// Header fields, in file order (part 2).
#[verifier::opaque]
pub open spec fn header_part_2(c: Cursor, v: i32) -> (Cursor, (bool, bool, bool, bool, bool, bool, bool)) {
    let (c1, world_drunk) = bool_if(c, v >= 222);
    let (c2, world_for_the_worthy) = bool_if(c1, v >= 227);
    let (c3, world_anniversary) = bool_if(c2, v >= 238);
    let (c4, world_dont_starve) = bool_if(c3, v >= 239);
    let (c5, world_not_the_bees) = bool_if(c4, v >= 241);
    let (c6, world_remix) = bool_if(c5, v >= 249);
    let (c7, world_no_traps) = bool_if(c6, v >= 266);
    (c7, (world_drunk, world_for_the_worthy, world_anniversary, world_dont_starve, world_not_the_bees, world_remix, world_no_traps))
}

/// Header fields, in file order (part 3).
#[verifier::opaque]
pub open spec fn header_part_3(c: Cursor, v: i32) -> (Cursor, (i32, i32, i32, i32, i32, i32, i32, i32, i32, i32)) {
    let (c1, tree_x_0) = read_i32(c);
    let (c2, tree_x_1) = read_i32(c1);
    let (c3, tree_x_2) = read_i32(c2);
    let (c4, tree_style_0) = read_i32(c3);
    let (c5, tree_style_1) = read_i32(c4);
    let (c6, tree_style_2) = read_i32(c5);
    let (c7, tree_style_3) = read_i32(c6);
    let (c8, cave_back_x_0) = read_i32(c7);
    let (c9, cave_back_x_1) = read_i32(c8);
    let (c10, cave_back_x_2) = read_i32(c9);
    (c10, (tree_x_0, tree_x_1, tree_x_2, tree_style_0, tree_style_1, tree_style_2, tree_style_3, cave_back_x_0, cave_back_x_1, cave_back_x_2))
}

/// Header fields, in file order (part 4).
#[verifier::opaque]
pub open spec fn header_part_4(c: Cursor, v: i32) -> (Cursor, (i32, i32, i32, i32, i32, i32, i32, i32, i32)) {
    let (c1, cave_back_style_0) = read_i32(c);
    let (c2, cave_back_style_1) = read_i32(c1);
    let (c3, cave_back_style_2) = read_i32(c2);
    let (c4, cave_back_style_3) = read_i32(c3);
    let (c5, ice_back_style) = read_i32(c4);
    let (c6, jungle_back_style) = read_i32(c5);
    let (c7, hell_back_style) = read_i32(c6);
    let (c8, spawn_tile_x) = read_i32(c7);
    let (c9, spawn_tile_y) = read_i32(c8);
    (c9, (cave_back_style_0, cave_back_style_1, cave_back_style_2, cave_back_style_3, ice_back_style, jungle_back_style, hell_back_style, spawn_tile_x, spawn_tile_y))
}

/// Part 1 of the header is seven little-endian `i32`s in this order: the world id, its
/// left, right, top and bottom edges, then its height and its width. When all 28 bytes
/// are there, each field is the one stored at its place.
pub proof fn lemma_header_part_1_order(c: Cursor, v: i32)
    requires
        c.ok(),
        0 <= c.pos,
        c.pos + 28 <= c.buf.len(),
        c.buf.len() <= usize::MAX,
    ensures
        ({
            let (e, p) = header_part_1(c, v);
            let at = |i: int| crate::binary::le::from_le32(c.buf.subrange(c.pos + 4 * i, c.pos + 4 * i + 4)) as i32;
            &&& e.ok() && e.pos == c.pos + 28
            &&& p.0 == at(0)
            &&& p.1 == at(1)
            &&& p.2 == at(2)
            &&& p.3 == at(3)
            &&& p.4 == at(4)
            &&& p.5 == at(5)
            &&& p.6 == at(6)
        }),
{
    reveal(header_part_1);
}

/// Part 3 of the header is ten little-endian `i32`s in this order: the three tree
/// borders, the four tree styles, then the three cave background borders. When all 40
/// bytes are there, each field is the one stored at its place.
pub proof fn lemma_header_part_3_order(c: Cursor, v: i32)
    requires
        c.ok(),
        0 <= c.pos,
        c.pos + 40 <= c.buf.len(),
        c.buf.len() <= usize::MAX,
    ensures
        ({
            let (e, p) = header_part_3(c, v);
            let at = |i: int| crate::binary::le::from_le32(c.buf.subrange(c.pos + 4 * i, c.pos + 4 * i + 4)) as i32;
            &&& e.ok() && e.pos == c.pos + 40
            &&& p.0 == at(0)
            &&& p.1 == at(1)
            &&& p.2 == at(2)
            &&& p.3 == at(3)
            &&& p.4 == at(4)
            &&& p.5 == at(5)
            &&& p.6 == at(6)
            &&& p.7 == at(7)
            &&& p.8 == at(8)
            &&& p.9 == at(9)
        }),
{
    reveal(header_part_3);
}

/// Part 4 of the header is nine little-endian `i32`s in this order: the four cave
/// background styles, the ice, jungle and hell background styles, then the spawn tile's
/// x and its y. When all 36 bytes are there, each field is the one stored at its place.
pub proof fn lemma_header_part_4_order(c: Cursor, v: i32)
    requires
        c.ok(),
        0 <= c.pos,
        c.pos + 36 <= c.buf.len(),
        c.buf.len() <= usize::MAX,
    ensures
        ({
            let (e, p) = header_part_4(c, v);
            let at = |i: int| crate::binary::le::from_le32(c.buf.subrange(c.pos + 4 * i, c.pos + 4 * i + 4)) as i32;
            &&& e.ok() && e.pos == c.pos + 36
            &&& p.0 == at(0)
            &&& p.1 == at(1)
            &&& p.2 == at(2)
            &&& p.3 == at(3)
            &&& p.4 == at(4)
            &&& p.5 == at(5)
            &&& p.6 == at(6)
            &&& p.7 == at(7)
            &&& p.8 == at(8)
        }),
{
    reveal(header_part_4);
}

/// Header fields, in file order (part 5).
#[verifier::opaque]
pub open spec fn header_part_5(c: Cursor, v: i32) -> (Cursor, (u64, u64, u64, bool, i32, bool, bool, i32, i32, bool)) {
    let (c1, world_surface) = read_u64(c);
    let (c2, rock_layer) = read_u64(c1);
    let (c3, temp_time) = read_u64(c2);
    let (c4, temp_day_time) = read_bool(c3);
    let (c5, temp_moon_phase) = read_i32(c4);
    let (c6, temp_blood_moon) = read_bool(c5);
    let (c7, temp_eclipse) = read_bool(c6);
    let (c8, dungeon_x) = read_i32(c7);
    let (c9, dungeon_y) = read_i32(c8);
    let (c10, has_crimson) = read_bool(c9);
    (c10, (world_surface, rock_layer, temp_time, temp_day_time, temp_moon_phase, temp_blood_moon, temp_eclipse, dungeon_x, dungeon_y, has_crimson))
}

/// Header fields, in file order (part 6).
#[verifier::opaque]
pub open spec fn header_part_6(c: Cursor, v: i32) -> (Cursor, (bool, bool, bool, bool, bool, bool, bool, bool, bool, bool, bool)) {
    let (c1, downed_boss_1) = read_bool(c);
    let (c2, downed_boss_2) = read_bool(c1);
    let (c3, downed_boss_3) = read_bool(c2);
    let (c4, downed_queen_bee) = read_bool(c3);
    let (c5, downed_mech_boss_1) = read_bool(c4);
    let (c6, downed_mech_boss_2) = read_bool(c5);
    let (c7, downed_mech_boss_3) = read_bool(c6);
    let (c8, downed_mech_boss_any) = read_bool(c7);
    let (c9, downed_plant_boss) = read_bool(c8);
    let (c10, downed_golem_boss) = read_bool(c9);
    let (c11, downed_slime_king) = bool_if(c10, v >= 118);
    (c11, (downed_boss_1, downed_boss_2, downed_boss_3, downed_queen_bee, downed_mech_boss_1, downed_mech_boss_2, downed_mech_boss_3, downed_mech_boss_any, downed_plant_boss, downed_golem_boss, downed_slime_king))
}

/// Header fields, in file order (part 7).
#[verifier::opaque]
pub open spec fn header_part_7(c: Cursor, v: i32) -> (Cursor, (bool, bool, bool, bool, bool, bool, bool, bool, bool, i32, i32, bool)) {
    let (c1, saved_goblin) = read_bool(c);
    let (c2, saved_wizard) = read_bool(c1);
    let (c3, saved_mechanic) = read_bool(c2);
    let (c4, downed_goblins) = read_bool(c3);
    let (c5, downed_clown) = read_bool(c4);
    let (c6, downed_frost) = read_bool(c5);
    let (c7, downed_pirates) = read_bool(c6);
    let (c8, smashed_shadow_orb) = read_bool(c7);
    let (c9, spawn_meteor) = read_bool(c8);
    let (c10, shadow_orb_count) = read_byte_i32(c9);
    let (c11, altar_count) = read_i32(c10);
    let (c12, hard_mode) = read_bool(c11);
    (c12, (saved_goblin, saved_wizard, saved_mechanic, downed_goblins, downed_clown, downed_frost, downed_pirates, smashed_shadow_orb, spawn_meteor, shadow_orb_count, altar_count, hard_mode))
}

/// Header fields, in file order (part 8).
#[verifier::opaque]
pub open spec fn header_part_8(c: Cursor, v: i32) -> (Cursor, (bool, i32, i32, i32, u64, u64, i32, bool, i32, u32)) {
    let (c1, after_party_of_doom) = bool_if(c, v >= 257);
    let (c2, invasion_delay) = read_i32(c1);
    let (c3, invasion_size) = read_i32(c2);
    let (c4, invasion_type) = read_i32(c3);
    let (c5, invasion_x) = read_u64(c4);
    let (c6, slime_rain_time) = u64_if(c5, v >= 118, 0u64);
    let (c7, sundial_cooldown) = byte_i32_if(c6, v >= 113, 0i32);
    let (c8, temp_raining) = read_bool(c7);
    let (c9, temp_rain_time) = read_i32(c8);
    let (c10, temp_max_rain) = read_u32(c9);
    (c10, (after_party_of_doom, invasion_delay, invasion_size, invasion_type, invasion_x, slime_rain_time, sundial_cooldown, temp_raining, temp_rain_time, temp_max_rain))
}

/// Header fields, in file order (part 9).
#[verifier::opaque]
pub open spec fn header_part_9(c: Cursor, v: i32) -> (Cursor, (i32, i32, i32)) {
    let (c1, ore_tier_cobalt) = read_i32(c);
    let (c2, ore_tier_mythril) = read_i32(c1);
    let (c3, ore_tier_adamantite) = read_i32(c2);
    (c3, (ore_tier_cobalt, ore_tier_mythril, ore_tier_adamantite))
}

/// Header fields, in file order (part 10).
#[verifier::opaque]
pub open spec fn header_part_10(c: Cursor, v: i32) -> (Cursor, (i32, i16, u32)) {
    let (c1, cloud_bg_active) = read_i32(c);
    let (c2, num_clouds) = read_i16(c1);
    let (c3, wind_speed_target) = read_u32(c2);
    (c3, (cloud_bg_active, num_clouds, wind_speed_target))
}

/// Header fields, in file order (part 11).
#[verifier::opaque]
pub open spec fn header_part_11(c: Cursor, v: i32) -> (Cursor, (bool, bool, bool, bool, bool, bool, bool, bool, bool, bool)) {
    let (c1, fast_forward_time_to_dawn) = bool_if(c, v >= 128);
    let (c2, downed_fishron) = bool_if(c1, v >= 131);
    let (c3, downed_martians) = bool_if(c2, v >= 131);
    let (c4, downed_ancient_cultist) = bool_if(c3, v >= 131);
    let (c5, downed_moonlord) = bool_if(c4, v >= 131);
    let (c6, downed_halloween_king) = bool_if(c5, v >= 131);
    let (c7, downed_halloween_tree) = bool_if(c6, v >= 131);
    let (c8, downed_christmas_ice_queen) = bool_if(c7, v >= 131);
    let (c9, downed_christmas_santank) = bool_if(c8, v >= 131);
    let (c10, downed_christmas_tree) = bool_if(c9, v >= 131);
    (c10, (fast_forward_time_to_dawn, downed_fishron, downed_martians, downed_ancient_cultist, downed_moonlord, downed_halloween_king, downed_halloween_tree, downed_christmas_ice_queen, downed_christmas_santank, downed_christmas_tree))
}

/// Header fields, in file order (part 12).
#[verifier::opaque]
pub open spec fn header_part_12(c: Cursor, v: i32) -> (Cursor, (bool, bool, bool, bool, bool, bool, bool, bool, bool)) {
    let (c1, downed_tower_solar) = bool_if(c, v >= 140);
    let (c2, downed_tower_vortex) = bool_if(c1, v >= 140);
    let (c3, downed_tower_nebula) = bool_if(c2, v >= 140);
    let (c4, downed_tower_stardust) = bool_if(c3, v >= 140);
    let (c5, tower_active_solar) = bool_if(c4, v >= 140);
    let (c6, tower_active_vortex) = bool_if(c5, v >= 140);
    let (c7, tower_active_nebula) = bool_if(c6, v >= 140);
    let (c8, tower_active_stardust) = bool_if(c7, v >= 140);
    let (c9, lunar_apocalypse_is_up) = bool_if(c8, v >= 140);
    (c9, (downed_tower_solar, downed_tower_vortex, downed_tower_nebula, downed_tower_stardust, tower_active_solar, tower_active_vortex, tower_active_nebula, tower_active_stardust, lunar_apocalypse_is_up))
}

/// Header fields, in file order (part 13).
#[verifier::opaque]
pub open spec fn header_part_13(c: Cursor, v: i32) -> (Cursor, (bool, bool, i32)) {
    let (c1, temp_party_manual) = bool_if(c, v >= 170);
    let (c2, temp_party_genuine) = bool_if(c1, v >= 170);
    let (c3, temp_party_cooldown) = i32_if(c2, v >= 170, 0i32);
    (c3, (temp_party_manual, temp_party_genuine, temp_party_cooldown))
}

/// Header fields, in file order (part 14).
#[verifier::opaque]
pub open spec fn header_part_14(c: Cursor, v: i32) -> (Cursor, (bool, i32, u32, u32, bool, bool, bool, bool)) {
    let (c1, temp_sandstorm_happening) = bool_if(c, v >= 174);
    let (c2, temp_sandstorm_time_left) = i32_if(c1, v >= 174, 0i32);
    let (c3, temp_sandstorm_severity) = u32_if(c2, v >= 174, 0u32);
    let (c4, temp_sandstorm_intended_severity) = u32_if(c3, v >= 174, 0u32);
    let (c5, saved_bartender) = bool_if(c4, v >= 178);
    let (c6, downed_dd2_invasion_t1) = bool_if(c5, v >= 178);
    let (c7, downed_dd2_invasion_t2) = bool_if(c6, v >= 178);
    let (c8, downed_dd2_invasion_t3) = bool_if(c7, v >= 178);
    (c8, (temp_sandstorm_happening, temp_sandstorm_time_left, temp_sandstorm_severity, temp_sandstorm_intended_severity, saved_bartender, downed_dd2_invasion_t1, downed_dd2_invasion_t2, downed_dd2_invasion_t3))
}

/// Header fields, in file order (part 15).
#[verifier::opaque]
pub open spec fn header_part_15(c: Cursor, v: i32) -> (Cursor, (u8, u8)) {
    let (c1, bg_8) = u8_if(c, v >= 193, 0u8);
    let (c2, bg_9) = u8_if(c1, v >= 215, 0u8);
    (c2, (bg_8, bg_9))
}

/// Header fields, in file order (part 16).
#[verifier::opaque]
pub open spec fn header_part_16(c: Cursor, v: i32) -> (Cursor, (bool, i32, bool, bool, bool)) {
    let (c1, combat_book_was_used) = bool_if(c, v >= 204);
    let (c2, temp_lantern_night_cooldown) = i32_if(c1, v >= 207, 0i32);
    let (c3, temp_lantern_night_genuine) = bool_if(c2, v >= 207);
    let (c4, temp_lantern_night_manual) = bool_if(c3, v >= 207);
    let (c5, temp_lantern_night_next_night_is_genuine) = bool_if(c4, v >= 207);
    (c5, (combat_book_was_used, temp_lantern_night_cooldown, temp_lantern_night_genuine, temp_lantern_night_manual, temp_lantern_night_next_night_is_genuine))
}

/// Header fields, in file order (part 18).
#[verifier::opaque]
pub open spec fn header_part_18(c: Cursor, v: i32) -> (Cursor, (bool, bool, i32, i32, i32, i32, bool, bool, bool, bool, bool, bool)) {
    let (c1, force_halloween_for_today) = bool_if(c, v >= 212);
    let (c2, force_xmas_for_today) = bool_if(c1, v >= 212);
    let (c3, ore_tier_copper) = i32_if(c2, v >= 216, -1i32);
    let (c4, ore_tier_iron) = i32_if(c3, v >= 216, -1i32);
    let (c5, ore_tier_silver) = i32_if(c4, v >= 216, -1i32);
    let (c6, ore_tier_gold) = i32_if(c5, v >= 216, -1i32);
    let (c7, bought_cat) = bool_if(c6, v >= 217);
    let (c8, bought_dog) = bool_if(c7, v >= 217);
    let (c9, bought_bunny) = bool_if(c8, v >= 217);
    let (c10, downed_empress_of_light) = bool_if(c9, v >= 223);
    let (c11, downed_queen_slime) = bool_if(c10, v >= 223);
    let (c12, downed_deerclops) = bool_if(c11, v >= 240);
    (c12, (force_halloween_for_today, force_xmas_for_today, ore_tier_copper, ore_tier_iron, ore_tier_silver, ore_tier_gold, bought_cat, bought_dog, bought_bunny, downed_empress_of_light, downed_queen_slime, downed_deerclops))
}

/// Header fields, in file order (part 19).
#[verifier::opaque]
pub open spec fn header_part_19(c: Cursor, v: i32) -> (Cursor, (bool, bool, bool, bool, bool, bool, bool, bool, bool, bool, bool)) {
    let (c1, unlocked_slime_blue_spawn) = bool_if(c, v >= 251);
    let (c2, unlocked_merchant_spawn) = bool_if(c1, v >= 251);
    let (c3, unlocked_demolition_spawn) = bool_if(c2, v >= 251);
    let (c4, unlocked_party_girl_spawn) = bool_if(c3, v >= 251);
    let (c5, unlocked_dye_trader_spawn) = bool_if(c4, v >= 251);
    let (c6, unlocked_truffle_spawn) = bool_if(c5, v >= 251);
    let (c7, unlocked_arms_dealer_spawn) = bool_if(c6, v >= 251);
    let (c8, unlocked_nurse_spawn) = bool_if(c7, v >= 251);
    let (c9, unlocked_princess_spawn) = bool_if(c8, v >= 251);
    let (c10, combat_book_volume_two_was_used) = bool_if(c9, v >= 259);
    let (c11, peddlers_satchel_was_used) = bool_if(c10, v >= 260);
    (c11, (unlocked_slime_blue_spawn, unlocked_merchant_spawn, unlocked_demolition_spawn, unlocked_party_girl_spawn, unlocked_dye_trader_spawn, unlocked_truffle_spawn, unlocked_arms_dealer_spawn, unlocked_nurse_spawn, unlocked_princess_spawn, combat_book_volume_two_was_used, peddlers_satchel_was_used))
}

/// Header fields, in file order (part 20).
#[verifier::opaque]
pub open spec fn header_part_20(c: Cursor, v: i32) -> (Cursor, (bool, bool, bool, bool, bool, bool, bool, bool, u8)) {
    let (c1, unlocked_slime_green_spawn) = bool_if(c, v >= 261);
    let (c2, unlocked_slime_old_spawn) = bool_if(c1, v >= 261);
    let (c3, unlocked_slime_purple_spawn) = bool_if(c2, v >= 261);
    let (c4, unlocked_slime_rainbow_spawn) = bool_if(c3, v >= 261);
    let (c5, unlocked_slime_red_spawn) = bool_if(c4, v >= 261);
    let (c6, unlocked_slime_yellow_spawn) = bool_if(c5, v >= 261);
    let (c7, unlocked_slime_copper_spawn) = bool_if(c6, v >= 261);
    let (c8, fast_forward_time_to_dusk) = bool_if(c7, v >= 264);
    let (c9, moondial_cooldown) = u8_if(c8, v >= 264, 0u8);
    (c9, (unlocked_slime_green_spawn, unlocked_slime_old_spawn, unlocked_slime_purple_spawn, unlocked_slime_rainbow_spawn, unlocked_slime_red_spawn, unlocked_slime_yellow_spawn, unlocked_slime_copper_spawn, fast_forward_time_to_dusk, moondial_cooldown))
}

/// Header fields, in file order (part 21).
#[verifier::opaque]
pub open spec fn header_part_21(c: Cursor, v: i32) -> (Cursor, (i64, i32)) {
    let (c1, creation_time) = i64_if(c, v >= 141, 0i64);
    let (c2, moon_type) = read_byte_i32(c1);
    (c2, (creation_time, moon_type))
}

/// Header fields, in file order (part 22).
#[verifier::opaque]
pub open spec fn header_part_22(c: Cursor, v: i32) -> (Cursor, (bool, i32, bool, bool, bool, i32, i32)) {
    let (c1, saved_angler) = bool_if(c, v >= 99);
    let (c2, angler_quest) = i32_if(c1, v >= 101, 0i32);
    let (c3, saved_stylist) = bool_if(c2, v >= 104);
    let (c4, saved_tax_collector) = bool_if(c3, v >= 129);
    let (c5, saved_golfer) = bool_if(c4, v >= 201);
    let (c6, invasion_size_start) = i32_if(c5, v >= 107, 0i32);
    let (c7, temp_cultist_delay) = i32_if(c6, v >= 108, 86400i32);
    (c7, (saved_angler, angler_quest, saved_stylist, saved_tax_collector, saved_golfer, invasion_size_start, temp_cultist_delay))
}

fn read_header_part_1(r: &mut SafeReader, v: i32) -> (res: Result<(i32, i32, i32, i32, i32, i32, i32), WorldParseError>)
    requires
        no_panic(header_part_1(old(r).cursor(), v).0),
    ensures
        follows(*old(r), *final(r), res, header_part_1(old(r).cursor(), v).0, header_part_1(old(r).cursor(), v).1),
{
    proof {
        reveal(header_part_1);
    }
    let id = r.read_i32()?;
    let left = r.read_i32()?;
    let right = r.read_i32()?;
    let top = r.read_i32()?;
    let bottom = r.read_i32()?;
    let height = r.read_i32()?;
    let width = r.read_i32()?;
    Ok((id, left, right, top, bottom, height, width))
}

fn read_header_part_2(r: &mut SafeReader, v: i32) -> (res: Result<(bool, bool, bool, bool, bool, bool, bool), WorldParseError>)
    requires
        no_panic(header_part_2(old(r).cursor(), v).0),
    ensures
        follows(*old(r), *final(r), res, header_part_2(old(r).cursor(), v).0, header_part_2(old(r).cursor(), v).1),
{
    proof {
        reveal(header_part_2);
    }
    let world_drunk: bool = if v >= 222 { r.read_bool()? } else { false };
    let world_for_the_worthy: bool = if v >= 227 { r.read_bool()? } else { false };
    let world_anniversary: bool = if v >= 238 { r.read_bool()? } else { false };
    let world_dont_starve: bool = if v >= 239 { r.read_bool()? } else { false };
    let world_not_the_bees: bool = if v >= 241 { r.read_bool()? } else { false };
    let world_remix: bool = if v >= 249 { r.read_bool()? } else { false };
    let world_no_traps: bool = if v >= 266 { r.read_bool()? } else { false };
    Ok((world_drunk, world_for_the_worthy, world_anniversary, world_dont_starve, world_not_the_bees, world_remix, world_no_traps))
}

fn read_header_part_3(r: &mut SafeReader, v: i32) -> (res: Result<(i32, i32, i32, i32, i32, i32, i32, i32, i32, i32), WorldParseError>)
    requires
        no_panic(header_part_3(old(r).cursor(), v).0),
    ensures
        follows(*old(r), *final(r), res, header_part_3(old(r).cursor(), v).0, header_part_3(old(r).cursor(), v).1),
{
    proof {
        reveal(header_part_3);
    }
    let tree_x_0 = r.read_i32()?;
    let tree_x_1 = r.read_i32()?;
    let tree_x_2 = r.read_i32()?;
    let tree_style_0 = r.read_i32()?;
    let tree_style_1 = r.read_i32()?;
    let tree_style_2 = r.read_i32()?;
    let tree_style_3 = r.read_i32()?;
    let cave_back_x_0 = r.read_i32()?;
    let cave_back_x_1 = r.read_i32()?;
    let cave_back_x_2 = r.read_i32()?;
    Ok((tree_x_0, tree_x_1, tree_x_2, tree_style_0, tree_style_1, tree_style_2, tree_style_3, cave_back_x_0, cave_back_x_1, cave_back_x_2))
}

fn read_header_part_4(r: &mut SafeReader, v: i32) -> (res: Result<(i32, i32, i32, i32, i32, i32, i32, i32, i32), WorldParseError>)
    requires
        no_panic(header_part_4(old(r).cursor(), v).0),
    ensures
        follows(*old(r), *final(r), res, header_part_4(old(r).cursor(), v).0, header_part_4(old(r).cursor(), v).1),
{
    proof {
        reveal(header_part_4);
    }
    let cave_back_style_0 = r.read_i32()?;
    let cave_back_style_1 = r.read_i32()?;
    let cave_back_style_2 = r.read_i32()?;
    let cave_back_style_3 = r.read_i32()?;
    let ice_back_style = r.read_i32()?;
    let jungle_back_style = r.read_i32()?;
    let hell_back_style = r.read_i32()?;
    let spawn_tile_x = r.read_i32()?;
    let spawn_tile_y = r.read_i32()?;
    Ok((cave_back_style_0, cave_back_style_1, cave_back_style_2, cave_back_style_3, ice_back_style, jungle_back_style, hell_back_style, spawn_tile_x, spawn_tile_y))
}

fn read_header_part_5(r: &mut SafeReader, v: i32) -> (res: Result<(u64, u64, u64, bool, i32, bool, bool, i32, i32, bool), WorldParseError>)
    requires
        no_panic(header_part_5(old(r).cursor(), v).0),
    ensures
        follows(*old(r), *final(r), res, header_part_5(old(r).cursor(), v).0, header_part_5(old(r).cursor(), v).1),
{
    proof {
        reveal(header_part_5);
    }
    let world_surface = r.read_f64_bits()?;
    let rock_layer = r.read_f64_bits()?;
    let temp_time = r.read_f64_bits()?;
    let temp_day_time = r.read_bool()?;
    let temp_moon_phase = r.read_i32()?;
    let temp_blood_moon = r.read_bool()?;
    let temp_eclipse = r.read_bool()?;
    let dungeon_x = r.read_i32()?;
    let dungeon_y = r.read_i32()?;
    let has_crimson = r.read_bool()?;
    Ok((world_surface, rock_layer, temp_time, temp_day_time, temp_moon_phase, temp_blood_moon, temp_eclipse, dungeon_x, dungeon_y, has_crimson))
}

fn read_header_part_6(r: &mut SafeReader, v: i32) -> (res: Result<(bool, bool, bool, bool, bool, bool, bool, bool, bool, bool, bool), WorldParseError>)
    requires
        no_panic(header_part_6(old(r).cursor(), v).0),
    ensures
        follows(*old(r), *final(r), res, header_part_6(old(r).cursor(), v).0, header_part_6(old(r).cursor(), v).1),
{
    proof {
        reveal(header_part_6);
    }
    let downed_boss_1 = r.read_bool()?;
    let downed_boss_2 = r.read_bool()?;
    let downed_boss_3 = r.read_bool()?;
    let downed_queen_bee = r.read_bool()?;
    let downed_mech_boss_1 = r.read_bool()?;
    let downed_mech_boss_2 = r.read_bool()?;
    let downed_mech_boss_3 = r.read_bool()?;
    let downed_mech_boss_any = r.read_bool()?;
    let downed_plant_boss = r.read_bool()?;
    let downed_golem_boss = r.read_bool()?;
    let downed_slime_king: bool = if v >= 118 { r.read_bool()? } else { false };
    Ok((downed_boss_1, downed_boss_2, downed_boss_3, downed_queen_bee, downed_mech_boss_1, downed_mech_boss_2, downed_mech_boss_3, downed_mech_boss_any, downed_plant_boss, downed_golem_boss, downed_slime_king))
}

fn read_header_part_7(r: &mut SafeReader, v: i32) -> (res: Result<(bool, bool, bool, bool, bool, bool, bool, bool, bool, i32, i32, bool), WorldParseError>)
    requires
        no_panic(header_part_7(old(r).cursor(), v).0),
    ensures
        follows(*old(r), *final(r), res, header_part_7(old(r).cursor(), v).0, header_part_7(old(r).cursor(), v).1),
{
    proof {
        reveal(header_part_7);
    }
    let saved_goblin = r.read_bool()?;
    let saved_wizard = r.read_bool()?;
    let saved_mechanic = r.read_bool()?;
    let downed_goblins = r.read_bool()?;
    let downed_clown = r.read_bool()?;
    let downed_frost = r.read_bool()?;
    let downed_pirates = r.read_bool()?;
    let smashed_shadow_orb = r.read_bool()?;
    let spawn_meteor = r.read_bool()?;
    let shadow_orb_count = r.read_byte()? as i32;
    let altar_count = r.read_i32()?;
    let hard_mode = r.read_bool()?;
    Ok((saved_goblin, saved_wizard, saved_mechanic, downed_goblins, downed_clown, downed_frost, downed_pirates, smashed_shadow_orb, spawn_meteor, shadow_orb_count, altar_count, hard_mode))
}

fn read_header_part_8(r: &mut SafeReader, v: i32) -> (res: Result<(bool, i32, i32, i32, u64, u64, i32, bool, i32, u32), WorldParseError>)
    requires
        no_panic(header_part_8(old(r).cursor(), v).0),
    ensures
        follows(*old(r), *final(r), res, header_part_8(old(r).cursor(), v).0, header_part_8(old(r).cursor(), v).1),
{
    proof {
        reveal(header_part_8);
    }
    let after_party_of_doom: bool = if v >= 257 { r.read_bool()? } else { false };
    let invasion_delay = r.read_i32()?;
    let invasion_size = r.read_i32()?;
    let invasion_type = r.read_i32()?;
    let invasion_x = r.read_f64_bits()?;
    let slime_rain_time: u64 = if v >= 118 { r.read_f64_bits()? } else { 0 };
    let sundial_cooldown: i32 = if v >= 113 { r.read_byte()? as i32 } else { 0 };
    let temp_raining = r.read_bool()?;
    let temp_rain_time = r.read_i32()?;
    let temp_max_rain = r.read_f32_bits()?;
    Ok((after_party_of_doom, invasion_delay, invasion_size, invasion_type, invasion_x, slime_rain_time, sundial_cooldown, temp_raining, temp_rain_time, temp_max_rain))
}

fn read_header_part_9(r: &mut SafeReader, v: i32) -> (res: Result<(i32, i32, i32), WorldParseError>)
    requires
        no_panic(header_part_9(old(r).cursor(), v).0),
    ensures
        follows(*old(r), *final(r), res, header_part_9(old(r).cursor(), v).0, header_part_9(old(r).cursor(), v).1),
{
    proof {
        reveal(header_part_9);
    }
    let ore_tier_cobalt = r.read_i32()?;
    let ore_tier_mythril = r.read_i32()?;
    let ore_tier_adamantite = r.read_i32()?;
    Ok((ore_tier_cobalt, ore_tier_mythril, ore_tier_adamantite))
}

fn read_header_part_10(r: &mut SafeReader, v: i32) -> (res: Result<(i32, i16, u32), WorldParseError>)
    requires
        no_panic(header_part_10(old(r).cursor(), v).0),
    ensures
        follows(*old(r), *final(r), res, header_part_10(old(r).cursor(), v).0, header_part_10(old(r).cursor(), v).1),
{
    proof {
        reveal(header_part_10);
    }
    let cloud_bg_active = r.read_i32()?;
    let num_clouds = r.read_i16()?;
    let wind_speed_target = r.read_f32_bits()?;
    Ok((cloud_bg_active, num_clouds, wind_speed_target))
}

fn read_header_part_11(r: &mut SafeReader, v: i32) -> (res: Result<(bool, bool, bool, bool, bool, bool, bool, bool, bool, bool), WorldParseError>)
    requires
        no_panic(header_part_11(old(r).cursor(), v).0),
    ensures
        follows(*old(r), *final(r), res, header_part_11(old(r).cursor(), v).0, header_part_11(old(r).cursor(), v).1),
{
    proof {
        reveal(header_part_11);
    }
    let fast_forward_time_to_dawn: bool = if v >= 128 { r.read_bool()? } else { false };
    let downed_fishron: bool = if v >= 131 { r.read_bool()? } else { false };
    let downed_martians: bool = if v >= 131 { r.read_bool()? } else { false };
    let downed_ancient_cultist: bool = if v >= 131 { r.read_bool()? } else { false };
    let downed_moonlord: bool = if v >= 131 { r.read_bool()? } else { false };
    let downed_halloween_king: bool = if v >= 131 { r.read_bool()? } else { false };
    let downed_halloween_tree: bool = if v >= 131 { r.read_bool()? } else { false };
    let downed_christmas_ice_queen: bool = if v >= 131 { r.read_bool()? } else { false };
    let downed_christmas_santank: bool = if v >= 131 { r.read_bool()? } else { false };
    let downed_christmas_tree: bool = if v >= 131 { r.read_bool()? } else { false };
    Ok((fast_forward_time_to_dawn, downed_fishron, downed_martians, downed_ancient_cultist, downed_moonlord, downed_halloween_king, downed_halloween_tree, downed_christmas_ice_queen, downed_christmas_santank, downed_christmas_tree))
}

fn read_header_part_12(r: &mut SafeReader, v: i32) -> (res: Result<(bool, bool, bool, bool, bool, bool, bool, bool, bool), WorldParseError>)
    requires
        no_panic(header_part_12(old(r).cursor(), v).0),
    ensures
        follows(*old(r), *final(r), res, header_part_12(old(r).cursor(), v).0, header_part_12(old(r).cursor(), v).1),
{
    proof {
        reveal(header_part_12);
    }
    let downed_tower_solar: bool = if v >= 140 { r.read_bool()? } else { false };
    let downed_tower_vortex: bool = if v >= 140 { r.read_bool()? } else { false };
    let downed_tower_nebula: bool = if v >= 140 { r.read_bool()? } else { false };
    let downed_tower_stardust: bool = if v >= 140 { r.read_bool()? } else { false };
    let tower_active_solar: bool = if v >= 140 { r.read_bool()? } else { false };
    let tower_active_vortex: bool = if v >= 140 { r.read_bool()? } else { false };
    let tower_active_nebula: bool = if v >= 140 { r.read_bool()? } else { false };
    let tower_active_stardust: bool = if v >= 140 { r.read_bool()? } else { false };
    let lunar_apocalypse_is_up: bool = if v >= 140 { r.read_bool()? } else { false };
    Ok((downed_tower_solar, downed_tower_vortex, downed_tower_nebula, downed_tower_stardust, tower_active_solar, tower_active_vortex, tower_active_nebula, tower_active_stardust, lunar_apocalypse_is_up))
}

fn read_header_part_13(r: &mut SafeReader, v: i32) -> (res: Result<(bool, bool, i32), WorldParseError>)
    requires
        no_panic(header_part_13(old(r).cursor(), v).0),
    ensures
        follows(*old(r), *final(r), res, header_part_13(old(r).cursor(), v).0, header_part_13(old(r).cursor(), v).1),
{
    proof {
        reveal(header_part_13);
    }
    let temp_party_manual: bool = if v >= 170 { r.read_bool()? } else { false };
    let temp_party_genuine: bool = if v >= 170 { r.read_bool()? } else { false };
    let temp_party_cooldown: i32 = if v >= 170 { r.read_i32()? } else { 0 };
    Ok((temp_party_manual, temp_party_genuine, temp_party_cooldown))
}

fn read_header_part_14(r: &mut SafeReader, v: i32) -> (res: Result<(bool, i32, u32, u32, bool, bool, bool, bool), WorldParseError>)
    requires
        no_panic(header_part_14(old(r).cursor(), v).0),
    ensures
        follows(*old(r), *final(r), res, header_part_14(old(r).cursor(), v).0, header_part_14(old(r).cursor(), v).1),
{
    proof {
        reveal(header_part_14);
    }
    let temp_sandstorm_happening: bool = if v >= 174 { r.read_bool()? } else { false };
    let temp_sandstorm_time_left: i32 = if v >= 174 { r.read_i32()? } else { 0 };
    let temp_sandstorm_severity: u32 = if v >= 174 { r.read_f32_bits()? } else { 0 };
    let temp_sandstorm_intended_severity: u32 = if v >= 174 { r.read_f32_bits()? } else { 0 };
    let saved_bartender: bool = if v >= 178 { r.read_bool()? } else { false };
    let downed_dd2_invasion_t1: bool = if v >= 178 { r.read_bool()? } else { false };
    let downed_dd2_invasion_t2: bool = if v >= 178 { r.read_bool()? } else { false };
    let downed_dd2_invasion_t3: bool = if v >= 178 { r.read_bool()? } else { false };
    Ok((temp_sandstorm_happening, temp_sandstorm_time_left, temp_sandstorm_severity, temp_sandstorm_intended_severity, saved_bartender, downed_dd2_invasion_t1, downed_dd2_invasion_t2, downed_dd2_invasion_t3))
}

fn read_header_part_15(r: &mut SafeReader, v: i32) -> (res: Result<(u8, u8), WorldParseError>)
    requires
        no_panic(header_part_15(old(r).cursor(), v).0),
    ensures
        follows(*old(r), *final(r), res, header_part_15(old(r).cursor(), v).0, header_part_15(old(r).cursor(), v).1),
{
    proof {
        reveal(header_part_15);
    }
    let bg_8: u8 = if v >= 193 { r.read_byte()? } else { 0 };
    let bg_9: u8 = if v >= 215 { r.read_byte()? } else { 0 };
    Ok((bg_8, bg_9))
}

fn read_header_part_16(r: &mut SafeReader, v: i32) -> (res: Result<(bool, i32, bool, bool, bool), WorldParseError>)
    requires
        no_panic(header_part_16(old(r).cursor(), v).0),
    ensures
        follows(*old(r), *final(r), res, header_part_16(old(r).cursor(), v).0, header_part_16(old(r).cursor(), v).1),
{
    proof {
        reveal(header_part_16);
    }
    let combat_book_was_used: bool = if v >= 204 { r.read_bool()? } else { false };
    let temp_lantern_night_cooldown: i32 = if v >= 207 { r.read_i32()? } else { 0 };
    let temp_lantern_night_genuine: bool = if v >= 207 { r.read_bool()? } else { false };
    let temp_lantern_night_manual: bool = if v >= 207 { r.read_bool()? } else { false };
    let temp_lantern_night_next_night_is_genuine: bool = if v >= 207 { r.read_bool()? } else { false };
    Ok((combat_book_was_used, temp_lantern_night_cooldown, temp_lantern_night_genuine, temp_lantern_night_manual, temp_lantern_night_next_night_is_genuine))
}

fn read_header_part_18(r: &mut SafeReader, v: i32) -> (res: Result<(bool, bool, i32, i32, i32, i32, bool, bool, bool, bool, bool, bool), WorldParseError>)
    requires
        no_panic(header_part_18(old(r).cursor(), v).0),
    ensures
        follows(*old(r), *final(r), res, header_part_18(old(r).cursor(), v).0, header_part_18(old(r).cursor(), v).1),
{
    proof {
        reveal(header_part_18);
    }
    let force_halloween_for_today: bool = if v >= 212 { r.read_bool()? } else { false };
    let force_xmas_for_today: bool = if v >= 212 { r.read_bool()? } else { false };
    let ore_tier_copper: i32 = if v >= 216 { r.read_i32()? } else { -1 };
    let ore_tier_iron: i32 = if v >= 216 { r.read_i32()? } else { -1 };
    let ore_tier_silver: i32 = if v >= 216 { r.read_i32()? } else { -1 };
    let ore_tier_gold: i32 = if v >= 216 { r.read_i32()? } else { -1 };
    let bought_cat: bool = if v >= 217 { r.read_bool()? } else { false };
    let bought_dog: bool = if v >= 217 { r.read_bool()? } else { false };
    let bought_bunny: bool = if v >= 217 { r.read_bool()? } else { false };
    let downed_empress_of_light: bool = if v >= 223 { r.read_bool()? } else { false };
    let downed_queen_slime: bool = if v >= 223 { r.read_bool()? } else { false };
    let downed_deerclops: bool = if v >= 240 { r.read_bool()? } else { false };
    Ok((force_halloween_for_today, force_xmas_for_today, ore_tier_copper, ore_tier_iron, ore_tier_silver, ore_tier_gold, bought_cat, bought_dog, bought_bunny, downed_empress_of_light, downed_queen_slime, downed_deerclops))
}

fn read_header_part_19(r: &mut SafeReader, v: i32) -> (res: Result<(bool, bool, bool, bool, bool, bool, bool, bool, bool, bool, bool), WorldParseError>)
    requires
        no_panic(header_part_19(old(r).cursor(), v).0),
    ensures
        follows(*old(r), *final(r), res, header_part_19(old(r).cursor(), v).0, header_part_19(old(r).cursor(), v).1),
{
    proof {
        reveal(header_part_19);
    }
    let unlocked_slime_blue_spawn: bool = if v >= 251 { r.read_bool()? } else { false };
    let unlocked_merchant_spawn: bool = if v >= 251 { r.read_bool()? } else { false };
    let unlocked_demolition_spawn: bool = if v >= 251 { r.read_bool()? } else { false };
    let unlocked_party_girl_spawn: bool = if v >= 251 { r.read_bool()? } else { false };
    let unlocked_dye_trader_spawn: bool = if v >= 251 { r.read_bool()? } else { false };
    let unlocked_truffle_spawn: bool = if v >= 251 { r.read_bool()? } else { false };
    let unlocked_arms_dealer_spawn: bool = if v >= 251 { r.read_bool()? } else { false };
    let unlocked_nurse_spawn: bool = if v >= 251 { r.read_bool()? } else { false };
    let unlocked_princess_spawn: bool = if v >= 251 { r.read_bool()? } else { false };
    let combat_book_volume_two_was_used: bool = if v >= 259 { r.read_bool()? } else { false };
    let peddlers_satchel_was_used: bool = if v >= 260 { r.read_bool()? } else { false };
    Ok((unlocked_slime_blue_spawn, unlocked_merchant_spawn, unlocked_demolition_spawn, unlocked_party_girl_spawn, unlocked_dye_trader_spawn, unlocked_truffle_spawn, unlocked_arms_dealer_spawn, unlocked_nurse_spawn, unlocked_princess_spawn, combat_book_volume_two_was_used, peddlers_satchel_was_used))
}

fn read_header_part_20(r: &mut SafeReader, v: i32) -> (res: Result<(bool, bool, bool, bool, bool, bool, bool, bool, u8), WorldParseError>)
    requires
        no_panic(header_part_20(old(r).cursor(), v).0),
    ensures
        follows(*old(r), *final(r), res, header_part_20(old(r).cursor(), v).0, header_part_20(old(r).cursor(), v).1),
{
    proof {
        reveal(header_part_20);
    }
    let unlocked_slime_green_spawn: bool = if v >= 261 { r.read_bool()? } else { false };
    let unlocked_slime_old_spawn: bool = if v >= 261 { r.read_bool()? } else { false };
    let unlocked_slime_purple_spawn: bool = if v >= 261 { r.read_bool()? } else { false };
    let unlocked_slime_rainbow_spawn: bool = if v >= 261 { r.read_bool()? } else { false };
    let unlocked_slime_red_spawn: bool = if v >= 261 { r.read_bool()? } else { false };
    let unlocked_slime_yellow_spawn: bool = if v >= 261 { r.read_bool()? } else { false };
    let unlocked_slime_copper_spawn: bool = if v >= 261 { r.read_bool()? } else { false };
    let fast_forward_time_to_dusk: bool = if v >= 264 { r.read_bool()? } else { false };
    let moondial_cooldown: u8 = if v >= 264 { r.read_byte()? } else { 0 };
    Ok((unlocked_slime_green_spawn, unlocked_slime_old_spawn, unlocked_slime_purple_spawn, unlocked_slime_rainbow_spawn, unlocked_slime_red_spawn, unlocked_slime_yellow_spawn, unlocked_slime_copper_spawn, fast_forward_time_to_dusk, moondial_cooldown))
}

fn read_header_part_21(r: &mut SafeReader, v: i32) -> (res: Result<(i64, i32), WorldParseError>)
    requires
        no_panic(header_part_21(old(r).cursor(), v).0),
    ensures
        follows(*old(r), *final(r), res, header_part_21(old(r).cursor(), v).0, header_part_21(old(r).cursor(), v).1),
{
    proof {
        reveal(header_part_21);
    }
    let creation_time: i64 = if v >= 141 { r.read_i64()? } else { 0 };
    let moon_type = r.read_byte()? as i32;
    Ok((creation_time, moon_type))
}

fn read_header_part_22(r: &mut SafeReader, v: i32) -> (res: Result<(bool, i32, bool, bool, bool, i32, i32), WorldParseError>)
    requires
        no_panic(header_part_22(old(r).cursor(), v).0),
    ensures
        follows(*old(r), *final(r), res, header_part_22(old(r).cursor(), v).0, header_part_22(old(r).cursor(), v).1),
{
    proof {
        reveal(header_part_22);
    }
    let saved_angler: bool = if v >= 99 { r.read_bool()? } else { false };
    let angler_quest: i32 = if v >= 101 { r.read_i32()? } else { 0 };
    let saved_stylist: bool = if v >= 104 { r.read_bool()? } else { false };
    let saved_tax_collector: bool = if v >= 129 { r.read_bool()? } else { false };
    let saved_golfer: bool = if v >= 201 { r.read_bool()? } else { false };
    let invasion_size_start: i32 = if v >= 107 { r.read_i32()? } else { 0 };
    let temp_cultist_delay: i32 = if v >= 108 { r.read_i32()? } else { 86400 };
    Ok((saved_angler, angler_quest, saved_stylist, saved_tax_collector, saved_golfer, invasion_size_start, temp_cultist_delay))
}
/// The header's fields as read, part by part, in file order.
pub struct HeaderParts {
    pub names: (Seq<char>, Seq<char>, u64, Option<Seq<u8>>),
    pub p1: (i32, i32, i32, i32, i32, i32, i32),
    pub gm: GameMode,
    pub p2: (bool, bool, bool, bool, bool, bool, bool),
    pub zen: bool,
    pub p21: (i64, i32),
    pub p3: (i32, i32, i32, i32, i32, i32, i32, i32, i32, i32),
    pub p4: (i32, i32, i32, i32, i32, i32, i32, i32, i32),
    pub p5: (u64, u64, u64, bool, i32, bool, bool, i32, i32, bool),
    pub p6: (bool, bool, bool, bool, bool, bool, bool, bool, bool, bool, bool),
    pub p7: (bool, bool, bool, bool, bool, bool, bool, bool, bool, i32, i32, bool),
    pub p8: (bool, i32, i32, i32, u64, u64, i32, bool, i32, u32),
    pub p9: (i32, i32, i32),
    pub bghead: Seq<u8>,
    pub p10: (i32, i16, u32),
    pub anglers: Seq<Seq<char>>,
    pub p22: (bool, i32, bool, bool, bool, i32, i32),
    pub kills: Seq<i32>,
    pub p11: (bool, bool, bool, bool, bool, bool, bool, bool, bool, bool),
    pub p12: (bool, bool, bool, bool, bool, bool, bool, bool, bool),
    pub p13: (bool, bool, i32),
    pub party: Seq<i32>,
    pub p14: (bool, i32, u32, u32, bool, bool, bool, bool),
    pub p15: (u8, u8),
    pub bgtail: Seq<u8>,
    pub p16: (bool, i32, bool, bool, bool),
    pub tops: Seq<i32>,
    pub p18: (bool, bool, i32, i32, i32, i32, bool, bool, bool, bool, bool, bool),
    pub p19: (bool, bool, bool, bool, bool, bool, bool, bool, bool, bool, bool),
    pub p20: (bool, bool, bool, bool, bool, bool, bool, bool, u8),
}

/// The header `h` holds the values of the parts `p`.
pub open spec fn header_matches(h: Header, p: HeaderParts) -> bool {
    &&& h.name@ == p.names.0
    &&& h.seed_text@ == p.names.1
    &&& h.worldgen_version == p.names.2
    &&& match (h.uuid, p.names.3) {
        (Some(u), Some(b)) => u@ == b,
        (None, None) => true,
        _ => false,
    }
    &&& h.game_mode == p.gm
    &&& h.world_zenith == p.zen
    &&& h.tree_x@ == seq![p.p3.0, p.p3.1, p.p3.2]
    &&& h.tree_style@ == seq![p.p3.3, p.p3.4, p.p3.5, p.p3.6]
    &&& h.cave_back_x@ == seq![p.p3.7, p.p3.8, p.p3.9]
    &&& h.cave_back_style@ == seq![p.p4.0, p.p4.1, p.p4.2, p.p4.3]
    &&& h.bg@ == header_bg(p)
    &&& h.cloud_bg_alpha == cloud_alpha(p.p10.0)
    &&& h.angler_who_finished_today@.map_values(|s: String| s@) == p.anglers
    &&& h.npc_kill_counts@ == p.kills
    &&& h.temp_party_celebrating_npcs@ == p.party
    &&& h.tree_top_variations@ == p.tops
    &&& h.id == p.p1.0
    &&& h.left == p.p1.1
    &&& h.right == p.p1.2
    &&& h.top == p.p1.3
    &&& h.bottom == p.p1.4
    &&& h.height == p.p1.5
    &&& h.width == p.p1.6
    &&& h.world_drunk == p.p2.0
    &&& h.world_for_the_worthy == p.p2.1
    &&& h.world_anniversary == p.p2.2
    &&& h.world_dont_starve == p.p2.3
    &&& h.world_not_the_bees == p.p2.4
    &&& h.world_remix == p.p2.5
    &&& h.world_no_traps == p.p2.6
    &&& h.ice_back_style == p.p4.4
    &&& h.jungle_back_style == p.p4.5
    &&& h.hell_back_style == p.p4.6
    &&& h.spawn_tile_x == p.p4.7
    &&& h.spawn_tile_y == p.p4.8
    &&& h.world_surface == p.p5.0
    &&& h.rock_layer == p.p5.1
    &&& h.temp_time == p.p5.2
    &&& h.temp_day_time == p.p5.3
    &&& h.temp_moon_phase == p.p5.4
    &&& h.temp_blood_moon == p.p5.5
    &&& h.temp_eclipse == p.p5.6
    &&& h.dungeon_x == p.p5.7
    &&& h.dungeon_y == p.p5.8
    &&& h.has_crimson == p.p5.9
    &&& h.downed_boss_1 == p.p6.0
    &&& h.downed_boss_2 == p.p6.1
    &&& h.downed_boss_3 == p.p6.2
    &&& h.downed_queen_bee == p.p6.3
    &&& h.downed_mech_boss_1 == p.p6.4
    &&& h.downed_mech_boss_2 == p.p6.5
    &&& h.downed_mech_boss_3 == p.p6.6
    &&& h.downed_mech_boss_any == p.p6.7
    &&& h.downed_plant_boss == p.p6.8
    &&& h.downed_golem_boss == p.p6.9
    &&& h.downed_slime_king == p.p6.10
    &&& h.saved_goblin == p.p7.0
    &&& h.saved_wizard == p.p7.1
    &&& h.saved_mechanic == p.p7.2
    &&& h.downed_goblins == p.p7.3
    &&& h.downed_clown == p.p7.4
    &&& h.downed_frost == p.p7.5
    &&& h.downed_pirates == p.p7.6
    &&& h.smashed_shadow_orb == p.p7.7
    &&& h.spawn_meteor == p.p7.8
    &&& h.shadow_orb_count == p.p7.9
    &&& h.altar_count == p.p7.10
    &&& h.hard_mode == p.p7.11
    &&& h.after_party_of_doom == p.p8.0
    &&& h.invasion_delay == p.p8.1
    &&& h.invasion_size == p.p8.2
    &&& h.invasion_type == p.p8.3
    &&& h.invasion_x == p.p8.4
    &&& h.slime_rain_time == p.p8.5
    &&& h.sundial_cooldown == p.p8.6
    &&& h.temp_raining == p.p8.7
    &&& h.temp_rain_time == p.p8.8
    &&& h.temp_max_rain == p.p8.9
    &&& h.ore_tier_cobalt == p.p9.0
    &&& h.ore_tier_mythril == p.p9.1
    &&& h.ore_tier_adamantite == p.p9.2
    &&& h.cloud_bg_active == p.p10.0
    &&& h.num_clouds == p.p10.1
    &&& h.wind_speed_target == p.p10.2
    &&& h.fast_forward_time_to_dawn == p.p11.0
    &&& h.downed_fishron == p.p11.1
    &&& h.downed_martians == p.p11.2
    &&& h.downed_ancient_cultist == p.p11.3
    &&& h.downed_moonlord == p.p11.4
    &&& h.downed_halloween_king == p.p11.5
    &&& h.downed_halloween_tree == p.p11.6
    &&& h.downed_christmas_ice_queen == p.p11.7
    &&& h.downed_christmas_santank == p.p11.8
    &&& h.downed_christmas_tree == p.p11.9
    &&& h.downed_tower_solar == p.p12.0
    &&& h.downed_tower_vortex == p.p12.1
    &&& h.downed_tower_nebula == p.p12.2
    &&& h.downed_tower_stardust == p.p12.3
    &&& h.tower_active_solar == p.p12.4
    &&& h.tower_active_vortex == p.p12.5
    &&& h.tower_active_nebula == p.p12.6
    &&& h.tower_active_stardust == p.p12.7
    &&& h.lunar_apocalypse_is_up == p.p12.8
    &&& h.temp_party_manual == p.p13.0
    &&& h.temp_party_genuine == p.p13.1
    &&& h.temp_party_cooldown == p.p13.2
    &&& h.temp_sandstorm_happening == p.p14.0
    &&& h.temp_sandstorm_time_left == p.p14.1
    &&& h.temp_sandstorm_severity == p.p14.2
    &&& h.temp_sandstorm_intended_severity == p.p14.3
    &&& h.saved_bartender == p.p14.4
    &&& h.downed_dd2_invasion_t1 == p.p14.5
    &&& h.downed_dd2_invasion_t2 == p.p14.6
    &&& h.downed_dd2_invasion_t3 == p.p14.7
    &&& h.combat_book_was_used == p.p16.0
    &&& h.temp_lantern_night_cooldown == p.p16.1
    &&& h.temp_lantern_night_genuine == p.p16.2
    &&& h.temp_lantern_night_manual == p.p16.3
    &&& h.temp_lantern_night_next_night_is_genuine == p.p16.4
    &&& h.force_halloween_for_today == p.p18.0
    &&& h.force_xmas_for_today == p.p18.1
    &&& h.ore_tier_copper == p.p18.2
    &&& h.ore_tier_iron == p.p18.3
    &&& h.ore_tier_silver == p.p18.4
    &&& h.ore_tier_gold == p.p18.5
    &&& h.bought_cat == p.p18.6
    &&& h.bought_dog == p.p18.7
    &&& h.bought_bunny == p.p18.8
    &&& h.downed_empress_of_light == p.p18.9
    &&& h.downed_queen_slime == p.p18.10
    &&& h.downed_deerclops == p.p18.11
    &&& h.unlocked_slime_blue_spawn == p.p19.0
    &&& h.unlocked_merchant_spawn == p.p19.1
    &&& h.unlocked_demolition_spawn == p.p19.2
    &&& h.unlocked_party_girl_spawn == p.p19.3
    &&& h.unlocked_dye_trader_spawn == p.p19.4
    &&& h.unlocked_truffle_spawn == p.p19.5
    &&& h.unlocked_arms_dealer_spawn == p.p19.6
    &&& h.unlocked_nurse_spawn == p.p19.7
    &&& h.unlocked_princess_spawn == p.p19.8
    &&& h.combat_book_volume_two_was_used == p.p19.9
    &&& h.peddlers_satchel_was_used == p.p19.10
    &&& h.unlocked_slime_green_spawn == p.p20.0
    &&& h.unlocked_slime_old_spawn == p.p20.1
    &&& h.unlocked_slime_purple_spawn == p.p20.2
    &&& h.unlocked_slime_rainbow_spawn == p.p20.3
    &&& h.unlocked_slime_red_spawn == p.p20.4
    &&& h.unlocked_slime_yellow_spawn == p.p20.5
    &&& h.unlocked_slime_copper_spawn == p.p20.6
    &&& h.fast_forward_time_to_dusk == p.p20.7
    &&& h.moondial_cooldown == p.p20.8
    &&& h.creation_time == p.p21.0
    &&& h.moon_type == p.p21.1
    &&& h.saved_angler == p.p22.0
    &&& h.angler_quest == p.p22.1
    &&& h.saved_stylist == p.p22.2
    &&& h.saved_tax_collector == p.p22.3
    &&& h.saved_golfer == p.p22.4
    &&& h.invasion_size_start == p.p22.5
    &&& h.temp_cultist_delay == p.p22.6
}

/// Group A of the header's parts, in file order.
#[verifier::opaque]
pub open spec fn header_a_at(c: Cursor, v: i32) -> (Cursor, ((Seq<char>, Seq<char>, u64, Option<Seq<u8>>), (i32, i32, i32, i32, i32, i32, i32), GameMode, (bool, bool, bool, bool, bool, bool, bool), bool, (i64, i32), (i32, i32, i32, i32, i32, i32, i32, i32, i32, i32), (i32, i32, i32, i32, i32, i32, i32, i32, i32), (u64, u64, u64, bool, i32, bool, bool, i32, i32, bool), (bool, bool, bool, bool, bool, bool, bool, bool, bool, bool, bool), (bool, bool, bool, bool, bool, bool, bool, bool, bool, i32, i32, bool), (bool, i32, i32, i32, u64, u64, i32, bool, i32, u32), (i32, i32, i32))) {
    let (c1, x_names) = header_names_at(c, v);
    let (c2, x_p1) = header_part_1(c1, v);
    let (c3, x_gm) = game_mode_at(c2, v);
    let (c4, x_p2) = header_part_2(c3, v);
    let (c5, x_zen) = zenith_at(c4, v, x_p2.0 && x_p2.5);
    let (c6, x_p21) = header_part_21(c5, v);
    let (c7, x_p3) = header_part_3(c6, v);
    let (c8, x_p4) = header_part_4(c7, v);
    let (c9, x_p5) = header_part_5(c8, v);
    let (c10, x_p6) = header_part_6(c9, v);
    let (c11, x_p7) = header_part_7(c10, v);
    let (c12, x_p8) = header_part_8(c11, v);
    let (c13, x_p9) = header_part_9(c12, v);
    (c13, (x_names, x_p1, x_gm, x_p2, x_zen, x_p21, x_p3, x_p4, x_p5, x_p6, x_p7, x_p8, x_p9))
}

/// Group B of the header's parts, in file order.
#[verifier::opaque]
pub open spec fn header_b_at(c: Cursor, v: i32) -> (Cursor, (Seq<u8>, (i32, i16, u32), Seq<Seq<char>>, (bool, i32, bool, bool, bool, i32, i32), Seq<i32>, (bool, bool, bool, bool, bool, bool, bool, bool, bool, bool), (bool, bool, bool, bool, bool, bool, bool, bool, bool), (bool, bool, i32), Seq<i32>, (bool, i32, u32, u32, bool, bool, bool, bool))) {
    let (c1, x_bghead) = take(c, 8);
    let (c2, x_p10) = header_part_10(c1, v);
    let (c3, x_anglers) = (if v >= 95 { counted_strings_at(c2) } else { (c2, Seq::empty()) });
    let (c4, x_p22) = header_part_22(c3, v);
    let (c5, x_kills) = (if v >= 109 { short_counted_i32s_at(c4) } else { (c4, Seq::empty()) });
    let (c6, x_p11) = header_part_11(c5, v);
    let (c7, x_p12) = header_part_12(c6, v);
    let (c8, x_p13) = header_part_13(c7, v);
    let (c9, x_party) = (if v >= 170 { counted_i32s_at(c8) } else { (c8, Seq::empty()) });
    let (c10, x_p14) = header_part_14(c9, v);
    (c10, (x_bghead, x_p10, x_anglers, x_p22, x_kills, x_p11, x_p12, x_p13, x_party, x_p14))
}

/// Group C of the header's parts, in file order.
#[verifier::opaque]
pub open spec fn header_c_at(c: Cursor, v: i32, ts: Seq<i32>, bh: Seq<u8>) -> (Cursor, ((u8, u8), Seq<u8>, (bool, i32, bool, bool, bool), Seq<i32>, (bool, bool, i32, i32, i32, i32, bool, bool, bool, bool, bool, bool), (bool, bool, bool, bool, bool, bool, bool, bool, bool, bool, bool), (bool, bool, bool, bool, bool, bool, bool, bool, u8))) {
    let (c1, x_p15) = header_part_15(c, v);
    let (c2, x_bgtail) = (if v >= 194 { take(c1, 3) } else { (c1, seq![0u8, 0u8, 0u8]) });
    let (c3, x_p16) = header_part_16(c2, v);
    let (c4, x_tops) = tree_tops_at(c3, v, ts, bh + seq![x_p15.0, x_p15.1] + x_bgtail);
    let (c5, x_p18) = header_part_18(c4, v);
    let (c6, x_p19) = header_part_19(c5, v);
    let (c7, x_p20) = header_part_20(c6, v);
    (c7, (x_p15, x_bgtail, x_p16, x_tops, x_p18, x_p19, x_p20))
}

/// The header of a world file of the given version: all its parts, read in order.
#[verifier::opaque]
pub open spec fn header_at(c: Cursor, v: i32) -> (Cursor, HeaderParts) {
    let (c1, a) = header_a_at(c, v);
    let (c2, b) = header_b_at(c1, v);
    let (c3, z) = header_c_at(c2, v, seq![a.6.3, a.6.4, a.6.5, a.6.6], b.0);
    (c3, HeaderParts {
        names: a.0,
        p1: a.1,
        gm: a.2,
        p2: a.3,
        zen: a.4,
        p21: a.5,
        p3: a.6,
        p4: a.7,
        p5: a.8,
        p6: a.9,
        p7: a.10,
        p8: a.11,
        p9: a.12,
        bghead: b.0,
        p10: b.1,
        anglers: b.2,
        p22: b.3,
        kills: b.4,
        p11: b.5,
        p12: b.6,
        p13: b.7,
        party: b.8,
        p14: b.9,
        p15: z.0,
        bgtail: z.1,
        p16: z.2,
        tops: z.3,
        p18: z.4,
        p19: z.5,
        p20: z.6,
    })
}

/// The name, seed text, generator version and unique id read match their spec values.
pub open spec fn names_match(t: (String, String, u64, Option<[u8; 16]>), s: (Seq<char>, Seq<char>, u64, Option<Seq<u8>>)) -> bool {
    &&& t.0@ == s.0
    &&& t.1@ == s.1
    &&& t.2 == s.2
    &&& match (t.3, s.3) {
        (Some(u), Some(b)) => u@ == b,
        (None, None) => true,
        _ => false,
    }
}

/// Reading the header's `names` part leaves the buffer alone, and a stopped cursor as it is.
proof fn lemma_step_names(c: Cursor, v: i32)
    ensures
        header_names_at(c, v).0.buf == c.buf,
        !c.ok() ==> header_names_at(c, v).0 == c,
{
    lemma_string_forward(c);
    lemma_string_forward(read_string_strict(c).0);
}

/// Reading the header's `p1` part leaves the buffer alone, and a stopped cursor as it is.
proof fn lemma_step_p1(c: Cursor, v: i32)
    ensures
        header_part_1(c, v).0.buf == c.buf,
        !c.ok() ==> header_part_1(c, v).0 == c,
{
    reveal(header_part_1);
}

/// Reading the header's `gm` part leaves the buffer alone, and a stopped cursor as it is.
proof fn lemma_step_gm(c: Cursor, v: i32)
    ensures
        game_mode_at(c, v).0.buf == c.buf,
        !c.ok() ==> game_mode_at(c, v).0 == c,
{
}

/// Reading the header's `p2` part leaves the buffer alone, and a stopped cursor as it is.
proof fn lemma_step_p2(c: Cursor, v: i32)
    ensures
        header_part_2(c, v).0.buf == c.buf,
        !c.ok() ==> header_part_2(c, v).0 == c,
{
    reveal(header_part_2);
}

/// Reading the header's `zen` part leaves the buffer alone, and a stopped cursor as it is.
proof fn lemma_step_zen(c: Cursor, v: i32, b: bool)
    ensures
        zenith_at(c, v, b).0.buf == c.buf,
        !c.ok() ==> zenith_at(c, v, b).0 == c,
{
}

/// Reading the header's `p21` part leaves the buffer alone, and a stopped cursor as it is.
proof fn lemma_step_p21(c: Cursor, v: i32)
    ensures
        header_part_21(c, v).0.buf == c.buf,
        !c.ok() ==> header_part_21(c, v).0 == c,
{
    reveal(header_part_21);
}

/// Reading the header's `p3` part leaves the buffer alone, and a stopped cursor as it is.
proof fn lemma_step_p3(c: Cursor, v: i32)
    ensures
        header_part_3(c, v).0.buf == c.buf,
        !c.ok() ==> header_part_3(c, v).0 == c,
{
    reveal(header_part_3);
}

/// Reading the header's `p4` part leaves the buffer alone, and a stopped cursor as it is.
proof fn lemma_step_p4(c: Cursor, v: i32)
    ensures
        header_part_4(c, v).0.buf == c.buf,
        !c.ok() ==> header_part_4(c, v).0 == c,
{
    reveal(header_part_4);
}

/// Reading the header's `p5` part leaves the buffer alone, and a stopped cursor as it is.
proof fn lemma_step_p5(c: Cursor, v: i32)
    ensures
        header_part_5(c, v).0.buf == c.buf,
        !c.ok() ==> header_part_5(c, v).0 == c,
{
    reveal(header_part_5);
}

/// Reading the header's `p6` part leaves the buffer alone, and a stopped cursor as it is.
proof fn lemma_step_p6(c: Cursor, v: i32)
    ensures
        header_part_6(c, v).0.buf == c.buf,
        !c.ok() ==> header_part_6(c, v).0 == c,
{
    reveal(header_part_6);
}

/// Reading the header's `p7` part leaves the buffer alone, and a stopped cursor as it is.
proof fn lemma_step_p7(c: Cursor, v: i32)
    ensures
        header_part_7(c, v).0.buf == c.buf,
        !c.ok() ==> header_part_7(c, v).0 == c,
{
    reveal(header_part_7);
}

/// Reading the header's `p8` part leaves the buffer alone, and a stopped cursor as it is.
proof fn lemma_step_p8(c: Cursor, v: i32)
    ensures
        header_part_8(c, v).0.buf == c.buf,
        !c.ok() ==> header_part_8(c, v).0 == c,
{
    reveal(header_part_8);
}

/// Reading the header's `p9` part leaves the buffer alone, and a stopped cursor as it is.
proof fn lemma_step_p9(c: Cursor, v: i32)
    ensures
        header_part_9(c, v).0.buf == c.buf,
        !c.ok() ==> header_part_9(c, v).0 == c,
{
    reveal(header_part_9);
}

/// Reading the header's `bghead` part leaves the buffer alone, and a stopped cursor as it is.
proof fn lemma_step_bghead(c: Cursor, v: i32)
    ensures
        take(c, 8).0.buf == c.buf,
        !c.ok() ==> take(c, 8).0 == c,
{
}

/// Reading the header's `p10` part leaves the buffer alone, and a stopped cursor as it is.
proof fn lemma_step_p10(c: Cursor, v: i32)
    ensures
        header_part_10(c, v).0.buf == c.buf,
        !c.ok() ==> header_part_10(c, v).0 == c,
{
    reveal(header_part_10);
}

/// Reading the header's `anglers` part leaves the buffer alone, and a stopped cursor as it is.
proof fn lemma_step_anglers(c: Cursor, v: i32)
    ensures
        (if v >= 95 { counted_strings_at(c) } else { (c, Seq::empty()) }).0.buf == c.buf,
        !c.ok() ==> (if v >= 95 { counted_strings_at(c) } else { (c, Seq::empty()) }).0 == c,
{
    lemma_counted_stopped(c);
}

/// Reading the header's `p22` part leaves the buffer alone, and a stopped cursor as it is.
proof fn lemma_step_p22(c: Cursor, v: i32)
    ensures
        header_part_22(c, v).0.buf == c.buf,
        !c.ok() ==> header_part_22(c, v).0 == c,
{
    reveal(header_part_22);
}

/// Reading the header's `kills` part leaves the buffer alone, and a stopped cursor as it is.
proof fn lemma_step_kills(c: Cursor, v: i32)
    ensures
        (if v >= 109 { short_counted_i32s_at(c) } else { (c, Seq::empty()) }).0.buf == c.buf,
        !c.ok() ==> (if v >= 109 { short_counted_i32s_at(c) } else { (c, Seq::empty()) }).0 == c,
{
    lemma_counted_stopped(c);
}

/// Reading the header's `p11` part leaves the buffer alone, and a stopped cursor as it is.
proof fn lemma_step_p11(c: Cursor, v: i32)
    ensures
        header_part_11(c, v).0.buf == c.buf,
        !c.ok() ==> header_part_11(c, v).0 == c,
{
    reveal(header_part_11);
}

/// Reading the header's `p12` part leaves the buffer alone, and a stopped cursor as it is.
proof fn lemma_step_p12(c: Cursor, v: i32)
    ensures
        header_part_12(c, v).0.buf == c.buf,
        !c.ok() ==> header_part_12(c, v).0 == c,
{
    reveal(header_part_12);
}

/// Reading the header's `p13` part leaves the buffer alone, and a stopped cursor as it is.
proof fn lemma_step_p13(c: Cursor, v: i32)
    ensures
        header_part_13(c, v).0.buf == c.buf,
        !c.ok() ==> header_part_13(c, v).0 == c,
{
    reveal(header_part_13);
}

/// Reading the header's `party` part leaves the buffer alone, and a stopped cursor as it is.
proof fn lemma_step_party(c: Cursor, v: i32)
    ensures
        (if v >= 170 { counted_i32s_at(c) } else { (c, Seq::empty()) }).0.buf == c.buf,
        !c.ok() ==> (if v >= 170 { counted_i32s_at(c) } else { (c, Seq::empty()) }).0 == c,
{
    lemma_counted_stopped(c);
}

/// Reading the header's `p14` part leaves the buffer alone, and a stopped cursor as it is.
proof fn lemma_step_p14(c: Cursor, v: i32)
    ensures
        header_part_14(c, v).0.buf == c.buf,
        !c.ok() ==> header_part_14(c, v).0 == c,
{
    reveal(header_part_14);
}

/// Reading the header's `p15` part leaves the buffer alone, and a stopped cursor as it is.
proof fn lemma_step_p15(c: Cursor, v: i32)
    ensures
        header_part_15(c, v).0.buf == c.buf,
        !c.ok() ==> header_part_15(c, v).0 == c,
{
    reveal(header_part_15);
}

/// Reading the header's `bgtail` part leaves the buffer alone, and a stopped cursor as it is.
proof fn lemma_step_bgtail(c: Cursor, v: i32)
    ensures
        (if v >= 194 { take(c, 3) } else { (c, seq![0u8, 0u8, 0u8]) }).0.buf == c.buf,
        !c.ok() ==> (if v >= 194 { take(c, 3) } else { (c, seq![0u8, 0u8, 0u8]) }).0 == c,
{
}

/// Reading the header's `p16` part leaves the buffer alone, and a stopped cursor as it is.
proof fn lemma_step_p16(c: Cursor, v: i32)
    ensures
        header_part_16(c, v).0.buf == c.buf,
        !c.ok() ==> header_part_16(c, v).0 == c,
{
    reveal(header_part_16);
}

/// Reading the header's `tops` part leaves the buffer alone, and a stopped cursor as it is.
proof fn lemma_step_tops(c: Cursor, v: i32, ts: Seq<i32>, bg: Seq<u8>)
    ensures
        tree_tops_at(c, v, ts, bg).0.buf == c.buf,
        !c.ok() ==> tree_tops_at(c, v, ts, bg).0 == c,
{
    lemma_counted_stopped(c);
}

/// Reading the header's `p18` part leaves the buffer alone, and a stopped cursor as it is.
proof fn lemma_step_p18(c: Cursor, v: i32)
    ensures
        header_part_18(c, v).0.buf == c.buf,
        !c.ok() ==> header_part_18(c, v).0 == c,
{
    reveal(header_part_18);
}

/// Reading the header's `p19` part leaves the buffer alone, and a stopped cursor as it is.
proof fn lemma_step_p19(c: Cursor, v: i32)
    ensures
        header_part_19(c, v).0.buf == c.buf,
        !c.ok() ==> header_part_19(c, v).0 == c,
{
    reveal(header_part_19);
}

/// Reading the header's `p20` part leaves the buffer alone, and a stopped cursor as it is.
proof fn lemma_step_p20(c: Cursor, v: i32)
    ensures
        header_part_20(c, v).0.buf == c.buf,
        !c.ok() ==> header_part_20(c, v).0 == c,
{
    reveal(header_part_20);
}

/// Reading group A leaves the buffer alone, and a stopped cursor as it is.
proof fn lemma_group_a_stopped(c: Cursor, v: i32)
    ensures
        header_a_at(c, v).0.buf == c.buf,
        !c.ok() ==> header_a_at(c, v).0 == c,
{
    reveal(header_a_at);
    let (c1, x_names) = header_names_at(c, v);
    lemma_step_names(c, v);
    let (c2, x_p1) = header_part_1(c1, v);
    lemma_step_p1(c1, v);
    let (c3, x_gm) = game_mode_at(c2, v);
    lemma_step_gm(c2, v);
    let (c4, x_p2) = header_part_2(c3, v);
    lemma_step_p2(c3, v);
    let (c5, x_zen) = zenith_at(c4, v, x_p2.0 && x_p2.5);
    lemma_step_zen(c4, v, x_p2.0 && x_p2.5);
    let (c6, x_p21) = header_part_21(c5, v);
    lemma_step_p21(c5, v);
    let (c7, x_p3) = header_part_3(c6, v);
    lemma_step_p3(c6, v);
    let (c8, x_p4) = header_part_4(c7, v);
    lemma_step_p4(c7, v);
    let (c9, x_p5) = header_part_5(c8, v);
    lemma_step_p5(c8, v);
    let (c10, x_p6) = header_part_6(c9, v);
    lemma_step_p6(c9, v);
    let (c11, x_p7) = header_part_7(c10, v);
    lemma_step_p7(c10, v);
    let (c12, x_p8) = header_part_8(c11, v);
    lemma_step_p8(c11, v);
    let (c13, x_p9) = header_part_9(c12, v);
    lemma_step_p9(c12, v);
}

fn read_header_a(r: &mut SafeReader, v: i32) -> (res: Result<((String, String, u64, Option<[u8; 16]>), (i32, i32, i32, i32, i32, i32, i32), GameMode, (bool, bool, bool, bool, bool, bool, bool), bool, (i64, i32), (i32, i32, i32, i32, i32, i32, i32, i32, i32, i32), (i32, i32, i32, i32, i32, i32, i32, i32, i32), (u64, u64, u64, bool, i32, bool, bool, i32, i32, bool), (bool, bool, bool, bool, bool, bool, bool, bool, bool, bool, bool), (bool, bool, bool, bool, bool, bool, bool, bool, bool, i32, i32, bool), (bool, i32, i32, i32, u64, u64, i32, bool, i32, u32), (i32, i32, i32)), WorldParseError>)
    requires
        no_panic(header_a_at(old(r).cursor(), v).0),
    ensures
        final(r).buf@ == old(r).buf@,
        final(r).cur == header_a_at(old(r).cursor(), v).0.pos,
        agrees(res, header_a_at(old(r).cursor(), v).0),
        res matches Ok(t) ==> names_match(t.0, header_a_at(old(r).cursor(), v).1.0) && t.1 == header_a_at(old(r).cursor(), v).1.1 && t.2 == header_a_at(old(r).cursor(), v).1.2 && t.3 == header_a_at(old(r).cursor(), v).1.3 && t.4 == header_a_at(old(r).cursor(), v).1.4 && t.5 == header_a_at(old(r).cursor(), v).1.5 && t.6 == header_a_at(old(r).cursor(), v).1.6 && t.7 == header_a_at(old(r).cursor(), v).1.7 && t.8 == header_a_at(old(r).cursor(), v).1.8 && t.9 == header_a_at(old(r).cursor(), v).1.9 && t.10 == header_a_at(old(r).cursor(), v).1.10 && t.11 == header_a_at(old(r).cursor(), v).1.11 && t.12 == header_a_at(old(r).cursor(), v).1.12,
{
    proof {
        reveal(header_a_at);
    }
    let ghost c0 = r.cursor();
    let ghost w = header_a_at(c0, v);
    let ghost g1 = header_names_at(c0, v).0;
    let ghost g2 = header_part_1(g1, v).0;
    let ghost g3 = game_mode_at(g2, v).0;
    let ghost g4 = header_part_2(g3, v).0;
    let ghost g5 = zenith_at(g4, v, w.1.3.0 && w.1.3.5).0;
    let ghost g6 = header_part_21(g5, v).0;
    let ghost g7 = header_part_3(g6, v).0;
    let ghost g8 = header_part_4(g7, v).0;
    let ghost g9 = header_part_5(g8, v).0;
    let ghost g10 = header_part_6(g9, v).0;
    let ghost g11 = header_part_7(g10, v).0;
    let ghost g12 = header_part_8(g11, v).0;
    let ghost g13 = header_part_9(g12, v).0;
    proof {
        lemma_step_names(c0, v);
        lemma_step_p1(g1, v);
        lemma_step_gm(g2, v);
        lemma_step_p2(g3, v);
        lemma_step_zen(g4, v, w.1.3.0 && w.1.3.5);
        lemma_step_p21(g5, v);
        lemma_step_p3(g6, v);
        lemma_step_p4(g7, v);
        lemma_step_p5(g8, v);
        lemma_step_p6(g9, v);
        lemma_step_p7(g10, v);
        lemma_step_p8(g11, v);
        lemma_step_p9(g12, v);
    }
    let names = read_header_names(r, v)?;
    assert(r.cursor() == g1);
    let p1 = read_header_part_1(r, v)?;
    assert(r.cursor() == g2);
    let gm = read_game_mode(r, v)?;
    assert(r.cursor() == g3);
    let p2 = read_header_part_2(r, v)?;
    assert(r.cursor() == g4);
    let zen = if v >= 267 { r.read_bool()? } else { p2.0 && p2.5 };
    assert(r.cursor() == g5);
    let p21 = read_header_part_21(r, v)?;
    assert(r.cursor() == g6);
    let p3 = read_header_part_3(r, v)?;
    assert(r.cursor() == g7);
    let p4 = read_header_part_4(r, v)?;
    assert(r.cursor() == g8);
    let p5 = read_header_part_5(r, v)?;
    assert(r.cursor() == g9);
    let p6 = read_header_part_6(r, v)?;
    assert(r.cursor() == g10);
    let p7 = read_header_part_7(r, v)?;
    assert(r.cursor() == g11);
    let p8 = read_header_part_8(r, v)?;
    assert(r.cursor() == g12);
    let p9 = read_header_part_9(r, v)?;
    assert(r.cursor() == g13);
    Ok((names, p1, gm, p2, zen, p21, p3, p4, p5, p6, p7, p8, p9))
}

/// Reading group B leaves the buffer alone, and a stopped cursor as it is.
proof fn lemma_group_b_stopped(c: Cursor, v: i32)
    ensures
        header_b_at(c, v).0.buf == c.buf,
        !c.ok() ==> header_b_at(c, v).0 == c,
{
    reveal(header_b_at);
    let (c1, x_bghead) = take(c, 8);
    lemma_step_bghead(c, v);
    let (c2, x_p10) = header_part_10(c1, v);
    lemma_step_p10(c1, v);
    let (c3, x_anglers) = (if v >= 95 { counted_strings_at(c2) } else { (c2, Seq::empty()) });
    lemma_step_anglers(c2, v);
    let (c4, x_p22) = header_part_22(c3, v);
    lemma_step_p22(c3, v);
    let (c5, x_kills) = (if v >= 109 { short_counted_i32s_at(c4) } else { (c4, Seq::empty()) });
    lemma_step_kills(c4, v);
    let (c6, x_p11) = header_part_11(c5, v);
    lemma_step_p11(c5, v);
    let (c7, x_p12) = header_part_12(c6, v);
    lemma_step_p12(c6, v);
    let (c8, x_p13) = header_part_13(c7, v);
    lemma_step_p13(c7, v);
    let (c9, x_party) = (if v >= 170 { counted_i32s_at(c8) } else { (c8, Seq::empty()) });
    lemma_step_party(c8, v);
    let (c10, x_p14) = header_part_14(c9, v);
    lemma_step_p14(c9, v);
}

fn read_header_b(r: &mut SafeReader, v: i32) -> (res: Result<([u8; 8], (i32, i16, u32), Vec<String>, (bool, i32, bool, bool, bool, i32, i32), Vec<i32>, (bool, bool, bool, bool, bool, bool, bool, bool, bool, bool), (bool, bool, bool, bool, bool, bool, bool, bool, bool), (bool, bool, i32), Vec<i32>, (bool, i32, u32, u32, bool, bool, bool, bool)), WorldParseError>)
    requires
        no_panic(header_b_at(old(r).cursor(), v).0),
    ensures
        final(r).buf@ == old(r).buf@,
        final(r).cur == header_b_at(old(r).cursor(), v).0.pos,
        agrees(res, header_b_at(old(r).cursor(), v).0),
        res matches Ok(t) ==> t.0@ == header_b_at(old(r).cursor(), v).1.0 && t.1 == header_b_at(old(r).cursor(), v).1.1 && t.2@.map_values(|x: String| x@) == header_b_at(old(r).cursor(), v).1.2 && t.3 == header_b_at(old(r).cursor(), v).1.3 && t.4@ == header_b_at(old(r).cursor(), v).1.4 && t.5 == header_b_at(old(r).cursor(), v).1.5 && t.6 == header_b_at(old(r).cursor(), v).1.6 && t.7 == header_b_at(old(r).cursor(), v).1.7 && t.8@ == header_b_at(old(r).cursor(), v).1.8 && t.9 == header_b_at(old(r).cursor(), v).1.9,
{
    proof {
        reveal(header_b_at);
    }
    let ghost c0 = r.cursor();
    let ghost w = header_b_at(c0, v);
    let ghost g1 = take(c0, 8).0;
    let ghost g2 = header_part_10(g1, v).0;
    let ghost g3 = (if v >= 95 { counted_strings_at(g2) } else { (g2, Seq::empty()) }).0;
    let ghost g4 = header_part_22(g3, v).0;
    let ghost g5 = (if v >= 109 { short_counted_i32s_at(g4) } else { (g4, Seq::empty()) }).0;
    let ghost g6 = header_part_11(g5, v).0;
    let ghost g7 = header_part_12(g6, v).0;
    let ghost g8 = header_part_13(g7, v).0;
    let ghost g9 = (if v >= 170 { counted_i32s_at(g8) } else { (g8, Seq::empty()) }).0;
    let ghost g10 = header_part_14(g9, v).0;
    proof {
        lemma_step_bghead(c0, v);
        lemma_step_p10(g1, v);
        lemma_step_anglers(g2, v);
        lemma_step_p22(g3, v);
        lemma_step_kills(g4, v);
        lemma_step_p11(g5, v);
        lemma_step_p12(g6, v);
        lemma_step_p13(g7, v);
        lemma_step_party(g8, v);
        lemma_step_p14(g9, v);
    }
    let bghead = read_eight(r)?;
    assert(r.cursor() == g1);
    let p10 = read_header_part_10(r, v)?;
    assert(r.cursor() == g2);
    let anglers = if v >= 95 { read_counted_strings(r)? } else { Vec::new() };
    assert(r.cursor() == g3);
    let p22 = read_header_part_22(r, v)?;
    assert(r.cursor() == g4);
    let kills = if v >= 109 { read_short_counted_i32s(r)? } else { Vec::new() };
    assert(r.cursor() == g5);
    let p11 = read_header_part_11(r, v)?;
    assert(r.cursor() == g6);
    let p12 = read_header_part_12(r, v)?;
    assert(r.cursor() == g7);
    let p13 = read_header_part_13(r, v)?;
    assert(r.cursor() == g8);
    let party = if v >= 170 { read_counted_i32s(r)? } else { Vec::new() };
    assert(r.cursor() == g9);
    let p14 = read_header_part_14(r, v)?;
    assert(r.cursor() == g10);
    Ok((bghead, p10, anglers, p22, kills, p11, p12, p13, party, p14))
}

/// Reading group C leaves the buffer alone, and a stopped cursor as it is.
proof fn lemma_group_c_stopped(c: Cursor, v: i32, ts: Seq<i32>, bh: Seq<u8>)
    ensures
        header_c_at(c, v, ts, bh).0.buf == c.buf,
        !c.ok() ==> header_c_at(c, v, ts, bh).0 == c,
{
    reveal(header_c_at);
    let (c1, x_p15) = header_part_15(c, v);
    lemma_step_p15(c, v);
    let (c2, x_bgtail) = (if v >= 194 { take(c1, 3) } else { (c1, seq![0u8, 0u8, 0u8]) });
    lemma_step_bgtail(c1, v);
    let (c3, x_p16) = header_part_16(c2, v);
    lemma_step_p16(c2, v);
    let (c4, x_tops) = tree_tops_at(c3, v, ts, bh + seq![x_p15.0, x_p15.1] + x_bgtail);
    lemma_step_tops(c3, v, ts, bh + seq![x_p15.0, x_p15.1] + x_bgtail);
    let (c5, x_p18) = header_part_18(c4, v);
    lemma_step_p18(c4, v);
    let (c6, x_p19) = header_part_19(c5, v);
    lemma_step_p19(c5, v);
    let (c7, x_p20) = header_part_20(c6, v);
    lemma_step_p20(c6, v);
}

fn read_header_c(r: &mut SafeReader, v: i32, tree_style: &[i32; 4], bghead: &[u8; 8]) -> (res: Result<((u8, u8), [u8; 3], (bool, i32, bool, bool, bool), Vec<i32>, (bool, bool, i32, i32, i32, i32, bool, bool, bool, bool, bool, bool), (bool, bool, bool, bool, bool, bool, bool, bool, bool, bool, bool), (bool, bool, bool, bool, bool, bool, bool, bool, u8)), WorldParseError>)
    requires
        no_panic(header_c_at(old(r).cursor(), v, tree_style@, bghead@).0),
    ensures
        final(r).buf@ == old(r).buf@,
        final(r).cur == header_c_at(old(r).cursor(), v, tree_style@, bghead@).0.pos,
        agrees(res, header_c_at(old(r).cursor(), v, tree_style@, bghead@).0),
        res matches Ok(t) ==> t.0 == header_c_at(old(r).cursor(), v, tree_style@, bghead@).1.0 && t.1@ == header_c_at(old(r).cursor(), v, tree_style@, bghead@).1.1 && t.2 == header_c_at(old(r).cursor(), v, tree_style@, bghead@).1.2 && t.3@ == header_c_at(old(r).cursor(), v, tree_style@, bghead@).1.3 && t.4 == header_c_at(old(r).cursor(), v, tree_style@, bghead@).1.4 && t.5 == header_c_at(old(r).cursor(), v, tree_style@, bghead@).1.5 && t.6 == header_c_at(old(r).cursor(), v, tree_style@, bghead@).1.6,
{
    proof {
        reveal(header_c_at);
    }
    let ghost ts = tree_style@;
    let ghost bh = bghead@;
    let ghost c0 = r.cursor();
    let ghost w = header_c_at(c0, v, ts, bh);
    let ghost g1 = header_part_15(c0, v).0;
    let ghost g2 = (if v >= 194 { take(g1, 3) } else { (g1, seq![0u8, 0u8, 0u8]) }).0;
    let ghost g3 = header_part_16(g2, v).0;
    let ghost g4 = tree_tops_at(g3, v, ts, bh + seq![w.1.0.0, w.1.0.1] + w.1.1).0;
    let ghost g5 = header_part_18(g4, v).0;
    let ghost g6 = header_part_19(g5, v).0;
    let ghost g7 = header_part_20(g6, v).0;
    proof {
        lemma_step_p15(c0, v);
        lemma_step_bgtail(g1, v);
        lemma_step_p16(g2, v);
        lemma_step_tops(g3, v, ts, bh + seq![w.1.0.0, w.1.0.1] + w.1.1);
        lemma_step_p18(g4, v);
        lemma_step_p19(g5, v);
        lemma_step_p20(g6, v);
    }
    let p15 = read_header_part_15(r, v)?;
    assert(r.cursor() == g1);
    let bgtail = read_bg_tail(r, v)?;
    assert(r.cursor() == g2);
    let p16 = read_header_part_16(r, v)?;
    assert(r.cursor() == g3);
    let bg: [u8; 13] = [bghead[0], bghead[1], bghead[2], bghead[3], bghead[4], bghead[5], bghead[6], bghead[7], p15.0, p15.1, bgtail[0], bgtail[1], bgtail[2]];
    assert(bg@ =~= bh + seq![w.1.0.0, w.1.0.1] + w.1.1);
    let tops = read_tree_tops(r, v, tree_style, &bg)?;
    assert(r.cursor() == g4);
    let p18 = read_header_part_18(r, v)?;
    assert(r.cursor() == g5);
    let p19 = read_header_part_19(r, v)?;
    assert(r.cursor() == g6);
    let p20 = read_header_part_20(r, v)?;
    assert(r.cursor() == g7);
    Ok((p15, bgtail, p16, tops, p18, p19, p20))
}

/// Reading the header leaves the buffer alone, and a stopped cursor as it is.
pub proof fn lemma_header_stopped(c: Cursor, v: i32)
    ensures
        header_at(c, v).0.buf == c.buf,
        !c.ok() ==> header_at(c, v).0 == c,
{
    reveal(header_at);
    let ga = header_a_at(c, v);
    let gb = header_b_at(ga.0, v);
    lemma_group_a_stopped(c, v);
    lemma_group_b_stopped(ga.0, v);
    lemma_group_c_stopped(gb.0, v, seq![ga.1.6.3, ga.1.6.4, ga.1.6.5, ga.1.6.6], gb.1.0);
}

impl World {
    /// Reads the header of a world file of the metadata's version (see [`header_at`]).
    pub fn read_header(r: &mut SafeReader, metadata: &Metadata) -> (res: Result<Header, WorldParseError>)
        requires
            no_panic(header_at(old(r).cursor(), metadata.version).0),
        ensures
            final(r).buf@ == old(r).buf@,
            final(r).cur == header_at(old(r).cursor(), metadata.version).0.pos,
            agrees(res, header_at(old(r).cursor(), metadata.version).0),
            res matches Ok(h) ==> header_matches(h, header_at(old(r).cursor(), metadata.version).1),
    {
        proof {
            reveal(header_at);
        }
        let v = metadata.version;
        let ghost c0 = r.cursor();
        let ghost ga = header_a_at(c0, v);
        let ghost gb = header_b_at(ga.0, v);
        let ghost ts = seq![ga.1.6.3, ga.1.6.4, ga.1.6.5, ga.1.6.6];
        let ghost gc = header_c_at(gb.0, v, ts, gb.1.0);
        proof {
            lemma_group_a_stopped(c0, v);
            lemma_group_b_stopped(ga.0, v);
            lemma_group_c_stopped(gb.0, v, ts, gb.1.0);
        }
        let a = read_header_a(r, v)?;
        assert(r.cursor() == ga.0);
        let b = read_header_b(r, v)?;
        assert(r.cursor() == gb.0);
        let tree_style = [(a.6).3, (a.6).4, (a.6).5, (a.6).6];
        assert(tree_style@ =~= ts);
        let z = read_header_c(r, v, &tree_style, &b.0)?;
        assert(r.cursor() == gc.0);
        let (names, p1, gm, p2, zen, p21, p3, p4, p5, p6, p7, p8, p9) = a;
        let (bghead, p10, anglers, p22, kills, p11, p12, p13, party, p14) = b;
        let (p15, bgtail, p16, tops, p18, p19, p20) = z;
        let bg: [u8; 13] = [bghead[0], bghead[1], bghead[2], bghead[3], bghead[4], bghead[5], bghead[6], bghead[7], p15.0, p15.1, bgtail[0], bgtail[1], bgtail[2]];
        let ghost whole = header_at(c0, v);
        assert(bg@ =~= header_bg(whole.1));
        let h = Header {
            name: names.0,
            seed_text: names.1,
            worldgen_version: names.2,
            uuid: names.3,
            game_mode: gm,
            world_zenith: zen,
            tree_x: [p3.0, p3.1, p3.2],
            tree_style,
            cave_back_x: [p3.7, p3.8, p3.9],
            cave_back_style: [p4.0, p4.1, p4.2, p4.3],
            bg,
            cloud_bg_alpha: if p10.0 < 1 { 0 } else { 0x3FF0_0000_0000_0000 },
            angler_who_finished_today: anglers,
            npc_kill_counts: kills,
            temp_party_celebrating_npcs: party,
            tree_top_variations: tops,
            id: p1.0,
            left: p1.1,
            right: p1.2,
            top: p1.3,
            bottom: p1.4,
            height: p1.5,
            width: p1.6,
            world_drunk: p2.0,
            world_for_the_worthy: p2.1,
            world_anniversary: p2.2,
            world_dont_starve: p2.3,
            world_not_the_bees: p2.4,
            world_remix: p2.5,
            world_no_traps: p2.6,
            ice_back_style: p4.4,
            jungle_back_style: p4.5,
            hell_back_style: p4.6,
            spawn_tile_x: p4.7,
            spawn_tile_y: p4.8,
            world_surface: p5.0,
            rock_layer: p5.1,
            temp_time: p5.2,
            temp_day_time: p5.3,
            temp_moon_phase: p5.4,
            temp_blood_moon: p5.5,
            temp_eclipse: p5.6,
            dungeon_x: p5.7,
            dungeon_y: p5.8,
            has_crimson: p5.9,
            downed_boss_1: p6.0,
            downed_boss_2: p6.1,
            downed_boss_3: p6.2,
            downed_queen_bee: p6.3,
            downed_mech_boss_1: p6.4,
            downed_mech_boss_2: p6.5,
            downed_mech_boss_3: p6.6,
            downed_mech_boss_any: p6.7,
            downed_plant_boss: p6.8,
            downed_golem_boss: p6.9,
            downed_slime_king: p6.10,
            saved_goblin: p7.0,
            saved_wizard: p7.1,
            saved_mechanic: p7.2,
            downed_goblins: p7.3,
            downed_clown: p7.4,
            downed_frost: p7.5,
            downed_pirates: p7.6,
            smashed_shadow_orb: p7.7,
            spawn_meteor: p7.8,
            shadow_orb_count: p7.9,
            altar_count: p7.10,
            hard_mode: p7.11,
            after_party_of_doom: p8.0,
            invasion_delay: p8.1,
            invasion_size: p8.2,
            invasion_type: p8.3,
            invasion_x: p8.4,
            slime_rain_time: p8.5,
            sundial_cooldown: p8.6,
            temp_raining: p8.7,
            temp_rain_time: p8.8,
            temp_max_rain: p8.9,
            ore_tier_cobalt: p9.0,
            ore_tier_mythril: p9.1,
            ore_tier_adamantite: p9.2,
            cloud_bg_active: p10.0,
            num_clouds: p10.1,
            wind_speed_target: p10.2,
            fast_forward_time_to_dawn: p11.0,
            downed_fishron: p11.1,
            downed_martians: p11.2,
            downed_ancient_cultist: p11.3,
            downed_moonlord: p11.4,
            downed_halloween_king: p11.5,
            downed_halloween_tree: p11.6,
            downed_christmas_ice_queen: p11.7,
            downed_christmas_santank: p11.8,
            downed_christmas_tree: p11.9,
            downed_tower_solar: p12.0,
            downed_tower_vortex: p12.1,
            downed_tower_nebula: p12.2,
            downed_tower_stardust: p12.3,
            tower_active_solar: p12.4,
            tower_active_vortex: p12.5,
            tower_active_nebula: p12.6,
            tower_active_stardust: p12.7,
            lunar_apocalypse_is_up: p12.8,
            temp_party_manual: p13.0,
            temp_party_genuine: p13.1,
            temp_party_cooldown: p13.2,
            temp_sandstorm_happening: p14.0,
            temp_sandstorm_time_left: p14.1,
            temp_sandstorm_severity: p14.2,
            temp_sandstorm_intended_severity: p14.3,
            saved_bartender: p14.4,
            downed_dd2_invasion_t1: p14.5,
            downed_dd2_invasion_t2: p14.6,
            downed_dd2_invasion_t3: p14.7,
            combat_book_was_used: p16.0,
            temp_lantern_night_cooldown: p16.1,
            temp_lantern_night_genuine: p16.2,
            temp_lantern_night_manual: p16.3,
            temp_lantern_night_next_night_is_genuine: p16.4,
            force_halloween_for_today: p18.0,
            force_xmas_for_today: p18.1,
            ore_tier_copper: p18.2,
            ore_tier_iron: p18.3,
            ore_tier_silver: p18.4,
            ore_tier_gold: p18.5,
            bought_cat: p18.6,
            bought_dog: p18.7,
            bought_bunny: p18.8,
            downed_empress_of_light: p18.9,
            downed_queen_slime: p18.10,
            downed_deerclops: p18.11,
            unlocked_slime_blue_spawn: p19.0,
            unlocked_merchant_spawn: p19.1,
            unlocked_demolition_spawn: p19.2,
            unlocked_party_girl_spawn: p19.3,
            unlocked_dye_trader_spawn: p19.4,
            unlocked_truffle_spawn: p19.5,
            unlocked_arms_dealer_spawn: p19.6,
            unlocked_nurse_spawn: p19.7,
            unlocked_princess_spawn: p19.8,
            combat_book_volume_two_was_used: p19.9,
            peddlers_satchel_was_used: p19.10,
            unlocked_slime_green_spawn: p20.0,
            unlocked_slime_old_spawn: p20.1,
            unlocked_slime_purple_spawn: p20.2,
            unlocked_slime_rainbow_spawn: p20.3,
            unlocked_slime_red_spawn: p20.4,
            unlocked_slime_yellow_spawn: p20.5,
            unlocked_slime_copper_spawn: p20.6,
            fast_forward_time_to_dusk: p20.7,
            moondial_cooldown: p20.8,
            creation_time: p21.0,
            moon_type: p21.1,
            saved_angler: p22.0,
            angler_quest: p22.1,
            saved_stylist: p22.2,
            saved_tax_collector: p22.3,
            saved_golfer: p22.4,
            invasion_size_start: p22.5,
            temp_cultist_delay: p22.6,
        };
        assert(h.tree_x@ =~= seq![whole.1.p3.0, whole.1.p3.1, whole.1.p3.2]);
        assert(h.cave_back_x@ =~= seq![whole.1.p3.7, whole.1.p3.8, whole.1.p3.9]);
        assert(h.cave_back_style@ =~= seq![whole.1.p4.0, whole.1.p4.1, whole.1.p4.2, whole.1.p4.3]);
        Ok(h)
    }
}

} // verus!
