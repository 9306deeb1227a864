//! The sections of a world file after the tiles: chests, signs, NPCs, tile entities,
//! weighted pressure plates, room locations, the bestiary, journey powers and the
//! footer.
use vstd::prelude::*;
use crate::binary::cursor::{Cursor, Stop, skip, read_u8, read_bool, read_i16, read_i32, read_u32, read_vector2, read_string_strict, lemma_string_forward};
use crate::binary::types::Vector2;
use crate::world::binary::{SafeReader, agrees, no_panic};
use crate::world::tile::{Tile, follows, forward};
use crate::world::header::{i32s_at, lemma_lists_stopped, read_i32s};
use crate::world::entity::{Entity, EntityInner, EntityInnerModel, inner_at, lemma_inner_stopped};
use crate::world::header::{counted_strings_at, lemma_counted_stopped, read_counted_strings};
use crate::world::types::{WorldParseError, ChestItem, Chest, Sign, NPC, NpcView, Metadata, Header, World, WeightedPressurePlate, RoomLocation, Bestiary, CreativePower};

verus! {

// ---------------------------------------------------------------------------------
// Chests

/// A chest slot: an `i16` stack, then, when it is not 0, the item's id and prefix; a
/// negative stack counts as one item. A stack of 0 is the empty slot.
pub open spec fn chest_item_at(c: Cursor) -> (Cursor, ChestItem) {
    let (c1, stack) = read_i16(c);
    if stack == 0 {
        (c1, ChestItem { id: 0, stack: 0, prefix: 0 })
    } else {
        let (c2, id) = read_i32(c1);
        let (c3, prefix) = read_u8(c2);
        (c3, ChestItem { id, stack: if stack > 0 { stack } else { 1 }, prefix })
    }
}

/// `n` chest slots.
pub open spec fn chest_items_at(c: Cursor, n: nat) -> (Cursor, Seq<ChestItem>)
    decreases n,
{
    if n == 0 {
        (c, Seq::empty())
    } else {
        let (c1, i) = chest_item_at(c);
        let (c2, rest) = chest_items_at(c1, (n - 1) as nat);
        (c2, seq![i] + rest)
    }
}

/// `n` slots beyond those kept: an `i16` stack each, and five bytes passed over when
/// it is positive.
pub open spec fn dropped_items_at(c: Cursor, n: nat) -> Cursor
    decreases n,
{
    if n == 0 {
        c
    } else {
        let (c1, stack) = read_i16(c);
        let c2 = if stack > 0 { skip(c1, 5) } else { c1 };
        dropped_items_at(c2, (n - 1) as nat)
    }
}

/// A chest: its position, its name, `kept` slots and `dropped` further slots passed
/// over. A negative number of kept slots panics (as a vector's length).
pub open spec fn chest_at(c: Cursor, kept: i16, dropped: i16) -> (Cursor, (i32, i32, Seq<char>, Seq<ChestItem>)) {
    let (c1, x) = read_i32(c);
    let (c2, y) = read_i32(c1);
    let (c3, name) = read_string_strict(c2);
    if c3.ok() && kept < 0 {
        (c3.halt(Stop::Panic), (x, y, name, Seq::empty()))
    } else {
        let (c4, items) = chest_items_at(c3, kept as nat);
        let c5 = dropped_items_at(c4, dropped as nat);
        (c5, (x, y, name, items))
    }
}

/// A chest record starts with the chest's x, then its y, each a little-endian `i32`.
pub proof fn lemma_chest_position_order(c: Cursor, kept: i16, dropped: i16)
    requires
        c.ok(),
        0 <= c.pos,
        c.pos + 8 <= c.buf.len(),
        c.buf.len() <= usize::MAX,
    ensures
        chest_at(c, kept, dropped).1.0 == crate::binary::le::from_le32(c.buf.subrange(c.pos, c.pos + 4)) as i32,
        chest_at(c, kept, dropped).1.1 == crate::binary::le::from_le32(c.buf.subrange(c.pos + 4, c.pos + 8)) as i32,
{
}

/// A chest slot is an `i16` stack, and, when the stack is not 0, the item id as a
/// little-endian `i32` after it and the prefix byte after that; a positive stack is kept
/// as it is.
pub proof fn lemma_chest_item_order(c: Cursor)
    requires
        c.ok(),
        0 <= c.pos,
        c.pos + 7 <= c.buf.len(),
        c.buf.len() <= usize::MAX,
    ensures
        ({
            let stack = crate::binary::le::from_le16(c.buf.subrange(c.pos, c.pos + 2)) as i16;
            let item = chest_item_at(c).1;
            &&& stack == 0 ==> item == (ChestItem { id: 0, stack: 0, prefix: 0 })
            &&& stack > 0 ==> item.stack == stack
            &&& stack != 0 ==> item.id == crate::binary::le::from_le32(c.buf.subrange(c.pos + 2, c.pos + 6)) as i32
                && item.prefix == c.buf[c.pos + 6]
        }),
{
    assert(c.buf.subrange(c.pos + 6, c.pos + 7)[0] == c.buf[c.pos + 6]);
}

/// A sign record is the sign's text, then its x and its y as little-endian `i32`s right
/// after the text.
pub proof fn lemma_sign_record_order(c: Cursor, n: nat, tiles: Seq<Seq<Tile>>)
    requires
        n > 0,
        read_string_strict(c).0.ok(),
        0 <= read_string_strict(c).0.pos,
        read_string_strict(c).0.pos + 8 <= c.buf.len(),
        c.buf.len() <= usize::MAX,
        ({
            let p = read_string_strict(c).0.pos;
            let x = crate::binary::le::from_le32(c.buf.subrange(p, p + 4)) as i32;
            let y = crate::binary::le::from_le32(c.buf.subrange(p + 4, p + 8)) as i32;
            0 <= x < tiles.len() && 0 <= y < tiles[x as int].len() && is_sign_tile(tiles[x as int][y as int])
        }),
    ensures
        ({
            let p = read_string_strict(c).0.pos;
            sign_list_at(c, n, tiles).1[0] == (
                crate::binary::le::from_le32(c.buf.subrange(p, p + 4)) as i32,
                crate::binary::le::from_le32(c.buf.subrange(p + 4, p + 8)) as i32,
                read_string_strict(c).1,
            )
        }),
{
    lemma_string_forward(c);
}

/// `n` chests.
pub open spec fn chest_list_at(c: Cursor, n: nat, kept: i16, dropped: i16) -> (Cursor, Seq<(i32, i32, Seq<char>, Seq<ChestItem>)>)
    decreases n,
{
    if n == 0 {
        (c, Seq::empty())
    } else {
        let (c1, ch) = chest_at(c, kept, dropped);
        let (c2, rest) = chest_list_at(c1, (n - 1) as nat, kept, dropped);
        (c2, seq![ch] + rest)
    }
}

/// The chests: an `i16` count (a negative one panics), an `i16` number of slots per
/// chest of which at most forty are kept, then the chests.
#[verifier::opaque]
pub open spec fn chests_at(c: Cursor) -> (Cursor, Seq<(i32, i32, Seq<char>, Seq<ChestItem>)>) {
    let (c1, count) = read_i16(c);
    if c1.ok() && count < 0 {
        (c1.halt(Stop::Panic), Seq::empty())
    } else {
        let (c2, slots) = read_i16(c1);
        let kept: i16 = if slots < 40 { slots } else { 40 };
        let dropped: i16 = if slots < 40 { 0 } else { (slots - 40) as i16 };
        chest_list_at(c2, count as nat, kept, dropped)
    }
}

/// Reading chests leaves the buffer alone and a stopped cursor as it is.
pub proof fn lemma_chests_stopped(c: Cursor, n: nat, kept: i16, dropped: i16)
    ensures
        chest_items_at(c, n).0.buf == c.buf,
        !c.ok() ==> chest_items_at(c, n).0 == c,
        chest_items_at(c, n).1.len() == n,
        dropped_items_at(c, n).buf == c.buf,
        !c.ok() ==> dropped_items_at(c, n) == c,
        chest_list_at(c, n, kept, dropped).0.buf == c.buf,
        !c.ok() ==> chest_list_at(c, n, kept, dropped).0 == c,
        chest_at(c, kept, dropped).0.buf == c.buf,
        !c.ok() ==> chest_at(c, kept, dropped).0 == c,
    decreases n,
{
    lemma_string_forward(read_i32(read_i32(c).0).0);
    let c3 = read_string_strict(read_i32(read_i32(c).0).0).0;
    lemma_chest_slots_stopped(c3, kept as nat, dropped as nat);
    if n > 0 {
        lemma_chests_stopped(chest_item_at(c).0, (n - 1) as nat, kept, dropped);
        let (c1, stack) = read_i16(c);
        let c2 = if stack > 0 { skip(c1, 5) } else { c1 };
        lemma_chests_stopped(c2, (n - 1) as nat, kept, dropped);
        lemma_chests_stopped(chest_at(c, kept, dropped).0, (n - 1) as nat, kept, dropped);
    }
}

proof fn lemma_chest_slots_stopped(c: Cursor, kept: nat, dropped: nat)
    ensures
        chest_items_at(c, kept).0.buf == c.buf,
        !c.ok() ==> chest_items_at(c, kept).0 == c,
        dropped_items_at(chest_items_at(c, kept).0, dropped).buf == c.buf,
        !c.ok() ==> dropped_items_at(chest_items_at(c, kept).0, dropped) == c,
    decreases kept + dropped,
{
    if kept > 0 {
        lemma_chest_slots_stopped(chest_item_at(c).0, (kept - 1) as nat, dropped);
    } else if dropped > 0 {
        let (c1, stack) = read_i16(c);
        let c2 = if stack > 0 { skip(c1, 5) } else { c1 };
        lemma_chest_slots_stopped(c2, 0, (dropped - 1) as nat);
    }
}

fn read_chest_item(r: &mut SafeReader) -> (res: Result<ChestItem, WorldParseError>)
    requires
        no_panic(chest_item_at(old(r).cursor()).0),
    ensures
        follows(*old(r), *final(r), res, chest_item_at(old(r).cursor()).0, chest_item_at(old(r).cursor()).1),
{
    let stack = r.read_i16()?;
    if stack == 0 {
        Ok(ChestItem { id: 0, stack: 0, prefix: 0 })
    } else {
        let id = r.read_i32()?;
        let prefix = r.read_byte()?;
        Ok(ChestItem { id, stack: if stack > 0 { stack } else { 1 }, prefix })
    }
}

fn read_chest_items(r: &mut SafeReader, n: usize) -> (res: Result<Vec<ChestItem>, WorldParseError>)
    requires
        no_panic(chest_items_at(old(r).cursor(), n as nat).0),
    ensures
        final(r).buf@ == old(r).buf@,
        final(r).cur == chest_items_at(old(r).cursor(), n as nat).0.pos,
        agrees(res, chest_items_at(old(r).cursor(), n as nat).0),
        res matches Ok(v) ==> v@ == chest_items_at(old(r).cursor(), n as nat).1,
{
    let ghost target = chest_items_at(r.cursor(), n as nat);
    let mut v: Vec<ChestItem> = Vec::new();
    let mut i: usize = 0;
    while i < n
        invariant
            i <= n,
            r.buf@ == old(r).buf@,
            target == chest_items_at(old(r).cursor(), n as nat),
            chest_items_at(r.cursor(), (n - i) as nat).0 == target.0,
            v@ + chest_items_at(r.cursor(), (n - i) as nat).1 == target.1,
            no_panic(target.0),
        decreases n - i,
    {
        let ghost c = r.cursor();
        proof {
            lemma_chests_stopped(chest_item_at(c).0, (n - i - 1) as nat, 0, 0);
        }
        let item = read_chest_item(r)?;
        let ghost before = v@;
        v.push(item);
        i = i + 1;
        assert(v@ + chest_items_at(r.cursor(), (n - i) as nat).1 =~= before + (seq![item]
            + chest_items_at(r.cursor(), (n - i) as nat).1));
    }
    assert(v@ =~= target.1);
    Ok(v)
}

fn pass_dropped_items(r: &mut SafeReader, n: usize) -> (res: Result<(), WorldParseError>)
    requires
        no_panic(dropped_items_at(old(r).cursor(), n as nat)),
    ensures
        final(r).buf@ == old(r).buf@,
        final(r).cur == dropped_items_at(old(r).cursor(), n as nat).pos,
        agrees(res, dropped_items_at(old(r).cursor(), n as nat)),
{
    let mut i: usize = 0;
    while i < n
        invariant
            i <= n,
            r.buf@ == old(r).buf@,
            dropped_items_at(r.cursor(), (n - i) as nat) == dropped_items_at(old(r).cursor(), n as nat),
            no_panic(dropped_items_at(old(r).cursor(), n as nat)),
        decreases n - i,
    {
        let ghost c = r.cursor();
        proof {
            let (c1, stack) = read_i16(c);
            lemma_chests_stopped(c1, (n - i - 1) as nat, 0, 0);
            lemma_chests_stopped(skip(c1, 5), (n - i - 1) as nat, 0, 0);
        }
        let stack = r.read_i16()?;
        if stack > 0 {
            r.skip(5);
        }
        i = i + 1;
    }
    Ok(())
}

fn read_chest(r: &mut SafeReader, kept: i16, dropped: i16) -> (res: Result<Chest, WorldParseError>)
    requires
        no_panic(chest_at(old(r).cursor(), kept, dropped).0),
        dropped >= 0,
    ensures
        final(r).buf@ == old(r).buf@,
        final(r).cur == chest_at(old(r).cursor(), kept, dropped).0.pos,
        agrees(res, chest_at(old(r).cursor(), kept, dropped).0),
        res matches Ok(ch) ==> ch@ == chest_at(old(r).cursor(), kept, dropped).1,
{
    let ghost c = r.cursor();
    let ghost c2 = read_i32(read_i32(c).0).0;
    proof {
        lemma_string_forward(c2);
        lemma_chest_slots_stopped(read_string_strict(c2).0, kept as nat, dropped as nat);
    }
    let x = r.read_i32()?;
    let y = r.read_i32()?;
    let name = r.read_string()?;
    if kept < 0 {
        assert(false);
    }
    let k: usize = kept as usize;
    let d: usize = dropped as usize;
    assert(k == kept && d == dropped);
    proof {
        lemma_chests_stopped(chest_items_at(r.cursor(), k as nat).0, d as nat, 0, 0);
    }
    let items = read_chest_items(r, k)?;
    pass_dropped_items(r, d)?;
    Ok(Chest { x, y, name, items })
}

impl World {
    /// Reads the chests (see [`chests_at`]).
    pub fn read_chests(r: &mut SafeReader) -> (res: Result<Vec<Chest>, WorldParseError>)
        requires
            no_panic(chests_at(old(r).cursor()).0),
        ensures
            final(r).buf@ == old(r).buf@,
            final(r).cur == chests_at(old(r).cursor()).0.pos,
            agrees(res, chests_at(old(r).cursor()).0),
            res matches Ok(v) ==> v@.map_values(|ch: Chest| ch@) == chests_at(old(r).cursor()).1,
    {
        proof {
            reveal(chests_at);
        }
        let ghost c0 = r.cursor();
        let ghost c1 = read_i16(c0).0;
        let ghost c2 = read_i16(c1).0;
        let ghost s = read_i16(c1).1;
        let ghost k: i16 = if s < 40 { s } else { 40 };
        let ghost d: i16 = if s < 40 { 0 } else { (s - 40) as i16 };
        proof {
            lemma_chests_stopped(c2, read_i16(c0).1 as nat, k, d);
        }
        let count = r.read_i16()?;
        if count < 0 {
            assert(false);
        }
        let slots = r.read_i16()?;
        let kept: i16 = if slots < 40 { slots } else { 40 };
        let dropped: i16 = if slots < 40 { 0 } else { slots - 40 };
        let n = count as usize;
        let ghost target = chests_at(c0);
        assert(target == chest_list_at(r.cursor(), n as nat, kept, dropped));
        let mut v: Vec<Chest> = Vec::new();
        let mut i: usize = 0;
        while i < n
            invariant
                i <= n,
                r.buf@ == old(r).buf@,
                target == chests_at(old(r).cursor()),
                dropped >= 0,
                chest_list_at(r.cursor(), (n - i) as nat, kept, dropped).0 == target.0,
                v@.map_values(|ch: Chest| ch@) + chest_list_at(r.cursor(), (n - i) as nat, kept, dropped).1 == target.1,
                no_panic(target.0),
            decreases n - i,
        {
            let ghost c = r.cursor();
            proof {
                lemma_chests_stopped(c, 0, kept, dropped);
                lemma_chests_stopped(chest_at(c, kept, dropped).0, (n - i - 1) as nat, kept, dropped);
            }
            let ch = read_chest(r, kept, dropped)?;
            let ghost before = v@.map_values(|ch: Chest| ch@);
            v.push(ch);
            i = i + 1;
            assert(v@.map_values(|ch: Chest| ch@) =~= before.push(ch@));
            assert(v@.map_values(|ch: Chest| ch@) + chest_list_at(r.cursor(), (n - i) as nat, kept, dropped).1
                =~= before + (seq![ch@] + chest_list_at(r.cursor(), (n - i) as nat, kept, dropped).1));
        }
        assert(v@.map_values(|ch: Chest| ch@) =~= target.1);
        Ok(v)
    }
}

// ---------------------------------------------------------------------------------
// Signs

/// A sign tile: active, of one of the four sign types (sign, tombstone, announcement
/// box, tattered wood sign).
pub open spec fn is_sign_tile(t: Tile) -> bool {
    t.active && (t.id == 55 || t.id == 85 || t.id == 425 || t.id == 573)
}

/// `n` signs: text and position each; a sign is kept when its tile is a sign tile.
/// A position outside the tiles panics (it indexes them).
pub open spec fn sign_list_at(c: Cursor, n: nat, tiles: Seq<Seq<Tile>>) -> (Cursor, Seq<(i32, i32, Seq<char>)>)
    decreases n,
{
    if n == 0 {
        (c, Seq::empty())
    } else {
        let (c1, text) = read_string_strict(c);
        let (c2, x) = read_i32(c1);
        let (c3, y) = read_i32(c2);
        if c3.ok() && !(0 <= x < tiles.len() && 0 <= y < tiles[x as int].len()) {
            (c3.halt(Stop::Panic), Seq::empty())
        } else {
            let (c4, rest) = sign_list_at(c3, (n - 1) as nat, tiles);
            (c4, if c3.ok() && is_sign_tile(tiles[x as int][y as int]) {
                seq![(x, y, text)] + rest
            } else {
                rest
            })
        }
    }
}

/// The signs: an `i16` count (a negative one panics), then the signs.
#[verifier::opaque]
pub open spec fn signs_at(c: Cursor, tiles: Seq<Seq<Tile>>) -> (Cursor, Seq<(i32, i32, Seq<char>)>) {
    let (c1, n) = read_i16(c);
    if c1.ok() && n < 0 {
        (c1.halt(Stop::Panic), Seq::empty())
    } else {
        sign_list_at(c1, n as nat, tiles)
    }
}

/// Reading signs leaves the buffer alone and a stopped cursor as it is.
pub proof fn lemma_signs_stopped(c: Cursor, n: nat, tiles: Seq<Seq<Tile>>)
    ensures
        sign_list_at(c, n, tiles).0.buf == c.buf,
        !c.ok() ==> sign_list_at(c, n, tiles).0 == c,
    decreases n,
{
    lemma_string_forward(c);
    if n > 0 {
        let c3 = read_i32(read_i32(read_string_strict(c).0).0).0;
        lemma_signs_stopped(c3, (n - 1) as nat, tiles);
    }
}

impl World {
    /// Reads the signs, keeping those on sign tiles of `tiles` (see [`signs_at`]).
    pub fn read_signs(r: &mut SafeReader, tiles: &[Vec<Tile>]) -> (res: Result<Vec<Sign>, WorldParseError>)
        requires
            no_panic(signs_at(old(r).cursor(), tiles@.map_values(|col: Vec<Tile>| col@)).0),
        ensures
            final(r).buf@ == old(r).buf@,
            final(r).cur == signs_at(old(r).cursor(), tiles@.map_values(|col: Vec<Tile>| col@)).0.pos,
            agrees(res, signs_at(old(r).cursor(), tiles@.map_values(|col: Vec<Tile>| col@)).0),
            res matches Ok(v) ==> v@.map_values(|s: Sign| s@) == signs_at(
                old(r).cursor(),
                tiles@.map_values(|col: Vec<Tile>| col@),
            ).1,
    {
        proof {
            reveal(signs_at);
        }
        let ghost ts = tiles@.map_values(|col: Vec<Tile>| col@);
        let ghost c0 = r.cursor();
        proof {
            lemma_signs_stopped(read_i16(c0).0, read_i16(c0).1 as nat, ts);
        }
        let count = r.read_i16()?;
        if count < 0 {
            assert(false);
        }
        let n = count as usize;
        let ghost target = signs_at(c0, ts);
        let mut v: Vec<Sign> = Vec::new();
        let mut i: usize = 0;
        while i < n
            invariant
                i <= n,
                r.buf@ == old(r).buf@,
                ts == tiles@.map_values(|col: Vec<Tile>| col@),
                target == signs_at(old(r).cursor(), ts),
                sign_list_at(r.cursor(), (n - i) as nat, ts).0 == target.0,
                v@.map_values(|s: Sign| s@) + sign_list_at(r.cursor(), (n - i) as nat, ts).1 == target.1,
                no_panic(target.0),
            decreases n - i,
        {
            let ghost c = r.cursor();
            proof {
                lemma_string_forward(c);
                let c3 = read_i32(read_i32(read_string_strict(c).0).0).0;
                lemma_signs_stopped(c3, (n - i - 1) as nat, ts);
            }
            let text = r.read_string()?;
            let x = r.read_i32()?;
            let y = r.read_i32()?;
            if x < 0 || x as usize >= tiles.len() {
                assert(false);
            }
            let col = &tiles[x as usize];
            if y < 0 || y as usize >= col.len() {
                assert(false);
            }
            let t = col[y as usize];
            assert(t == ts[x as int][y as int]);
            let ghost before = v@.map_values(|s: Sign| s@);
            if t.active && (t.id == 55 || t.id == 85 || t.id == 425 || t.id == 573) {
                let sign = Sign { x, y, text };
                v.push(sign);
                assert(v@.map_values(|s: Sign| s@) =~= before.push((x, y, sign.text@)));
            } else {
                assert(v@.map_values(|s: Sign| s@) =~= before);
            }
            i = i + 1;
            assert(v@.map_values(|s: Sign| s@) + sign_list_at(r.cursor(), (n - i) as nat, ts).1 =~= before
                + sign_list_at(c, (n - i + 1) as nat, ts).1);
        }
        assert(v@.map_values(|s: Sign| s@) =~= target.1);
        Ok(v)
    }
}

// ---------------------------------------------------------------------------------
// NPCs

/// The ids of shimmered NPCs, from version 268: an `i32` count (none when it is not
/// positive), then the ids.
pub open spec fn shimmers_at(c: Cursor, v: i32) -> (Cursor, Seq<i32>) {
    if v >= 268 {
        let (c1, n) = read_i32(c);
        i32s_at(c1, if n > 0 { n as nat } else { 0 })
    } else {
        (c, Seq::empty())
    }
}

/// The NPC that a failed read gives.
pub open spec fn no_npc() -> NpcView {
    NpcView {
        id: 0,
        name: Seq::empty(),
        position: Vector2(0, 0),
        homeless: false,
        shimmer: false,
        home_x: 0,
        home_y: 0,
        variation: 0,
    }
}

/// An NPC: its id (an `i32`; before version 190 NPCs are named, which panics as not
/// implemented), name, position, homelessness, home, and from version 213 a flag byte
/// whose bit 0 announces a variation. It is shimmered when its id is among `shimmers`.
pub open spec fn npc_at(c: Cursor, v: i32, shimmers: Seq<i32>) -> (Cursor, NpcView) {
    if v < 190 {
        (c.halt(Stop::Panic), no_npc())
    } else {
        let (c1, id) = read_i32(c);
        let (c2, name) = read_string_strict(c1);
        let (c3, position) = read_vector2(c2);
        let (c4, homeless) = read_bool(c3);
        let (c5, home_x) = read_i32(c4);
        let (c6, home_y) = read_i32(c5);
        let (c7, variation) = if v >= 213 {
            let (ca, b) = read_u8(c6);
            if b & 1 == 1 { read_i32(ca) } else { (ca, 0i32) }
        } else {
            (c6, 0i32)
        };
        (c7, NpcView { id, name, position, homeless, shimmer: shimmers.contains(id), home_x, home_y, variation })
    }
}

/// A flag announcing an NPC, and the NPC when the flag is true.
pub open spec fn npc_entry_at(c: Cursor, v: i32, shimmers: Seq<i32>) -> (Cursor, Option<NpcView>) {
    let (c1, more) = read_bool(c);
    if !c1.ok() || !more {
        (c1, None)
    } else {
        let (c2, npc) = npc_at(c1, v, shimmers);
        (c2, Some(npc))
    }
}

/// NPCs, each announced by a true flag, until a false one.
#[verifier::opaque]
pub open spec fn npc_list_at(c: Cursor, v: i32, shimmers: Seq<i32>) -> (Cursor, Seq<NpcView>)
    decreases c.buf.len() - c.pos,
{
    if !c.ok() || c.pos < 0 {
        (c, Seq::empty())
    } else {
        let (c2, e) = npc_entry_at(c, v, shimmers);
        match e {
            None => (c2, Seq::empty()),
            Some(npc) => if !c2.ok() {
                (c2, Seq::empty())
            } else if !(c.pos < c2.pos <= c.buf.len() && c2.buf == c.buf) {
                // never taken: the flag takes a byte of the buffer
                (c2.halt(Stop::Panic), Seq::empty())
            } else {
                let (c3, rest) = npc_list_at(c2, v, shimmers);
                (c3, seq![npc] + rest)
            },
        }
    }
}

/// A flag announcing a new id and position for the next NPC, and, when it is true and
/// there is a next NPC, the id (an `i32`; before version 190 a name, which panics as
/// not implemented) and the position.
pub open spec fn npc_update_at(c: Cursor, v: i32, has_next: bool) -> (Cursor, Option<(i32, Vector2)>) {
    let (c1, more) = read_bool(c);
    if !c1.ok() || !more || !has_next {
        (c1, None)
    } else if v < 190 {
        (c1.halt(Stop::Panic), None)
    } else {
        let (c2, id) = read_i32(c1);
        let (c3, position) = read_vector2(c2);
        (c3, Some((id, position)))
    }
}

/// From version 140, the NPCs' new ids and positions, in order, until a false flag or
/// a flag beyond the last NPC.
#[verifier::opaque]
pub open spec fn npc_updates_at(c: Cursor, v: i32, npcs: Seq<NpcView>, k: nat) -> (Cursor, Seq<NpcView>)
    decreases c.buf.len() - c.pos,
{
    if !c.ok() || c.pos < 0 {
        (c, npcs)
    } else {
        let (c3, e) = npc_update_at(c, v, k < npcs.len());
        match e {
            None => (c3, npcs),
            Some(u) => if !c3.ok() {
                (c3, npcs)
            } else if !(c.pos < c3.pos <= c.buf.len() && c3.buf == c.buf) {
                // never taken: the flag takes a byte of the buffer
                (c3.halt(Stop::Panic), npcs)
            } else {
                npc_updates_at(c3, v, npcs.update(k as int, NpcView { id: u.0, position: u.1, ..npcs[k as int] }), k + 1)
            },
        }
    }
}

/// The NPC section: shimmered ids, NPCs, and from version 140 their updates.
#[verifier::opaque]
pub open spec fn npcs_at(c: Cursor, v: i32) -> (Cursor, Seq<NpcView>) {
    let (c1, shimmers) = shimmers_at(c, v);
    let (c2, npcs) = npc_list_at(c1, v, shimmers);
    if v >= 140 {
        npc_updates_at(c2, v, npcs, 0)
    } else {
        (c2, npcs)
    }
}

proof fn lemma_npc_entry_forward(c: Cursor, v: i32, shimmers: Seq<i32>, has_next: bool)
    ensures
        forward(c, npc_entry_at(c, v, shimmers).0),
        npc_entry_at(c, v, shimmers).1 is Some && npc_entry_at(c, v, shimmers).0.ok() ==> c.pos
            < npc_entry_at(c, v, shimmers).0.pos <= c.buf.len(),
        forward(c, npc_update_at(c, v, has_next).0),
        npc_update_at(c, v, has_next).1 is Some && npc_update_at(c, v, has_next).0.ok() ==> c.pos
            < npc_update_at(c, v, has_next).0.pos <= c.buf.len(),
{
    lemma_string_forward(read_i32(read_bool(c).0).0);
}

/// Reading NPCs leaves the buffer alone and a stopped cursor as it is.
pub proof fn lemma_npcs_stopped(c: Cursor, v: i32, shimmers: Seq<i32>, npcs: Seq<NpcView>, k: nat)
    ensures
        npc_list_at(c, v, shimmers).0.buf == c.buf,
        !c.ok() ==> npc_list_at(c, v, shimmers).0 == c,
        npc_updates_at(c, v, npcs, k).0.buf == c.buf,
        !c.ok() ==> npc_updates_at(c, v, npcs, k).0 == c,
    decreases c.buf.len() - c.pos,
{
    reveal(npc_list_at);
    reveal(npc_updates_at);
    if c.ok() && c.pos >= 0 {
        lemma_npc_entry_forward(c, v, shimmers, k < npcs.len());
        let (c2, e) = npc_entry_at(c, v, shimmers);
        if e is Some && c2.ok() && c.pos < c2.pos <= c.buf.len() && c2.buf == c.buf {
            lemma_npcs_stopped(c2, v, shimmers, npcs, k);
        }
        let (c3, u) = npc_update_at(c, v, k < npcs.len());
        if u is Some && c3.ok() && c.pos < c3.pos <= c.buf.len() && c3.buf == c.buf {
            let w = u->Some_0;
            lemma_npcs_stopped(c3, v, shimmers, npcs.update(k as int, NpcView { id: w.0, position: w.1, ..npcs[k as int] }), k + 1);
        }
    }
}

fn read_npc(r: &mut SafeReader, v: i32, shimmers: &Vec<i32>) -> (res: Result<NPC, WorldParseError>)
    requires
        no_panic(npc_at(old(r).cursor(), v, shimmers@).0),
    ensures
        final(r).buf@ == old(r).buf@,
        final(r).cur == npc_at(old(r).cursor(), v, shimmers@).0.pos,
        agrees(res, npc_at(old(r).cursor(), v, shimmers@).0),
        res matches Ok(n) ==> n@ == npc_at(old(r).cursor(), v, shimmers@).1,
{
    if v < 190 {
        assert(false);
    }
    proof {
        lemma_string_forward(read_i32(old(r).cursor()).0);
    }
    let id = r.read_i32()?;
    let name = r.read_string()?;
    let position = r.read_vector2()?;
    let homeless = r.read_bool()?;
    let home_x = r.read_i32()?;
    let home_y = r.read_i32()?;
    let variation: i32 = if v >= 213 {
        let b = r.read_byte()?;
        if b & 1 == 1 { r.read_i32()? } else { 0 }
    } else {
        0
    };
    let mut shimmer = false;
    let mut j: usize = 0;
    while j < shimmers.len()
        invariant
            j <= shimmers@.len(),
            shimmer == (exists|t: int| 0 <= t < j && shimmers@[t] == id),
        decreases shimmers.len() - j,
    {
        if shimmers[j] == id {
            shimmer = true;
        }
        j = j + 1;
    }
    assert(shimmer == shimmers@.contains(id));
    Ok(NPC { id, name, position, homeless, shimmer, home_x, home_y, variation })
}

fn read_npc_entry(r: &mut SafeReader, v: i32, shimmers: &Vec<i32>) -> (res: Result<Option<NPC>, WorldParseError>)
    requires
        no_panic(npc_entry_at(old(r).cursor(), v, shimmers@).0),
    ensures
        final(r).buf@ == old(r).buf@,
        final(r).cur == npc_entry_at(old(r).cursor(), v, shimmers@).0.pos,
        agrees(res, npc_entry_at(old(r).cursor(), v, shimmers@).0),
        res matches Ok(e) ==> match (e, npc_entry_at(old(r).cursor(), v, shimmers@).1) {
            (Some(n), Some(m)) => n@ == m,
            (None, None) => true,
            _ => false,
        },
{
    let more = r.read_bool()?;
    if !more {
        return Ok(None);
    }
    let npc = read_npc(r, v, shimmers)?;
    Ok(Some(npc))
}

fn read_npc_update(r: &mut SafeReader, v: i32, has_next: bool) -> (res: Result<Option<(i32, Vector2)>, WorldParseError>)
    requires
        no_panic(npc_update_at(old(r).cursor(), v, has_next).0),
    ensures
        follows(*old(r), *final(r), res, npc_update_at(old(r).cursor(), v, has_next).0, npc_update_at(old(r).cursor(), v, has_next).1),
{
    let more = r.read_bool()?;
    if !more || !has_next {
        return Ok(None);
    }
    if v < 190 {
        assert(false);
    }
    let id = r.read_i32()?;
    let position = r.read_vector2()?;
    Ok(Some((id, position)))
}

impl World {
    /// Reads the NPCs (see [`npcs_at`]) of a world of the metadata's version.
    pub fn read_npcs(r: &mut SafeReader, metadata: &Metadata) -> (res: Result<Vec<NPC>, WorldParseError>)
        requires
            no_panic(npcs_at(old(r).cursor(), metadata.version).0),
        ensures
            final(r).buf@ == old(r).buf@,
            final(r).cur == npcs_at(old(r).cursor(), metadata.version).0.pos,
            agrees(res, npcs_at(old(r).cursor(), metadata.version).0),
            res matches Ok(n) ==> n@.map_values(|x: NPC| x@) == npcs_at(old(r).cursor(), metadata.version).1,
    {
        proof {
            reveal(npcs_at);
        }
        let v = metadata.version;
        let ghost c0 = r.cursor();
        let ghost s = shimmers_at(c0, v);
        let ghost l = npc_list_at(s.0, v, s.1);
        proof {
            lemma_lists_stopped(read_i32(c0).0, if read_i32(c0).1 > 0 { read_i32(c0).1 as nat } else { 0 });
            lemma_npcs_stopped(s.0, v, s.1, Seq::empty(), 0);
            lemma_npcs_stopped(l.0, v, s.1, l.1, 0);
        }
        let shimmers: Vec<i32> = if v >= 268 {
            let n = r.read_i32()?;
            let m: usize = if n > 0 { n as usize } else { 0 };
            read_i32s(r, m)?
        } else {
            Vec::new()
        };
        assert(shimmers@ == s.1);
        let mut npcs: Vec<NPC> = Vec::new();
        loop
            invariant_except_break
                npc_list_at(r.cursor(), v, s.1).0 == l.0,
                npcs@.map_values(|x: NPC| x@) + npc_list_at(r.cursor(), v, s.1).1 == l.1,
            invariant
                r.buf@ == old(r).buf@,
                shimmers@ == s.1,
                l == npc_list_at(s.0, v, s.1),
                no_panic(npcs_at(old(r).cursor(), v).0),
                s == shimmers_at(old(r).cursor(), v),
                v == metadata.version,
                v >= 140 ==> npcs_at(old(r).cursor(), v).0 == npc_updates_at(l.0, v, l.1, 0).0,
                v < 140 ==> npcs_at(old(r).cursor(), v).0 == l.0,
                !l.0.ok() ==> npc_updates_at(l.0, v, l.1, 0).0 == l.0,
            ensures
                r.cursor() == l.0,
                npcs@.map_values(|x: NPC| x@) == l.1,
            decreases r.buf@.len() - r.cur,
        {
            let ghost c = r.cursor();
            proof {
                reveal(npc_list_at);
                lemma_npc_entry_forward(c, v, s.1, false);
                lemma_npcs_stopped(npc_entry_at(c, v, s.1).0, v, s.1, Seq::empty(), 0);
            }
            let e = read_npc_entry(r, v, &shimmers)?;
            match e {
                None => {
                    assert(npcs@.map_values(|x: NPC| x@) =~= l.1);
                    break;
                },
                Some(npc) => {
                    let ghost before = npcs@.map_values(|x: NPC| x@);
                    npcs.push(npc);
                    assert(npcs@.map_values(|x: NPC| x@) =~= before.push(npc@));
                    assert(npcs@.map_values(|x: NPC| x@) + npc_list_at(r.cursor(), v, s.1).1 =~= before + (
                    seq![npc@] + npc_list_at(r.cursor(), v, s.1).1));
                },
            }
        }
        if v >= 140 {
            let ghost u = npc_updates_at(l.0, v, l.1, 0);
            let mut k: usize = 0;
            loop
                invariant_except_break
                    npc_updates_at(r.cursor(), v, npcs@.map_values(|x: NPC| x@), k as nat) == u,
                invariant
                    r.buf@ == old(r).buf@,
                    v >= 140,
                    v == metadata.version,
                    npcs@.len() == l.1.len(),
                    k <= npcs@.len(),
                    no_panic(u.0),
                    u == npc_updates_at(l.0, v, l.1, 0),
                    npcs_at(old(r).cursor(), v).0 == u.0,
                ensures
                    r.cursor() == u.0,
                    npcs@.map_values(|x: NPC| x@) == u.1,
                decreases r.buf@.len() - r.cur,
            {
                let ghost c = r.cursor();
                let ghost ns = npcs@.map_values(|x: NPC| x@);
                proof {
                    reveal(npc_updates_at);
                    lemma_npc_entry_forward(c, v, Seq::empty(), k < ns.len());
                    let (c3, e) = npc_update_at(c, v, k < ns.len());
                    if e is Some {
                        let w = e->Some_0;
                        lemma_npcs_stopped(c3, v, Seq::empty(), ns.update(k as int, NpcView { id: w.0, position: w.1, ..ns[k as int] }), (k + 1) as nat);
                    }
                }
                let e = read_npc_update(r, v, k < npcs.len())?;
                match e {
                    None => {
                        break;
                    },
                    Some(u2) => {
                        let (id, position) = u2;
                        let old_npc = &npcs[k];
                        let updated = NPC {
                            id,
                            name: old_npc.name.clone(),
                            position,
                            homeless: old_npc.homeless,
                            shimmer: old_npc.shimmer,
                            home_x: old_npc.home_x,
                            home_y: old_npc.home_y,
                            variation: old_npc.variation,
                        };
                        npcs.set(k, updated);
                        assert(npcs@.map_values(|x: NPC| x@) =~= ns.update(k as int, NpcView { id, position, ..ns[k as int] }));
                        k = k + 1;
                    },
                }
            }
        }
        Ok(npcs)
    }
}

// ---------------------------------------------------------------------------------
// Tile entities

/// `n` tile entities: kind byte, id, position, then the body of a known kind (see
/// [`inner_at`]); an entity of an unknown kind (above 7) is left out, its body unread.
pub open spec fn entity_list_at(c: Cursor, n: nat) -> (Cursor, Seq<(i32, i16, i16, EntityInnerModel)>)
    decreases n,
{
    if n == 0 {
        (c, Seq::empty())
    } else {
        let (c1, kind) = read_u8(c);
        let (c2, id) = read_i32(c1);
        let (c3, x) = read_i16(c2);
        let (c4, y) = read_i16(c3);
        if kind <= 7 {
            let (c5, inner) = inner_at(c4, kind);
            let (c6, rest) = entity_list_at(c5, (n - 1) as nat);
            (c6, seq![(id, x, y, inner)] + rest)
        } else {
            entity_list_at(c4, (n - 1) as nat)
        }
    }
}

/// The tile entities: an `i32` count (a negative one panics), then the entities.
#[verifier::opaque]
pub open spec fn entities_at(c: Cursor) -> (Cursor, Seq<(i32, i16, i16, EntityInnerModel)>) {
    let (c1, n) = read_i32(c);
    if c1.ok() && n < 0 {
        (c1.halt(Stop::Panic), Seq::empty())
    } else {
        entity_list_at(c1, n as nat)
    }
}

/// Reading entities leaves the buffer alone and a stopped cursor as it is.
pub proof fn lemma_entities_stopped(c: Cursor, n: nat)
    ensures
        entity_list_at(c, n).0.buf == c.buf,
        !c.ok() ==> entity_list_at(c, n).0 == c,
    decreases n,
{
    if n > 0 {
        let c4 = read_i16(read_i16(read_i32(read_u8(c).0).0).0).0;
        let kind = read_u8(c).1;
        crate::world::entity::lemma_flagged_items_len(c4, 0, 0);
        lemma_inner_stopped(c4, kind);
        lemma_inner_buf(c4, kind);
        lemma_entities_stopped(c4, (n - 1) as nat);
        lemma_entities_stopped(inner_at(c4, kind).0, (n - 1) as nat);
    }
}

proof fn lemma_inner_buf(c: Cursor, kind: u8)
    ensures
        inner_at(c, kind).0.buf == c.buf,
{
    let (c1, f) = read_u8(c);
    let (c2, g) = read_u8(c1);
    crate::world::entity::lemma_flagged_items_len(c2, f, 8);
    crate::world::entity::lemma_flagged_items_len(crate::world::entity::flagged_items_at(c2, f, 8).0, g, 8);
    crate::world::entity::lemma_flagged_items_len(c1, f, 2);
    crate::world::entity::lemma_flagged_items_len(crate::world::entity::flagged_items_at(c1, f, 2).0, f >> 2u8, 2);
}

impl World {
    /// Reads the tile entities (see [`entities_at`]).
    pub fn read_entities(r: &mut SafeReader) -> (res: Result<Vec<Entity>, WorldParseError>)
        requires
            no_panic(entities_at(old(r).cursor()).0),
        ensures
            final(r).buf@ == old(r).buf@,
            final(r).cur == entities_at(old(r).cursor()).0.pos,
            agrees(res, entities_at(old(r).cursor()).0),
            res matches Ok(v) ==> v@.map_values(|e: Entity| (e.id, e.x, e.y, e.inner@)) == entities_at(old(r).cursor()).1,
    {
        proof {
            reveal(entities_at);
        }
        let ghost c0 = r.cursor();
        proof {
            lemma_entities_stopped(read_i32(c0).0, read_i32(c0).1 as nat);
        }
        let count = r.read_i32()?;
        if count < 0 {
            assert(false);
        }
        let n = count as usize;
        let ghost target = entities_at(c0);
        let mut v: Vec<Entity> = Vec::new();
        let mut i: usize = 0;
        while i < n
            invariant
                i <= n,
                r.buf@ == old(r).buf@,
                target == entities_at(old(r).cursor()),
                entity_list_at(r.cursor(), (n - i) as nat).0 == target.0,
                v@.map_values(|e: Entity| (e.id, e.x, e.y, e.inner@)) + entity_list_at(r.cursor(), (n - i) as nat).1 == target.1,
                no_panic(target.0),
            decreases n - i,
        {
            let ghost c = r.cursor();
            let ghost c4 = read_i16(read_i16(read_i32(read_u8(c).0).0).0).0;
            let ghost kind_s = read_u8(c).1;
            proof {
                lemma_inner_stopped(c4, kind_s);
                lemma_inner_buf(c4, kind_s);
                lemma_entities_stopped(c4, (n - i - 1) as nat);
                lemma_entities_stopped(inner_at(c4, kind_s).0, (n - i - 1) as nat);
            }
            let kind = r.read_byte()?;
            let id = r.read_i32()?;
            let x = r.read_i16()?;
            let y = r.read_i16()?;
            let ghost before = v@.map_values(|e: Entity| (e.id, e.x, e.y, e.inner@));
            if kind <= 7 {
                let inner = EntityInner::decode(r, kind)?;
                let e = Entity { id, x, y, inner };
                v.push(e);
                assert(v@.map_values(|e: Entity| (e.id, e.x, e.y, e.inner@)) =~= before.push((id, x, y, inner@)));
            } else {
                assert(v@.map_values(|e: Entity| (e.id, e.x, e.y, e.inner@)) =~= before);
            }
            i = i + 1;
            assert(v@.map_values(|e: Entity| (e.id, e.x, e.y, e.inner@)) + entity_list_at(r.cursor(), (n - i) as nat).1
                =~= before + entity_list_at(c, (n - i + 1) as nat).1);
        }
        assert(v@.map_values(|e: Entity| (e.id, e.x, e.y, e.inner@)) =~= target.1);
        Ok(v)
    }
}

// ---------------------------------------------------------------------------------
// Pressure plates and rooms

/// `n` pairs of `i32`s.
pub open spec fn pairs_at(c: Cursor, n: nat) -> (Cursor, Seq<(i32, i32)>)
    decreases n,
{
    if n == 0 {
        (c, Seq::empty())
    } else {
        let (c1, a) = read_i32(c);
        let (c2, b) = read_i32(c1);
        let (c3, rest) = pairs_at(c2, (n - 1) as nat);
        (c3, seq![(a, b)] + rest)
    }
}

/// `n` triples of `i32`s.
pub open spec fn triples_at(c: Cursor, n: nat) -> (Cursor, Seq<(i32, i32, i32)>)
    decreases n,
{
    if n == 0 {
        (c, Seq::empty())
    } else {
        let (c1, a) = read_i32(c);
        let (c2, b) = read_i32(c1);
        let (c3, d) = read_i32(c2);
        let (c4, rest) = triples_at(c3, (n - 1) as nat);
        (c4, seq![(a, b, d)] + rest)
    }
}

/// Weighted pressure plates: an `i32` count (a negative one panics), then positions.
#[verifier::opaque]
pub open spec fn plates_at(c: Cursor) -> (Cursor, Seq<(i32, i32)>) {
    let (c1, n) = read_i32(c);
    if c1.ok() && n < 0 {
        (c1.halt(Stop::Panic), Seq::empty())
    } else {
        pairs_at(c1, n as nat)
    }
}

/// Room locations: an `i32` count (a negative one panics), then the NPC id and the
/// position of each room.
#[verifier::opaque]
pub open spec fn rooms_at(c: Cursor) -> (Cursor, Seq<(i32, i32, i32)>) {
    let (c1, n) = read_i32(c);
    if c1.ok() && n < 0 {
        (c1.halt(Stop::Panic), Seq::empty())
    } else {
        triples_at(c1, n as nat)
    }
}

/// Reading pairs or triples leaves the buffer alone and a stopped cursor as it is.
pub proof fn lemma_tuples_stopped(c: Cursor, n: nat)
    ensures
        pairs_at(c, n).0.buf == c.buf,
        !c.ok() ==> pairs_at(c, n).0 == c,
        triples_at(c, n).0.buf == c.buf,
        !c.ok() ==> triples_at(c, n).0 == c,
    decreases n,
{
    if n > 0 {
        lemma_tuples_stopped(read_i32(read_i32(c).0).0, (n - 1) as nat);
        lemma_tuples_stopped(read_i32(read_i32(read_i32(c).0).0).0, (n - 1) as nat);
    }
}

impl World {
    /// Reads the weighted pressure plates (see [`plates_at`]).
    pub fn read_weighted_pressure_plates(r: &mut SafeReader) -> (res: Result<Vec<WeightedPressurePlate>, WorldParseError>)
        requires
            no_panic(plates_at(old(r).cursor()).0),
        ensures
            final(r).buf@ == old(r).buf@,
            final(r).cur == plates_at(old(r).cursor()).0.pos,
            agrees(res, plates_at(old(r).cursor()).0),
            res matches Ok(v) ==> v@.map_values(|p: WeightedPressurePlate| (p.x, p.y)) == plates_at(old(r).cursor()).1,
    {
        proof {
            reveal(plates_at);
        }
        let ghost c0 = r.cursor();
        proof {
            lemma_tuples_stopped(read_i32(c0).0, read_i32(c0).1 as nat);
        }
        let count = r.read_i32()?;
        if count < 0 {
            assert(false);
        }
        let n = count as usize;
        let ghost target = plates_at(c0);
        let mut v: Vec<WeightedPressurePlate> = Vec::new();
        let mut i: usize = 0;
        while i < n
            invariant
                i <= n,
                r.buf@ == old(r).buf@,
                target == plates_at(old(r).cursor()),
                pairs_at(r.cursor(), (n - i) as nat).0 == target.0,
                v@.map_values(|p: WeightedPressurePlate| (p.x, p.y)) + pairs_at(r.cursor(), (n - i) as nat).1 == target.1,
                no_panic(target.0),
            decreases n - i,
        {
            let ghost c = r.cursor();
            proof {
                lemma_tuples_stopped(read_i32(read_i32(c).0).0, (n - i - 1) as nat);
            }
            let x = r.read_i32()?;
            let y = r.read_i32()?;
            let ghost before = v@.map_values(|p: WeightedPressurePlate| (p.x, p.y));
            v.push(WeightedPressurePlate { x, y });
            i = i + 1;
            assert(v@.map_values(|p: WeightedPressurePlate| (p.x, p.y)) =~= before.push((x, y)));
            assert(v@.map_values(|p: WeightedPressurePlate| (p.x, p.y)) + pairs_at(r.cursor(), (n - i) as nat).1
                =~= before + (seq![(x, y)] + pairs_at(r.cursor(), (n - i) as nat).1));
        }
        assert(v@.map_values(|p: WeightedPressurePlate| (p.x, p.y)) =~= target.1);
        Ok(v)
    }

    /// Reads the room locations (see [`rooms_at`]).
    pub fn read_room_locations(r: &mut SafeReader) -> (res: Result<Vec<RoomLocation>, WorldParseError>)
        requires
            no_panic(rooms_at(old(r).cursor()).0),
        ensures
            final(r).buf@ == old(r).buf@,
            final(r).cur == rooms_at(old(r).cursor()).0.pos,
            agrees(res, rooms_at(old(r).cursor()).0),
            res matches Ok(v) ==> v@.map_values(|p: RoomLocation| (p.id, p.x, p.y)) == rooms_at(old(r).cursor()).1,
    {
        proof {
            reveal(rooms_at);
        }
        let ghost c0 = r.cursor();
        proof {
            lemma_tuples_stopped(read_i32(c0).0, read_i32(c0).1 as nat);
        }
        let count = r.read_i32()?;
        if count < 0 {
            assert(false);
        }
        let n = count as usize;
        let ghost target = rooms_at(c0);
        let mut v: Vec<RoomLocation> = Vec::new();
        let mut i: usize = 0;
        while i < n
            invariant
                i <= n,
                r.buf@ == old(r).buf@,
                target == rooms_at(old(r).cursor()),
                triples_at(r.cursor(), (n - i) as nat).0 == target.0,
                v@.map_values(|p: RoomLocation| (p.id, p.x, p.y)) + triples_at(r.cursor(), (n - i) as nat).1 == target.1,
                no_panic(target.0),
            decreases n - i,
        {
            let ghost c = r.cursor();
            proof {
                lemma_tuples_stopped(read_i32(read_i32(read_i32(c).0).0).0, (n - i - 1) as nat);
            }
            let id = r.read_i32()?;
            let x = r.read_i32()?;
            let y = r.read_i32()?;
            let ghost before = v@.map_values(|p: RoomLocation| (p.id, p.x, p.y));
            v.push(RoomLocation { id, x, y });
            i = i + 1;
            assert(v@.map_values(|p: RoomLocation| (p.id, p.x, p.y)) =~= before.push((id, x, y)));
            assert(v@.map_values(|p: RoomLocation| (p.id, p.x, p.y)) + triples_at(r.cursor(), (n - i) as nat).1
                =~= before + (seq![(id, x, y)] + triples_at(r.cursor(), (n - i) as nat).1));
        }
        assert(v@.map_values(|p: RoomLocation| (p.id, p.x, p.y)) =~= target.1);
        Ok(v)
    }
}

// ---------------------------------------------------------------------------------
// Bestiary

/// `n` kill counts: an NPC id string and an `i32` each.
pub open spec fn kills_at(c: Cursor, n: nat) -> (Cursor, Seq<(Seq<char>, i32)>)
    decreases n,
{
    if n == 0 {
        (c, Seq::empty())
    } else {
        let (c1, name) = read_string_strict(c);
        let (c2, k) = read_i32(c1);
        let (c3, rest) = kills_at(c2, (n - 1) as nat);
        (c3, seq![(name, k)] + rest)
    }
}

/// The bestiary: counted kill counts, then counted sightings and counted chats, each a
/// list of NPC id strings (a negative count panics).
#[verifier::opaque]
pub open spec fn bestiary_at(c: Cursor) -> (Cursor, (Seq<(Seq<char>, i32)>, Seq<Seq<char>>, Seq<Seq<char>>)) {
    let (c1, n) = read_i32(c);
    let (c2, kills) = if c1.ok() && n < 0 {
        (c1.halt(Stop::Panic), Seq::empty())
    } else {
        kills_at(c1, n as nat)
    };
    let (c3, sights) = counted_strings_at(c2);
    let (c4, chats) = counted_strings_at(c3);
    (c4, (kills, sights, chats))
}

/// Reading kill counts leaves the buffer alone and a stopped cursor as it is.
pub proof fn lemma_kills_stopped(c: Cursor, n: nat)
    ensures
        kills_at(c, n).0.buf == c.buf,
        !c.ok() ==> kills_at(c, n).0 == c,
    decreases n,
{
    lemma_string_forward(c);
    if n > 0 {
        lemma_kills_stopped(read_i32(read_string_strict(c).0).0, (n - 1) as nat);
    }
}

impl World {
    /// Reads the bestiary (see [`bestiary_at`]).
    pub fn read_bestiary(r: &mut SafeReader) -> (res: Result<Bestiary, WorldParseError>)
        requires
            no_panic(bestiary_at(old(r).cursor()).0),
        ensures
            final(r).buf@ == old(r).buf@,
            final(r).cur == bestiary_at(old(r).cursor()).0.pos,
            agrees(res, bestiary_at(old(r).cursor()).0),
            res matches Ok(b) ==> b@ == bestiary_at(old(r).cursor()).1,
    {
        proof {
            reveal(bestiary_at);
        }
        let ghost c0 = r.cursor();
        let ghost c1 = read_i32(c0).0;
        let ghost n_s = read_i32(c0).1;
        let ghost c2 = if c1.ok() && n_s < 0 { c1.halt(Stop::Panic) } else { kills_at(c1, n_s as nat).0 };
        proof {
            lemma_kills_stopped(c1, n_s as nat);
            lemma_counted_stopped(c2);
            lemma_counted_stopped(counted_strings_at(c2).0);
        }
        let count = r.read_i32()?;
        if count < 0 {
            assert(false);
        }
        let n = count as usize;
        let ghost target = kills_at(c1, n as nat);
        let mut kills: Vec<(String, i32)> = Vec::new();
        let mut i: usize = 0;
        while i < n
            invariant
                i <= n,
                r.buf@ == old(r).buf@,
                target == kills_at(c1, n as nat),
                kills_at(r.cursor(), (n - i) as nat).0 == target.0,
                kills@.map_values(|k: (String, i32)| (k.0@, k.1)) + kills_at(r.cursor(), (n - i) as nat).1 == target.1,
                no_panic(bestiary_at(old(r).cursor()).0),
                c2 == target.0,
                !target.0.ok() ==> bestiary_at(old(r).cursor()).0 == target.0,
            decreases n - i,
        {
            let ghost c = r.cursor();
            proof {
                lemma_string_forward(c);
                lemma_kills_stopped(read_i32(read_string_strict(c).0).0, (n - i - 1) as nat);
            }
            let name = r.read_string()?;
            let k = r.read_i32()?;
            let ghost before = kills@.map_values(|k: (String, i32)| (k.0@, k.1));
            let ghost nv = name@;
            kills.push((name, k));
            i = i + 1;
            assert(kills@.map_values(|k: (String, i32)| (k.0@, k.1)) =~= before.push((nv, k)));
            assert(kills@.map_values(|k: (String, i32)| (k.0@, k.1)) + kills_at(r.cursor(), (n - i) as nat).1
                =~= before + (seq![(nv, k)] + kills_at(r.cursor(), (n - i) as nat).1));
        }
        assert(kills@.map_values(|k: (String, i32)| (k.0@, k.1)) =~= target.1);
        let sights = read_counted_strings(r)?;
        let chats = read_counted_strings(r)?;
        Ok(Bestiary { kills, sights, chats })
    }
}

// ---------------------------------------------------------------------------------
// Journey powers

/// The setting of the power of the given code: a flag for freezing time, rain, wind or
/// biome spread, an `f32` (its bit pattern) for the time rate and the difficulty, none
/// for the others; `None` for a code above 14 (such a power is left out).
pub open spec fn power_at(c: Cursor, code: i16) -> (Cursor, Option<CreativePower>) {
    if code == 0 {
        let (c1, b) = read_bool(c);
        (c1, Some(CreativePower::FreezeTime(b)))
    } else if code == 1 {
        (c, Some(CreativePower::StartDayImmediately))
    } else if code == 2 {
        (c, Some(CreativePower::StartNoonImmediately))
    } else if code == 3 {
        (c, Some(CreativePower::StartNightImmediately))
    } else if code == 4 {
        (c, Some(CreativePower::StartMidnightImmediately))
    } else if code == 5 {
        (c, Some(CreativePower::GodmodePower))
    } else if code == 6 {
        (c, Some(CreativePower::ModifyWindDirectionAndStrength))
    } else if code == 7 {
        (c, Some(CreativePower::ModifyRainPower))
    } else if code == 8 {
        let (c1, x) = read_u32(c);
        (c1, Some(CreativePower::ModifyTimeRate(x)))
    } else if code == 9 {
        let (c1, b) = read_bool(c);
        (c1, Some(CreativePower::FreezeRainPower(b)))
    } else if code == 10 {
        let (c1, b) = read_bool(c);
        (c1, Some(CreativePower::FreezeWindDirectionAndStrength(b)))
    } else if code == 11 {
        (c, Some(CreativePower::FarPlacementRangePower))
    } else if code == 12 {
        let (c1, x) = read_u32(c);
        (c1, Some(CreativePower::DifficultySliderPower(x)))
    } else if code == 13 {
        let (c1, b) = read_bool(c);
        (c1, Some(CreativePower::StopBiomeSpreadPower(b)))
    } else if code == 14 {
        (c, Some(CreativePower::SpawnRateSliderPerPlayerPower))
    } else {
        (c, None)
    }
}

/// A flag announcing a power, and then its `i16` code and setting.
pub open spec fn power_entry_at(c: Cursor) -> (Cursor, Option<Option<CreativePower>>) {
    let (c1, more) = read_bool(c);
    if !c1.ok() || !more {
        (c1, None)
    } else {
        let (c2, code) = read_i16(c1);
        let (c3, p) = power_at(c2, code);
        (c3, Some(p))
    }
}

/// Journey powers, each announced by a true flag, until a false one.
#[verifier::opaque]
pub open spec fn powers_at(c: Cursor) -> (Cursor, Seq<CreativePower>)
    decreases c.buf.len() - c.pos,
{
    if !c.ok() || c.pos < 0 {
        (c, Seq::empty())
    } else {
        let (c3, e) = power_entry_at(c);
        match e {
            None => (c3, Seq::empty()),
            Some(p) => if !c3.ok() {
                (c3, Seq::empty())
            } else if !(c.pos < c3.pos <= c.buf.len() && c3.buf == c.buf) {
                // never taken: the flag takes a byte of the buffer
                (c3.halt(Stop::Panic), Seq::empty())
            } else {
                let (c4, rest) = powers_at(c3);
                (c4, match p {
                    Some(x) => seq![x] + rest,
                    None => rest,
                })
            },
        }
    }
}

proof fn lemma_power_entry_forward(c: Cursor)
    ensures
        forward(c, power_entry_at(c).0),
        power_entry_at(c).1 is Some && power_entry_at(c).0.ok() ==> c.pos < power_entry_at(c).0.pos
            <= c.buf.len(),
{
}

/// Reading powers leaves the buffer alone and a stopped cursor as it is.
pub proof fn lemma_powers_stopped(c: Cursor)
    ensures
        powers_at(c).0.buf == c.buf,
        !c.ok() ==> powers_at(c).0 == c,
    decreases c.buf.len() - c.pos,
{
    reveal(powers_at);
    if c.ok() && c.pos >= 0 {
        lemma_power_entry_forward(c);
        let (c3, e) = power_entry_at(c);
        if e is Some && c3.ok() && c.pos < c3.pos <= c.buf.len() && c3.buf == c.buf {
            lemma_powers_stopped(c3);
        }
    }
}

fn read_power_entry(r: &mut SafeReader) -> (res: Result<Option<Option<CreativePower>>, WorldParseError>)
    requires
        no_panic(power_entry_at(old(r).cursor()).0),
    ensures
        follows(*old(r), *final(r), res, power_entry_at(old(r).cursor()).0, power_entry_at(old(r).cursor()).1),
{
    let more = r.read_bool()?;
    if !more {
        return Ok(None);
    }
    let code = r.read_i16()?;
    let power = match code {
        0 => Some(CreativePower::FreezeTime(r.read_bool()?)),
        1 => Some(CreativePower::StartDayImmediately),
        2 => Some(CreativePower::StartNoonImmediately),
        3 => Some(CreativePower::StartNightImmediately),
        4 => Some(CreativePower::StartMidnightImmediately),
        5 => Some(CreativePower::GodmodePower),
        6 => Some(CreativePower::ModifyWindDirectionAndStrength),
        7 => Some(CreativePower::ModifyRainPower),
        8 => Some(CreativePower::ModifyTimeRate(r.read_f32_bits()?)),
        9 => Some(CreativePower::FreezeRainPower(r.read_bool()?)),
        10 => Some(CreativePower::FreezeWindDirectionAndStrength(r.read_bool()?)),
        11 => Some(CreativePower::FarPlacementRangePower),
        12 => Some(CreativePower::DifficultySliderPower(r.read_f32_bits()?)),
        13 => Some(CreativePower::StopBiomeSpreadPower(r.read_bool()?)),
        14 => Some(CreativePower::SpawnRateSliderPerPlayerPower),
        _ => None,
    };
    Ok(Some(power))
}

impl World {
    /// Reads the journey powers (see [`powers_at`]).
    pub fn read_creative_powers(r: &mut SafeReader) -> (res: Result<Vec<CreativePower>, WorldParseError>)
        requires
            no_panic(powers_at(old(r).cursor()).0),
        ensures
            final(r).buf@ == old(r).buf@,
            final(r).cur == powers_at(old(r).cursor()).0.pos,
            agrees(res, powers_at(old(r).cursor()).0),
            res matches Ok(v) ==> v@ == powers_at(old(r).cursor()).1,
    {
        let ghost target = powers_at(r.cursor());
        let mut powers: Vec<CreativePower> = Vec::new();
        loop
            invariant_except_break
                powers_at(r.cursor()).0 == target.0,
                powers@ + powers_at(r.cursor()).1 == target.1,
            invariant
                r.buf@ == old(r).buf@,
                target == powers_at(old(r).cursor()),
                no_panic(target.0),
            ensures
                r.cursor() == target.0,
                powers@ == target.1,
            decreases r.buf@.len() - r.cur,
        {
            let ghost c = r.cursor();
            proof {
                reveal(powers_at);
                lemma_power_entry_forward(c);
                lemma_powers_stopped(power_entry_at(c).0);
            }
            let e = read_power_entry(r)?;
            match e {
                None => {
                    assert(powers@ =~= target.1);
                    break;
                },
                Some(p) => {
                    let ghost before = powers@;
                    match p {
                        Some(x) => {
                            powers.push(x);
                            assert(powers@ + powers_at(r.cursor()).1 =~= before + (seq![x] + powers_at(r.cursor()).1));
                        },
                        None => {},
                    }
                },
            }
        }
        Ok(powers)
    }
}

// ---------------------------------------------------------------------------------
// Footer

/// The footer: a true flag, the world's name again and its id again. The result tells
/// whether all three are there; reading stops at the first that is not.
#[verifier::opaque]
pub open spec fn footer_at(c: Cursor, name: Seq<char>, id: i32) -> (Cursor, bool) {
    let (c1, flag) = read_bool(c);
    if !flag {
        (c1, false)
    } else {
        let (c2, s) = read_string_strict(c1);
        if s != name {
            (c2, false)
        } else {
            let (c3, i) = read_i32(c2);
            (c3, i == id)
        }
    }
}

impl World {
    /// Checks the footer against the header (see [`footer_at`]).
    pub fn validate_footer(r: &mut SafeReader, header: &Header) -> (res: Result<bool, WorldParseError>)
        requires
            no_panic(footer_at(old(r).cursor(), header.name@, header.id).0),
        ensures
            follows(*old(r), *final(r), res, footer_at(old(r).cursor(), header.name@, header.id).0,
                footer_at(old(r).cursor(), header.name@, header.id).1),
    {
        proof {
            reveal(footer_at);
        }
        proof {
            lemma_string_forward(read_bool(old(r).cursor()).0);
        }
        let flag = r.read_bool()?;
        if !flag {
            return Ok(false);
        }
        let s = r.read_string()?;
        if s != header.name {
            return Ok(false);
        }
        let i = r.read_i32()?;
        Ok(i == header.id)
    }
}

// ---------------------------------------------------------------------------------
// Sections read from a stopped cursor

/// Reading the chests leaves the buffer alone, and a stopped cursor as it is.
pub proof fn lemma_chests_section(c: Cursor)
    ensures
        chests_at(c).0.buf == c.buf,
        !c.ok() ==> chests_at(c).0 == c,
{
    reveal(chests_at);
    let c1 = read_i16(c).0;
    let c2 = read_i16(c1).0;
    let slots = read_i16(c1).1;
    let kept: i16 = if slots < 40 { slots } else { 40 };
    let dropped: i16 = if slots < 40 { 0 } else { (slots - 40) as i16 };
    lemma_chests_stopped(c2, read_i16(c).1 as nat, kept, dropped);
}

/// Reading the signs leaves the buffer alone, and a stopped cursor as it is.
pub proof fn lemma_signs_section(c: Cursor, tiles: Seq<Seq<Tile>>)
    ensures
        signs_at(c, tiles).0.buf == c.buf,
        !c.ok() ==> signs_at(c, tiles).0 == c,
{
    reveal(signs_at);
    lemma_signs_stopped(read_i16(c).0, read_i16(c).1 as nat, tiles);
}

/// Reading the NPCs leaves the buffer alone, and a stopped cursor as it is.
pub proof fn lemma_npcs_section(c: Cursor, v: i32)
    ensures
        npcs_at(c, v).0.buf == c.buf,
        !c.ok() ==> npcs_at(c, v).0 == c,
{
    reveal(npcs_at);
    let n = read_i32(c).1;
    lemma_lists_stopped(read_i32(c).0, if n > 0 { n as nat } else { 0 });
    let sh = shimmers_at(c, v);
    lemma_npcs_stopped(sh.0, v, sh.1, Seq::empty(), 0);
    let l = npc_list_at(sh.0, v, sh.1);
    lemma_npcs_stopped(l.0, v, sh.1, l.1, 0);
}

/// Reading the entities, plates or rooms leaves the buffer alone, and a stopped cursor
/// as it is.
pub proof fn lemma_counted_sections(c: Cursor)
    ensures
        entities_at(c).0.buf == c.buf,
        !c.ok() ==> entities_at(c).0 == c,
        plates_at(c).0.buf == c.buf,
        !c.ok() ==> plates_at(c).0 == c,
        rooms_at(c).0.buf == c.buf,
        !c.ok() ==> rooms_at(c).0 == c,
{
    reveal(entities_at);
    reveal(plates_at);
    reveal(rooms_at);
    let n = read_i32(c).1;
    lemma_entities_stopped(read_i32(c).0, n as nat);
    lemma_tuples_stopped(read_i32(c).0, n as nat);
}

/// Reading the bestiary leaves the buffer alone, and a stopped cursor as it is.
pub proof fn lemma_bestiary_section(c: Cursor)
    ensures
        bestiary_at(c).0.buf == c.buf,
        !c.ok() ==> bestiary_at(c).0 == c,
{
    reveal(bestiary_at);
    let n = read_i32(c).1;
    lemma_kills_stopped(read_i32(c).0, n as nat);
    let ck = if read_i32(c).0.ok() && n < 0 { read_i32(c).0.halt(Stop::Panic) } else { kills_at(read_i32(c).0, n as nat).0 };
    lemma_counted_stopped(ck);
    lemma_counted_stopped(counted_strings_at(ck).0);
}

/// Reading the footer leaves the buffer alone, and a stopped cursor as it is.
pub proof fn lemma_footer_section(c: Cursor, name: Seq<char>, id: i32)
    ensures
        footer_at(c, name, id).0.buf == c.buf,
        !c.ok() ==> footer_at(c, name, id).0 == c,
{
    reveal(footer_at);
    lemma_string_forward(read_bool(c).0);
}

} // verus!
