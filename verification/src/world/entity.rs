//! Tile entities (target dummies, item frames, logic sensors, mannequins, weapon racks,
//! hat racks, food platters and pylons) and their encoding in world files and tile
//! section messages.
use vstd::prelude::*;
use crate::binary::le::{le16, le32};
use crate::binary::cursor::{Cursor, Stop, read_u8, read_bool, read_i16, read_i32};
use crate::binary::writer::Writer;
use crate::world::binary::{SafeReader, agrees, no_panic};
use crate::world::tile::follows;
use crate::world::types::WorldParseError;
use crate::binary::le::{lemma_le16_roundtrip, lemma_le32_roundtrip};
use crate::binary::roundtrip::{lemma_cast16, lemma_cast32, lemma_u8_at, lemma_u16_at, lemma_u32_at};

verus! {

/// An item held by a tile entity; an item of id 0 is no item.
#[derive(Debug, Clone, Copy, PartialEq, Eq, Structural)]
pub struct EntityItem {
    pub id: i16,
    pub stack: i16,
    pub prefix: u8,
}

/// The empty slot.
pub open spec fn no_item() -> EntityItem {
    EntityItem { id: 0, stack: 0, prefix: 0 }
}

impl Default for EntityItem {
    fn default() -> (i: Self)
        ensures
            i == no_item(),
    {
        EntityItem { id: 0, stack: 0, prefix: 0 }
    }
}

/// A mannequin: eight equipment slots and eight dye slots.
#[derive(Debug, Clone, Copy)]
pub struct DisplayDoll {
    pub items: [EntityItem; 8],
    pub dyes: [EntityItem; 8],
}

impl Default for DisplayDoll {
    fn default() -> (d: Self)
        ensures
            d.items@ == Seq::new(8, |i: int| no_item()),
            d.dyes@ == Seq::new(8, |i: int| no_item()),
    {
        let e = EntityItem { id: 0, stack: 0, prefix: 0 };
        let d = DisplayDoll { items: [e; 8], dyes: [e; 8] };
        assert(d.items@ =~= Seq::new(8, |i: int| no_item()));
        assert(d.dyes@ =~= Seq::new(8, |i: int| no_item()));
        d
    }
}

/// A hat rack: two hat slots and two dye slots.
#[derive(Debug, Clone, Copy)]
pub struct HatRack {
    pub items: [EntityItem; 2],
    pub dyes: [EntityItem; 2],
}

impl Default for HatRack {
    fn default() -> (h: Self)
        ensures
            h.items@ == Seq::new(2, |i: int| no_item()),
            h.dyes@ == Seq::new(2, |i: int| no_item()),
    {
        let e = EntityItem { id: 0, stack: 0, prefix: 0 };
        let h = HatRack { items: [e; 2], dyes: [e; 2] };
        assert(h.items@ =~= Seq::new(2, |i: int| no_item()));
        assert(h.dyes@ =~= Seq::new(2, |i: int| no_item()));
        h
    }
}

/// What a tile entity is, with what it holds.
#[derive(Debug, Clone, Copy)]
pub enum EntityInner {
    Dummy { npc: i16 },
    ItemFrame(EntityItem),
    LogicSensor { logic_check: u8, on: bool },
    DisplayDoll(DisplayDoll),
    WeaponsRack(EntityItem),
    HatRack(HatRack),
    FoodPlatter(EntityItem),
    TeleportationPylon,
}

/// A tile entity at a tile position.
#[derive(Debug, Clone, Copy)]
pub struct Entity {
    pub id: i32,
    pub x: i16,
    pub y: i16,
    pub inner: EntityInner,
}

/// The abstract value of an [`EntityInner`], its slot arrays as sequences.
pub enum EntityInnerModel {
    Dummy { npc: i16 },
    ItemFrame(EntityItem),
    LogicSensor { logic_check: u8, on: bool },
    DisplayDoll { items: Seq<EntityItem>, dyes: Seq<EntityItem> },
    WeaponsRack(EntityItem),
    HatRack { items: Seq<EntityItem>, dyes: Seq<EntityItem> },
    FoodPlatter(EntityItem),
    TeleportationPylon,
}

impl View for EntityInner {
    type V = EntityInnerModel;

    open spec fn view(&self) -> EntityInnerModel {
        match *self {
            EntityInner::Dummy { npc } => EntityInnerModel::Dummy { npc },
            EntityInner::ItemFrame(i) => EntityInnerModel::ItemFrame(i),
            EntityInner::LogicSensor { logic_check, on } => EntityInnerModel::LogicSensor {
                logic_check,
                on,
            },
            EntityInner::DisplayDoll(d) => EntityInnerModel::DisplayDoll {
                items: d.items@,
                dyes: d.dyes@,
            },
            EntityInner::WeaponsRack(i) => EntityInnerModel::WeaponsRack(i),
            EntityInner::HatRack(h) => EntityInnerModel::HatRack { items: h.items@, dyes: h.dyes@ },
            EntityInner::FoodPlatter(i) => EntityInnerModel::FoodPlatter(i),
            EntityInner::TeleportationPylon => EntityInnerModel::TeleportationPylon,
        }
    }
}

impl EntityInnerModel {
    /// The kind byte of an entity.
    pub open spec fn kind(self) -> u8 {
        match self {
            EntityInnerModel::Dummy { .. } => 0,
            EntityInnerModel::ItemFrame(_) => 1,
            EntityInnerModel::LogicSensor { .. } => 2,
            EntityInnerModel::DisplayDoll { .. } => 3,
            EntityInnerModel::WeaponsRack(_) => 4,
            EntityInnerModel::HatRack { .. } => 5,
            EntityInnerModel::FoodPlatter(_) => 6,
            EntityInnerModel::TeleportationPylon => 7,
        }
    }
}

// ---------------------------------------------------------------------------------
// Decoding

/// An item as its id, prefix and stack.
pub open spec fn item_at(c: Cursor) -> (Cursor, EntityItem) {
    let (c1, id) = read_i16(c);
    let (c2, prefix) = read_u8(c1);
    let (c3, stack) = read_i16(c2);
    (c3, EntityItem { id, stack, prefix })
}

/// `n` slots, the slot `i` read when bit `i` of `flags` is set and empty otherwise.
pub open spec fn flagged_items_at(c: Cursor, flags: u8, n: nat) -> (Cursor, Seq<EntityItem>)
    decreases n,
{
    if n == 0 {
        (c, Seq::empty())
    } else {
        let (c1, first) = if flags & 1 == 1 { item_at(c) } else { (c, no_item()) };
        let (c2, rest) = flagged_items_at(c1, flags >> 1u8, (n - 1) as nat);
        (c2, seq![first] + rest)
    }
}

/// The body of an entity of the given kind: a dummy's NPC; an item for a frame, a
/// weapon rack or a platter; a sensor's check and state; a mannequin's two flag bytes
/// and its flagged slots; a hat rack's flag byte, whose low two bits flag the hats and
/// the next two the dyes; nothing for a pylon. Another kind stops reading.
pub open spec fn inner_at(c: Cursor, kind: u8) -> (Cursor, EntityInnerModel) {
    if kind == 0 {
        let (c1, npc) = read_i16(c);
        (c1, EntityInnerModel::Dummy { npc })
    } else if kind == 1 {
        let (c1, i) = item_at(c);
        (c1, EntityInnerModel::ItemFrame(i))
    } else if kind == 2 {
        let (c1, logic_check) = read_u8(c);
        let (c2, on) = read_bool(c1);
        (c2, EntityInnerModel::LogicSensor { logic_check, on })
    } else if kind == 3 {
        let (c1, item_flags) = read_u8(c);
        let (c2, dye_flags) = read_u8(c1);
        let (c3, items) = flagged_items_at(c2, item_flags, 8);
        let (c4, dyes) = flagged_items_at(c3, dye_flags, 8);
        (c4, EntityInnerModel::DisplayDoll { items, dyes })
    } else if kind == 4 {
        let (c1, i) = item_at(c);
        (c1, EntityInnerModel::WeaponsRack(i))
    } else if kind == 5 {
        let (c1, flags) = read_u8(c);
        let (c2, items) = flagged_items_at(c1, flags, 2);
        let (c3, dyes) = flagged_items_at(c2, flags >> 2u8, 2);
        (c3, EntityInnerModel::HatRack { items, dyes })
    } else if kind == 6 {
        let (c1, i) = item_at(c);
        (c1, EntityInnerModel::FoodPlatter(i))
    } else if kind == 7 {
        (c, EntityInnerModel::TeleportationPylon)
    } else {
        (c.halt(Stop::InvalidEntityKind), EntityInnerModel::TeleportationPylon)
    }
}

/// An entity: its kind byte, id, position and body.
pub open spec fn entity_at(c: Cursor) -> (Cursor, (i32, i16, i16, EntityInnerModel)) {
    let (c1, kind) = read_u8(c);
    let (c2, id) = read_i32(c1);
    let (c3, x) = read_i16(c2);
    let (c4, y) = read_i16(c3);
    let (c5, inner) = inner_at(c4, kind);
    (c5, (id, x, y, inner))
}

/// Reading flagged slots from a stopped cursor leaves it as it is.
pub proof fn lemma_flagged_items_stopped(c: Cursor, flags: u8, n: nat)
    ensures
        !c.ok() ==> flagged_items_at(c, flags, n).0 == c,
    decreases n,
{
    if n > 0 {
        lemma_flagged_items_stopped(c, flags >> 1u8, (n - 1) as nat);
    }
}

/// Flagged slots come as many as asked for, and reading them leaves the buffer alone.
pub proof fn lemma_flagged_items_len(c: Cursor, flags: u8, n: nat)
    ensures
        flagged_items_at(c, flags, n).1.len() == n,
        flagged_items_at(c, flags, n).0.buf == c.buf,
    decreases n,
{
    if n > 0 {
        let (c1, first) = if flags & 1 == 1 { item_at(c) } else { (c, no_item()) };
        lemma_flagged_items_len(c1, flags >> 1u8, (n - 1) as nat);
    }
}

/// Reading an entity body from a stopped cursor leaves it as it is.
pub proof fn lemma_inner_stopped(c: Cursor, kind: u8)
    ensures
        !c.ok() ==> inner_at(c, kind).0 == c,
{
    lemma_flagged_items_stopped(c, 0, 8);
    lemma_flagged_items_stopped(c, 0, 2);
    if kind == 3 {
        let (c1, item_flags) = read_u8(c);
        let (c2, dye_flags) = read_u8(c1);
        lemma_flagged_items_stopped(c2, item_flags, 8);
        let (c3, items) = flagged_items_at(c2, item_flags, 8);
        lemma_flagged_items_stopped(c3, dye_flags, 8);
    } else if kind == 5 {
        let (c1, flags) = read_u8(c);
        lemma_flagged_items_stopped(c1, flags, 2);
        let (c2, items) = flagged_items_at(c1, flags, 2);
        lemma_flagged_items_stopped(c2, flags >> 2u8, 2);
    }
}

fn read_item(r: &mut SafeReader) -> (res: Result<EntityItem, WorldParseError>)
    requires
        no_panic(item_at(old(r).cursor()).0),
    ensures
        follows(*old(r), *final(r), res, item_at(old(r).cursor()).0, item_at(old(r).cursor()).1),
{
    let id = r.read_i16()?;
    let prefix = r.read_byte()?;
    let stack = r.read_i16()?;
    Ok(EntityItem { id, stack, prefix })
}

fn read_flagged_items(r: &mut SafeReader, flags: u8, n: usize) -> (res: Result<Vec<EntityItem>, WorldParseError>)
    requires
        no_panic(flagged_items_at(old(r).cursor(), flags, n as nat).0),
    ensures
        final(r).buf@ == old(r).buf@,
        final(r).cur == flagged_items_at(old(r).cursor(), flags, n as nat).0.pos,
        agrees(res, flagged_items_at(old(r).cursor(), flags, n as nat).0),
        res matches Ok(v) ==> v@ == flagged_items_at(old(r).cursor(), flags, n as nat).1,
{
    let ghost target = flagged_items_at(r.cursor(), flags, n as nat);
    let ghost buf = r.buf@;
    let mut v: Vec<EntityItem> = Vec::new();
    let mut f = flags;
    let mut i: usize = 0;
    while i < n
        invariant
            i <= n,
            r.buf@ == buf,
            buf == old(r).buf@,
            target == flagged_items_at(old(r).cursor(), flags, n as nat),
            flagged_items_at(r.cursor(), f, (n - i) as nat).0 == target.0,
            v@ + flagged_items_at(r.cursor(), f, (n - i) as nat).1 == target.1,
            no_panic(target.0),
        decreases n - i,
    {
        let ghost c = r.cursor();
        let ghost step = if f & 1 == 1 { item_at(c) } else { (c, no_item()) };
        assert(flagged_items_at(c, f, (n - i) as nat) == {
            let (c2, rest) = flagged_items_at(step.0, f >> 1u8, (n - i - 1) as nat);
            (c2, seq![step.1] + rest)
        });
        let item = if f & 1 == 1 {
            proof {
                if !item_at(c).0.ok() {
                    lemma_flagged_items_stopped(item_at(c).0, f >> 1u8, (n - i - 1) as nat);
                }
            }
            read_item(r)?
        } else {
            EntityItem { id: 0, stack: 0, prefix: 0 }
        };
        assert(r.cursor() == step.0);
        let ghost before = v@;
        v.push(item);
        f = f >> 1;
        i = i + 1;
        assert(v@ + flagged_items_at(r.cursor(), f, (n - i) as nat).1 =~= before + (seq![step.1]
            + flagged_items_at(r.cursor(), f, (n - i) as nat).1));
    }
    assert(v@ =~= target.1);
    Ok(v)
}

impl EntityInner {
    /// The kind byte that precedes the entity in its encoding.
    pub fn kind(&self) -> (k: u8)
        ensures
            k == self@.kind(),
    {
        match &self {
            EntityInner::Dummy { .. } => 0,
            EntityInner::ItemFrame(_) => 1,
            EntityInner::LogicSensor { .. } => 2,
            EntityInner::DisplayDoll(_) => 3,
            EntityInner::WeaponsRack(_) => 4,
            EntityInner::HatRack(_) => 5,
            EntityInner::FoodPlatter(_) => 6,
            EntityInner::TeleportationPylon => 7,
        }
    }

    /// Reads the body of an entity of the given kind (see [`inner_at`]); an unknown
    /// kind is [`WorldParseError::InvalidEntityKind`].
    pub fn decode(r: &mut SafeReader, kind: u8) -> (res: Result<Self, WorldParseError>)
        requires
            no_panic(inner_at(old(r).cursor(), kind).0),
        ensures
            final(r).buf@ == old(r).buf@,
            final(r).cur == inner_at(old(r).cursor(), kind).0.pos,
            agrees(res, inner_at(old(r).cursor(), kind).0),
            res matches Ok(e) ==> e@ == inner_at(old(r).cursor(), kind).1,
            res matches Ok(e) ==> e@.kind() == kind,
    {
        let ghost c = r.cursor();
        match kind {
            0 => Ok(EntityInner::Dummy { npc: r.read_i16()? }),
            1 => Ok(EntityInner::ItemFrame(read_item(r)?)),
            2 => {
                let logic_check = r.read_byte()?;
                let on = r.read_bool()?;
                Ok(EntityInner::LogicSensor { logic_check, on })
            },
            3 => {
                let ghost c1 = read_u8(c).0;
                let ghost c2 = read_u8(c1).0;
                let ghost fi = read_u8(c).1;
                let ghost fd = read_u8(c1).1;
                let ghost c3 = flagged_items_at(c2, fi, 8).0;
                proof {
                    lemma_flagged_items_stopped(c2, fi, 8);
                    lemma_flagged_items_stopped(c3, fd, 8);
                    lemma_flagged_items_len(c2, fi, 8);
                    lemma_flagged_items_len(c3, fd, 8);
                }
                let item_flags = r.read_byte()?;
                let dye_flags = r.read_byte()?;
                let items = read_flagged_items(r, item_flags, 8)?;
                let dyes = read_flagged_items(r, dye_flags, 8)?;
                let doll = DisplayDoll {
                    items: [items[0], items[1], items[2], items[3], items[4], items[5], items[6], items[7]],
                    dyes: [dyes[0], dyes[1], dyes[2], dyes[3], dyes[4], dyes[5], dyes[6], dyes[7]],
                };
                assert(doll.items@ =~= items@);
                assert(doll.dyes@ =~= dyes@);
                Ok(EntityInner::DisplayDoll(doll))
            },
            4 => Ok(EntityInner::WeaponsRack(read_item(r)?)),
            5 => {
                let ghost c1 = read_u8(c).0;
                let ghost fl = read_u8(c).1;
                let ghost c2 = flagged_items_at(c1, fl, 2).0;
                proof {
                    lemma_flagged_items_stopped(c1, fl, 2);
                    lemma_flagged_items_stopped(c2, fl >> 2u8, 2);
                    lemma_flagged_items_len(c1, fl, 2);
                    lemma_flagged_items_len(c2, fl >> 2u8, 2);
                }
                let flags = r.read_byte()?;
                let items = read_flagged_items(r, flags, 2)?;
                let dyes = read_flagged_items(r, flags >> 2, 2)?;
                let rack = HatRack { items: [items[0], items[1]], dyes: [dyes[0], dyes[1]] };
                assert(rack.items@ =~= items@);
                assert(rack.dyes@ =~= dyes@);
                Ok(EntityInner::HatRack(rack))
            },
            6 => Ok(EntityInner::FoodPlatter(read_item(r)?)),
            7 => Ok(EntityInner::TeleportationPylon),
            _ => Err(WorldParseError::InvalidEntityKind),
        }
    }
}

impl Entity {
    /// Reads an entity (see [`entity_at`]).
    pub fn decode(r: &mut SafeReader) -> (res: Result<Self, WorldParseError>)
        requires
            no_panic(entity_at(old(r).cursor()).0),
        ensures
            final(r).buf@ == old(r).buf@,
            final(r).cur == entity_at(old(r).cursor()).0.pos,
            agrees(res, entity_at(old(r).cursor()).0),
            res matches Ok(e) ==> (e.id, e.x, e.y, e.inner@) == entity_at(old(r).cursor()).1,
    {
        let ghost c = r.cursor();
        let ghost c1 = read_u8(c).0;
        let ghost c2 = read_i32(c1).0;
        let ghost c3 = read_i16(c2).0;
        let ghost c4 = read_i16(c3).0;
        proof {
            lemma_inner_stopped(c4, read_u8(c).1);
        }
        let kind = r.read_byte()?;
        let id = r.read_i32()?;
        let x = r.read_i16()?;
        let y = r.read_i16()?;
        let inner = EntityInner::decode(r, kind)?;
        Ok(Entity { id, x, y, inner })
    }
}

// ---------------------------------------------------------------------------------
// Encoding

/// An item as its id, prefix and stack.
pub open spec fn item_enc(i: EntityItem) -> Seq<u8> {
    le16(i.id as u16) + seq![i.prefix] + le16(i.stack as u16)
}

/// The slots that hold an item, in order, each as [`item_enc`].
pub open spec fn present_items_enc(s: Seq<EntityItem>) -> Seq<u8>
    decreases s.len(),
{
    if s.len() == 0 {
        Seq::empty()
    } else {
        present_items_enc(s.drop_last()) + (if s.last().id != 0 {
            item_enc(s.last())
        } else {
            Seq::empty()
        })
    }
}

/// A byte whose bit `i` tells that slot `i` holds an item.
pub open spec fn presence_flags(s: Seq<EntityItem>) -> u8
    decreases s.len(),
{
    if s.len() == 0 {
        0
    } else {
        (presence_flags(s.drop_first()) << 1u8) | (if s[0].id != 0 { 1u8 } else { 0u8 })
    }
}

/// The body of an entity. A mannequin writes the presence flags of its items and of
/// its dyes, then the present items and dyes. A hat rack writes one flag byte with the
/// dyes' presence in its low two bits and the hats' in the next two, then the present
/// hats and dyes.
pub open spec fn inner_enc(m: EntityInnerModel) -> Seq<u8> {
    match m {
        EntityInnerModel::Dummy { npc } => le16(npc as u16),
        EntityInnerModel::ItemFrame(i) => item_enc(i),
        EntityInnerModel::LogicSensor { logic_check, on } => seq![
            logic_check,
            if on { 1u8 } else { 0u8 },
        ],
        EntityInnerModel::DisplayDoll { items, dyes } => seq![
            presence_flags(items),
            presence_flags(dyes),
        ] + present_items_enc(items) + present_items_enc(dyes),
        EntityInnerModel::WeaponsRack(i) => item_enc(i),
        EntityInnerModel::HatRack { items, dyes } => seq![
            (presence_flags(items) << 2u8) | presence_flags(dyes),
        ] + present_items_enc(items) + present_items_enc(dyes),
        EntityInnerModel::FoodPlatter(i) => item_enc(i),
        EntityInnerModel::TeleportationPylon => Seq::empty(),
    }
}

/// An entity: its kind byte, id, position and body.
pub open spec fn entity_enc(id: i32, x: i16, y: i16, inner: EntityInnerModel) -> Seq<u8> {
    seq![inner.kind()] + le32(id as u32) + le16(x as u16) + le16(y as u16) + inner_enc(inner)
}

impl EntityItem {
    fn write(&self, w: &mut Writer)
        ensures
            final(w).dst@ == old(w).dst@ + item_enc(*self),
    {
        w.write_i16(self.id);
        w.write_byte(self.prefix);
        w.write_i16(self.stack);
        assert(w.dst@ =~= old(w).dst@ + item_enc(*self));
    }
}

fn write_present_items(w: &mut Writer, items: &[EntityItem])
    ensures
        final(w).dst@ == old(w).dst@ + present_items_enc(items@),
{
    let mut i: usize = 0;
    while i < items.len()
        invariant
            i <= items@.len(),
            w.dst@ == old(w).dst@ + present_items_enc(items@.take(i as int)),
        decreases items.len() - i,
    {
        let ghost before = w.dst@;
        let item = items[i];
        if item.id != 0 {
            item.write(w);
        }
        assert(items@.take(i + 1).drop_last() =~= items@.take(i as int));
        assert(items@.take(i + 1).last() == item);
        i = i + 1;
        assert(w.dst@ =~= old(w).dst@ + present_items_enc(items@.take(i as int)));
    }
    assert(items@.take(i as int) =~= items@);
}

fn presence_flags_of(items: &[EntityItem]) -> (f: u8)
    ensures
        f == presence_flags(items@),
{
    let mut f: u8 = 0;
    let mut i: usize = items.len();
    assert(items@.subrange(i as int, items@.len() as int) =~= Seq::<EntityItem>::empty());
    while i > 0
        invariant
            i <= items@.len(),
            f == presence_flags(items@.subrange(i as int, items@.len() as int)),
        decreases i,
    {
        i = i - 1;
        let bit: u8 = if items[i].id != 0 { 1 } else { 0 };
        assert(items@.subrange(i as int, items@.len() as int).drop_first() =~= items@.subrange(
            i + 1,
            items@.len() as int,
        ));
        f = (f << 1) | bit;
    }
    assert(items@.subrange(0, items@.len() as int) =~= items@);
    f
}

impl EntityInner {
    /// Writes the body of the entity (see [`inner_enc`]).
    pub fn write(&self, w: &mut Writer)
        ensures
            final(w).dst@ == old(w).dst@ + inner_enc(self@),
    {
        match self {
            EntityInner::Dummy { npc } => {
                w.write_i16(*npc);
            },
            EntityInner::ItemFrame(frame) => {
                frame.write(w);
            },
            EntityInner::LogicSensor { logic_check, on } => {
                w.write_byte(*logic_check);
                w.write_bool(*on);
                assert(w.dst@ =~= old(w).dst@ + inner_enc(self@));
            },
            EntityInner::DisplayDoll(doll) => {
                let item_flags = presence_flags_of(doll.items.as_slice());
                w.write_byte(item_flags);
                let dye_flags = presence_flags_of(doll.dyes.as_slice());
                w.write_byte(dye_flags);
                write_present_items(w, doll.items.as_slice());
                write_present_items(w, doll.dyes.as_slice());
                assert(w.dst@ =~= old(w).dst@ + inner_enc(self@));
            },
            EntityInner::WeaponsRack(rack) => {
                rack.write(w);
            },
            EntityInner::HatRack(rack) => {
                let flags = (presence_flags_of(rack.items.as_slice()) << 2) | presence_flags_of(
                    rack.dyes.as_slice(),
                );
                w.write_byte(flags);
                write_present_items(w, rack.items.as_slice());
                write_present_items(w, rack.dyes.as_slice());
                assert(w.dst@ =~= old(w).dst@ + inner_enc(self@));
            },
            EntityInner::FoodPlatter(platter) => {
                platter.write(w);
            },
            EntityInner::TeleportationPylon => {
                assert(w.dst@ =~= old(w).dst@ + inner_enc(self@));
            },
        }
    }
}

impl Entity {
    /// Writes the entity (see [`entity_enc`]).
    pub fn write(&self, w: &mut Writer)
        ensures
            final(w).dst@ == old(w).dst@ + entity_enc(self.id, self.x, self.y, self.inner@),
    {
        w.write_byte(self.inner.kind());
        w.write_i32(self.id);
        w.write_i16(self.x);
        w.write_i16(self.y);
        self.inner.write(w);
        assert(w.dst@ =~= old(w).dst@ + entity_enc(self.id, self.x, self.y, self.inner@));
    }
}

// ---------------------------------------------------------------------------------
// Reading back what was written

/// Every empty slot (id 0) is wholly empty, as reading makes it.
pub open spec fn canonical_items(s: Seq<EntityItem>) -> bool {
    forall|i: int| 0 <= i < s.len() && (#[trigger] s[i]).id == 0 ==> s[i] == no_item()
}

/// An entity body that its encoding represents: slots wholly empty where they are
/// empty, the slot arrays of their sizes, and for a hat rack each hat slot filled
/// exactly when the dye slot of the same index is, since the writer puts the dyes'
/// flags in the bits where the reader looks for the hats'.
pub open spec fn inner_encodable(m: EntityInnerModel) -> bool {
    match m {
        EntityInnerModel::DisplayDoll { items, dyes } => items.len() == 8 && dyes.len() == 8
            && canonical_items(items) && canonical_items(dyes),
        EntityInnerModel::HatRack { items, dyes } => items.len() == 2 && dyes.len() == 2
            && canonical_items(items) && canonical_items(dyes) && (items[0].id != 0) == (
        dyes[0].id != 0) && (items[1].id != 0) == (dyes[1].id != 0),
        _ => true,
    }
}

/// Bit `i` of `flags` is set exactly when slot `i` holds an item.
pub open spec fn flags_match(flags: u8, s: Seq<EntityItem>) -> bool
    decreases s.len(),
{
    if s.len() == 0 {
        true
    } else {
        (flags & 1 == 1) == (s[0].id != 0) && flags_match(flags >> 1u8, s.drop_first())
    }
}

proof fn bv_flags_step(q: u8, b: u8, k: u16)
    by (bit_vector)
    requires
        (k == 0 && q == 0) || (q as u16) < (1u16 << k),
        k <= 7,
        b <= 1,
    ensures
        (q as u16) < (1u16 << k),
        ((q << 1u8) | b) & 1 == b,
        ((q << 1u8) | b) >> 1u8 == q,
        ((((q << 1u8) | b) as u8) as u16) < (1u16 << ((k + 1) as u16)),
        (1u16 << 0u16) == 1,
{
}

proof fn bv_hat_rack_flags(b0: u8, b1: u8)
    by (bit_vector)
    requires
        b0 <= 1,
        b1 <= 1,
    ensures
        ((((((0u8 << 1u8) | b1) << 1u8) | b0) << 2u8) | ((((0u8 << 1u8) | b1) << 1u8) | b0)) & 1
            == b0,
        (((((((0u8 << 1u8) | b1) << 1u8) | b0) << 2u8) | ((((0u8 << 1u8) | b1) << 1u8) | b0))
            >> 1u8) & 1 == b1,
        (((((((0u8 << 1u8) | b1) << 1u8) | b0) << 2u8) | ((((0u8 << 1u8) | b1) << 1u8) | b0))
            >> 2u8) & 1 == b0,
        ((((((((0u8 << 1u8) | b1) << 1u8) | b0) << 2u8) | ((((0u8 << 1u8) | b1) << 1u8) | b0))
            >> 2u8) >> 1u8) & 1 == b1,
{
}

/// The presence flags of up to eight slots tell which hold an item.
proof fn lemma_presence_match(s: Seq<EntityItem>)
    requires
        s.len() <= 8,
    ensures
        flags_match(presence_flags(s), s),
        (presence_flags(s) as u16) < (1u16 << (s.len() as u16)),
    decreases s.len(),
{
    if s.len() == 0 {
        bv_flags_step(0, 0, 0);
    } else {
        let t = s.drop_first();
        lemma_presence_match(t);
        let b: u8 = if s[0].id != 0 { 1u8 } else { 0u8 };
        bv_flags_step(presence_flags(t), b, t.len() as u16);
        assert((t.len() + 1) as u16 == s.len() as u16);
    }
}

/// The encoding of the slots, taken from the front.
proof fn lemma_present_front(a: EntityItem, s: Seq<EntityItem>)
    ensures
        present_items_enc(seq![a] + s) == (if a.id != 0 {
            item_enc(a)
        } else {
            Seq::empty()
        }) + present_items_enc(s),
    decreases s.len(),
{
    let ea = if a.id != 0 { item_enc(a) } else { Seq::<u8>::empty() };
    let whole = seq![a] + s;
    if s.len() == 0 {
        assert(whole.drop_last() =~= Seq::<EntityItem>::empty());
        assert(whole.last() == a);
        assert(present_items_enc(whole) == present_items_enc(whole.drop_last()) + ea);
        assert(present_items_enc(whole) =~= ea + present_items_enc(s));
    } else {
        let init = s.drop_last();
        let l = s.last();
        let el = if l.id != 0 { item_enc(l) } else { Seq::<u8>::empty() };
        lemma_present_front(a, init);
        assert(whole.drop_last() =~= seq![a] + init);
        assert(whole.last() == l);
        assert(present_items_enc(whole) == present_items_enc(seq![a] + init) + el);
        assert(present_items_enc(s) == present_items_enc(init) + el);
        assert(present_items_enc(whole) =~= ea + present_items_enc(s));
    }
}

proof fn lemma_item_enc_len(i: EntityItem)
    ensures
        item_enc(i).len() == 5,
{
    lemma_le16_roundtrip(i.id as u16);
    lemma_le16_roundtrip(i.stack as u16);
}

/// An item reads back where it was written.
proof fn lemma_item_roundtrip(buf: Seq<u8>, p: int, i: EntityItem)
    requires
        0 <= p,
        p + 5 <= buf.len(),
        buf.len() <= usize::MAX,
        buf.subrange(p, p + 5) == item_enc(i),
    ensures
        item_at(Cursor::at(buf, p)) == (Cursor::at(buf, p + 5), i),
{
    lemma_item_enc_len(i);
    let e = item_enc(i);
    lemma_le16_roundtrip(i.id as u16);
    lemma_le16_roundtrip(i.stack as u16);
    assert(buf.subrange(p, p + 2) =~= le16(i.id as u16)) by {
        assert(buf.subrange(p, p + 2) =~= e.subrange(0, 2));
    }
    assert(buf[p + 2] == i.prefix) by {
        assert(buf.subrange(p, p + 5)[2] == e[2]);
    }
    assert(buf.subrange(p + 3, p + 5) =~= le16(i.stack as u16)) by {
        assert(buf.subrange(p + 3, p + 5) =~= e.subrange(3, 5));
    }
    lemma_u16_at(buf, p, i.id as u16);
    lemma_cast16(i.id);
    lemma_u8_at(buf, p + 2);
    lemma_u16_at(buf, p + 3, i.stack as u16);
    lemma_cast16(i.stack);
}

/// Flagged slots read back where they were written.
proof fn lemma_flagged_roundtrip(buf: Seq<u8>, p: int, flags: u8, s: Seq<EntityItem>)
    requires
        0 <= p,
        p + present_items_enc(s).len() <= buf.len(),
        buf.len() <= usize::MAX,
        buf.subrange(p, p + present_items_enc(s).len()) == present_items_enc(s),
        flags_match(flags, s),
        canonical_items(s),
    ensures
        flagged_items_at(Cursor::at(buf, p), flags, s.len()) == (Cursor::at(
            buf,
            p + present_items_enc(s).len(),
        ), s),
    decreases s.len(),
{
    if s.len() == 0 {
        assert(s =~= Seq::<EntityItem>::empty());
    } else {
        let a = s[0];
        let t = s.drop_first();
        assert(s =~= seq![a] + t);
        lemma_present_front(a, t);
        let ea = if a.id != 0 { item_enc(a) } else { Seq::<u8>::empty() };
        lemma_item_enc_len(a);
        let e = present_items_enc(s);
        assert(e == ea + present_items_enc(t));
        let k = ea.len() as int;
        if a.id != 0 {
            assert(buf.subrange(p, p + 5) =~= ea) by {
                assert(buf.subrange(p, p + 5) =~= e.subrange(0, 5));
            }
            lemma_item_roundtrip(buf, p, a);
        }
        assert(canonical_items(t)) by {
            assert forall|i: int| 0 <= i < t.len() && (#[trigger] t[i]).id == 0 implies t[i]
                == no_item() by {
                assert(t[i] == s[i + 1]);
            }
        }
        assert(buf.subrange(p + k, p + k + present_items_enc(t).len()) =~= present_items_enc(t))
            by {
            assert(buf.subrange(p + k, p + k + present_items_enc(t).len()) =~= e.subrange(
                k,
                e.len() as int,
            ));
        }
        lemma_flagged_roundtrip(buf, p + k, flags >> 1u8, t);
        assert(seq![a] + t =~= s);
    }
}

/// An entity body reads back where it was written, as itself, when it is encodable.
proof fn lemma_inner_roundtrip(buf: Seq<u8>, p: int, m: EntityInnerModel)
    requires
        inner_encodable(m),
        0 <= p,
        p + inner_enc(m).len() <= buf.len(),
        buf.len() <= usize::MAX,
        buf.subrange(p, p + inner_enc(m).len()) == inner_enc(m),
    ensures
        inner_at(Cursor::at(buf, p), m.kind()) == (Cursor::at(buf, p + inner_enc(m).len()), m),
{
    let e = inner_enc(m);
    match m {
        EntityInnerModel::Dummy { npc } => {
            lemma_u16_at(buf, p, npc as u16);
            lemma_cast16(npc);
        },
        EntityInnerModel::ItemFrame(i) => {
            lemma_item_enc_len(i);
            lemma_item_roundtrip(buf, p, i);
        },
        EntityInnerModel::WeaponsRack(i) => {
            lemma_item_enc_len(i);
            lemma_item_roundtrip(buf, p, i);
        },
        EntityInnerModel::FoodPlatter(i) => {
            lemma_item_enc_len(i);
            lemma_item_roundtrip(buf, p, i);
        },
        EntityInnerModel::LogicSensor { logic_check, on } => {
            assert(buf[p] == e[0] && buf[p + 1] == e[1]) by {
                assert(buf.subrange(p, p + 2)[0] == e[0]);
                assert(buf.subrange(p, p + 2)[1] == e[1]);
            }
            lemma_u8_at(buf, p);
            lemma_u8_at(buf, p + 1);
        },
        EntityInnerModel::DisplayDoll { items, dyes } => {
            let pi = present_items_enc(items);
            let pd = present_items_enc(dyes);
            assert(buf[p] == e[0] && buf[p + 1] == e[1]) by {
                assert(buf.subrange(p, p + e.len())[0] == e[0]);
                assert(buf.subrange(p, p + e.len())[1] == e[1]);
            }
            lemma_u8_at(buf, p);
            lemma_u8_at(buf, p + 1);
            lemma_presence_match(items);
            lemma_presence_match(dyes);
            assert(buf.subrange(p + 2, p + 2 + pi.len()) =~= pi) by {
                assert(buf.subrange(p + 2, p + 2 + pi.len()) =~= e.subrange(2, 2 + pi.len() as int));
            }
            lemma_flagged_roundtrip(buf, p + 2, presence_flags(items), items);
            assert(buf.subrange(p + 2 + pi.len(), p + 2 + pi.len() + pd.len()) =~= pd) by {
                assert(buf.subrange(p + 2 + pi.len(), p + 2 + pi.len() + pd.len()) =~= e.subrange(
                    2 + pi.len() as int,
                    e.len() as int,
                ));
            }
            lemma_flagged_roundtrip(buf, p + 2 + pi.len(), presence_flags(dyes), dyes);
        },
        EntityInnerModel::HatRack { items, dyes } => {
            let pi = present_items_enc(items);
            let pd = present_items_enc(dyes);
            let b0: u8 = if items[0].id != 0 { 1 } else { 0 };
            let b1: u8 = if items[1].id != 0 { 1 } else { 0 };
            assert(items.drop_first().drop_first() =~= Seq::<EntityItem>::empty());
            assert(dyes.drop_first().drop_first() =~= Seq::<EntityItem>::empty());
            assert(presence_flags(items.drop_first().drop_first()) == 0);
            assert(presence_flags(dyes.drop_first().drop_first()) == 0);
            assert(items.drop_first()[0] == items[1]);
            assert(dyes.drop_first()[0] == dyes[1]);
            assert(presence_flags(items.drop_first()) == (0u8 << 1u8) | b1);
            assert(presence_flags(dyes.drop_first()) == (0u8 << 1u8) | b1);
            assert(presence_flags(items) == (((0u8 << 1u8) | b1) << 1u8) | b0);
            assert(presence_flags(dyes) == (((0u8 << 1u8) | b1) << 1u8) | b0);
            bv_hat_rack_flags(b0, b1);
            let f = (presence_flags(items) << 2u8) | presence_flags(dyes);
            assert(flags_match((f >> 1u8) >> 1u8, items.drop_first().drop_first()));
            assert(flags_match(f >> 1u8, items.drop_first()));
            assert(flags_match(f, items));
            let g = f >> 2u8;
            assert(flags_match((g >> 1u8) >> 1u8, dyes.drop_first().drop_first()));
            assert(flags_match(g >> 1u8, dyes.drop_first()));
            assert(flags_match(g, dyes));
            assert(buf[p] == f) by {
                assert(buf.subrange(p, p + e.len())[0] == e[0]);
            }
            lemma_u8_at(buf, p);
            assert(buf.subrange(p + 1, p + 1 + pi.len()) =~= pi) by {
                assert(buf.subrange(p + 1, p + 1 + pi.len()) =~= e.subrange(1, 1 + pi.len() as int));
            }
            lemma_flagged_roundtrip(buf, p + 1, f, items);
            assert(buf.subrange(p + 1 + pi.len(), p + 1 + pi.len() + pd.len()) =~= pd) by {
                assert(buf.subrange(p + 1 + pi.len(), p + 1 + pi.len() + pd.len()) =~= e.subrange(
                    1 + pi.len() as int,
                    e.len() as int,
                ));
            }
            lemma_flagged_roundtrip(buf, p + 1 + pi.len(), f >> 2u8, dyes);
        },
        EntityInnerModel::TeleportationPylon => {},
    }
}

/// A written entity reads back as itself, when its body is encodable (see
/// [`inner_encodable`]): its kind, id, position and body, with the reader past the
/// entity's bytes.
pub proof fn lemma_entity_roundtrip(
    pre: Seq<u8>,
    id: i32,
    x: i16,
    y: i16,
    inner: EntityInnerModel,
    rest: Seq<u8>,
)
    requires
        inner_encodable(inner),
        (pre + entity_enc(id, x, y, inner) + rest).len() <= usize::MAX,
    ensures
        entity_at(Cursor::at(pre + entity_enc(id, x, y, inner) + rest, pre.len() as int)) == (
        Cursor::at(
            pre + entity_enc(id, x, y, inner) + rest,
            (pre.len() + entity_enc(id, x, y, inner).len()) as int,
        ), (id, x, y, inner)),
{
    let e = entity_enc(id, x, y, inner);
    let buf = pre + e + rest;
    let p = pre.len() as int;
    lemma_le32_roundtrip(id as u32);
    lemma_le16_roundtrip(x as u16);
    lemma_le16_roundtrip(y as u16);
    assert(buf[p] == inner.kind());
    lemma_u8_at(buf, p);
    assert(buf.subrange(p + 1, p + 5) =~= le32(id as u32));
    lemma_u32_at(buf, p + 1, id as u32);
    lemma_cast32(id);
    assert(buf.subrange(p + 5, p + 7) =~= le16(x as u16));
    lemma_u16_at(buf, p + 5, x as u16);
    lemma_cast16(x);
    assert(buf.subrange(p + 7, p + 9) =~= le16(y as u16));
    lemma_u16_at(buf, p + 7, y as u16);
    lemma_cast16(y);
    let ie = inner_enc(inner);
    assert(buf.subrange(p + 9, p + 9 + ie.len()) =~= ie);
    lemma_inner_roundtrip(buf, p + 9, inner);
}

} // verus!
