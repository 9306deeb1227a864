//! Network messages: their payloads, their frames (a little-endian `u16` length of the
//! whole frame, a message code, the payload) and how the server reads them back.
use vstd::prelude::*;
use crate::binary::le::{le16, le32, le64};
use crate::binary::cursor::{Cursor, read_u8, read_bool, read_i8, read_u16, read_i16, read_i32, read_u32, read_string_lenient, read_rgb, read_length, length_rest, string_bytes, take};
use crate::binary::reader::Reader;
use crate::binary::le::lemma_le16_roundtrip;
use crate::binary::roundtrip::{lemma_u8_at, lemma_u16_at, lemma_cast16, lemma_string_roundtrip};
use vstd::utf8::encode_utf8;
use crate::binary::writer::{Writer, MessageWriter, string_enc, text_enc};
use crate::binary::types::{RGB, Text};

verus! {

/// Adjusts a payload that a client sent before the server keeps or relays it: the
/// client id becomes the sender's slot, and values out of the game's ranges are brought
/// back into them.
pub trait Sanitize {
    fn sanitize(&mut self, src: u8);
}

/// The number of skin variants a player may have.
pub const MAX_VARIANT_COUNT: u8 = 12;

/// The number of hair styles a player may have.
pub const MAX_HAIR: u8 = 165;

/// The least maximum health that the server lets a player have.
pub const MIN_MAXIMUM_HEALTH: i16 = 100;

/// The number of buff slots of a player.
pub const MAX_BUFFS: usize = 44;

/// Message 3: the server accepts a client into a slot.
#[derive(Debug, Clone, Copy, PartialEq, Eq, Structural)]
pub struct ConnectionApprove {
    pub client_id: u8,
    /// Whether the client should check bytes in its loop; the server always sends false.
    pub flag: bool,
}

/// Message 4: a player's name and appearance.
#[derive(Debug)]
pub struct PlayerDetails {
    pub client_id: u8,
    pub skin_variant: u8,
    pub hair: u8,
    pub name: String,
    pub hair_dye: u8,
    pub hide_accessory: u16,
    pub hide_misc: u8,
    pub hair_color: RGB,
    pub skin_color: RGB,
    pub eye_color: RGB,
    pub shirt_color: RGB,
    pub undershirt_color: RGB,
    pub pants_color: RGB,
    pub shoe_color: RGB,
    /// Difficulty bits and the extra accessory slot.
    pub flags_1: u8,
    /// Biome torches and the super cart.
    pub flags_2: u8,
    /// Consumed permanent upgrades.
    pub flags_3: u8,
}

impl Clone for PlayerDetails {
    fn clone(&self) -> (r: Self)
        ensures
            details_fields(r) == details_fields(*self),
    {
        PlayerDetails {
            client_id: self.client_id,
            skin_variant: self.skin_variant,
            hair: self.hair,
            name: self.name.clone(),
            hair_dye: self.hair_dye,
            hide_accessory: self.hide_accessory,
            hide_misc: self.hide_misc,
            hair_color: self.hair_color,
            skin_color: self.skin_color,
            eye_color: self.eye_color,
            shirt_color: self.shirt_color,
            undershirt_color: self.undershirt_color,
            pants_color: self.pants_color,
            shoe_color: self.shoe_color,
            flags_1: self.flags_1,
            flags_2: self.flags_2,
            flags_3: self.flags_3,
        }
    }
}

/// The fields of player details, the name by its characters.
pub open spec fn details_fields(d: PlayerDetails) -> (u8, u8, u8, Seq<char>, u8, u16, u8, RGB, RGB, RGB, RGB, RGB, RGB, RGB, u8, u8, u8) {
    (d.client_id, d.skin_variant, d.hair, d.name@, d.hair_dye, d.hide_accessory, d.hide_misc, d.hair_color,
        d.skin_color, d.eye_color, d.shirt_color, d.undershirt_color, d.pants_color, d.shoe_color,
        d.flags_1, d.flags_2, d.flags_3)
}

/// Message 5: an item in one of a player's slots.
#[derive(Debug, Clone, Copy, PartialEq, Eq, Structural)]
pub struct PlayerInventorySlot {
    pub client_id: u8,
    pub slot_id: i16,
    pub amount: i16,
    pub prefix: u8,
    pub item_id: i16,
}

/// Player details as the server keeps them: the sender's slot as the client id, a skin
/// variant beyond the last brought to the last, a hair style beyond the last reset to
/// the first, the rest as sent.
pub open spec fn sanitized_details(d: PlayerDetails, src: u8) -> (u8, u8, u8, Seq<char>, u8, u16, u8, RGB, RGB, RGB, RGB, RGB, RGB, RGB, u8, u8, u8) {
    let f = details_fields(d);
    (src, if f.1 >= MAX_VARIANT_COUNT { (MAX_VARIANT_COUNT - 1) as u8 } else { f.1 }, if f.2
        >= MAX_HAIR { 0 } else { f.2 }, f.3, f.4, f.5, f.6, f.7, f.8, f.9, f.10, f.11, f.12, f.13, f.14,
        f.15, f.16)
}

impl Sanitize for PlayerDetails {
    fn sanitize(&mut self, src: u8)
        ensures
            details_fields(*final(self)) == sanitized_details(*old(self), src),
    {
        self.client_id = src;
        if self.skin_variant >= MAX_VARIANT_COUNT {
            self.skin_variant = MAX_VARIANT_COUNT - 1;
        }
        if self.hair >= MAX_HAIR {
            self.hair = 0;
        }
    }
}

impl Sanitize for PlayerInventorySlot {
    fn sanitize(&mut self, src: u8)
        ensures
            *final(self) == (PlayerInventorySlot { client_id: src, ..*old(self) }),
    {
        self.client_id = src;
    }
}

/// Message 8: a client asks to spawn at a tile.
#[derive(Debug, Clone, Copy, PartialEq, Eq, Structural)]
pub struct SpawnRequest {
    pub x: i32,
    pub y: i32,
}

/// Message 16: a player's health.
#[derive(Debug, Clone, Copy, PartialEq, Eq, Structural)]
pub struct PlayerHealth {
    pub client_id: u8,
    pub current: i16,
    pub maximum: i16,
}

/// Message 42: a player's mana.
#[derive(Debug, Clone, Copy, PartialEq, Eq, Structural)]
pub struct PlayerMana {
    pub client_id: u8,
    pub current: i16,
    pub maximum: i16,
}

/// Message 50: a player's buffs.
#[derive(Debug, Clone, Copy)]
pub struct PlayerBuffs {
    pub client_id: u8,
    pub buffs: [u16; 44],
}

impl Sanitize for PlayerHealth {
    /// The sender's slot as the client id, and the maximum health raised to at least 100.
    fn sanitize(&mut self, src: u8)
        ensures
            *final(self) == (PlayerHealth {
                client_id: src,
                maximum: if old(self).maximum < MIN_MAXIMUM_HEALTH { MIN_MAXIMUM_HEALTH } else { old(self).maximum },
                ..*old(self)
            }),
    {
        self.client_id = src;
        if self.maximum < MIN_MAXIMUM_HEALTH {
            self.maximum = MIN_MAXIMUM_HEALTH;
        }
    }
}

impl Sanitize for PlayerMana {
    fn sanitize(&mut self, src: u8)
        ensures
            *final(self) == (PlayerMana { client_id: src, ..*old(self) }),
    {
        self.client_id = src;
    }
}

impl Sanitize for PlayerBuffs {
    fn sanitize(&mut self, src: u8)
        ensures
            final(self).client_id == src,
            final(self).buffs == old(self).buffs,
    {
        self.client_id = src;
    }
}

/// Message 78: the progress of an invasion.
#[derive(Debug, Clone, Copy, PartialEq, Eq, Structural)]
pub struct InvasionProgress {
    pub progress: i32,
    pub progress_max: i32,
    pub icon: i8,
    pub progress_wave: i8,
}

/// Message 83: how many of an NPC the world has killed.
#[derive(Debug, Clone, Copy, PartialEq, Eq, Structural)]
pub struct KillCount {
    pub id: u16,
    pub amount: u32,
}

/// Message 101: the shields of the four celestial pillars.
#[derive(Debug, Clone, Copy, PartialEq, Eq, Structural)]
pub struct PillarsStatus {
    pub solar: u16,
    pub vortex: u16,
    pub nebula: u16,
    pub stardust: u16,
}

/// Message 147: a player's equipment loadout.
#[derive(Debug, Clone, Copy, PartialEq, Eq, Structural)]
pub struct PlayerLoadout {
    pub client_id: u8,
    pub index: u8,
    pub hide_accessory: u16,
}

impl Sanitize for PlayerLoadout {
    fn sanitize(&mut self, src: u8)
        ensures
            *final(self) == (PlayerLoadout { client_id: src, ..*old(self) }),
    {
        self.client_id = src;
    }
}


/// The world's state as a joining client receives it (message 7).
#[derive(Debug, Clone)]
pub struct WorldHeader {
    pub time: i32,
    pub time_flags: u8,
    pub moon_phase: u8,
    pub width: i16,
    pub height: i16,
    pub spawn_x: i16,
    pub spawn_y: i16,
    pub world_surface: i16,
    pub rock_layer: i16,
    pub id: i32,
    pub name: String,
    pub game_mode: u8,
    pub uuid: [u8; 16],
    pub worldgen_version: u64,
    pub moon_type: u8,
    pub bg_0: u8,
    pub bg_10: u8,
    pub bg_11: u8,
    pub bg_12: u8,
    pub bg_1: u8,
    pub bg_2: u8,
    pub bg_3: u8,
    pub bg_4: u8,
    pub bg_5: u8,
    pub bg_6: u8,
    pub bg_7: u8,
    pub bg_8: u8,
    pub bg_9: u8,
    pub ice_back_style: u8,
    pub jungle_back_style: u8,
    pub hell_back_style: u8,
    /// An `f32`, as its bit pattern.
    pub wind_speed_target: u32,
    pub num_clouds: u8,
    pub tree_x: [i32; 3],
    pub tree_style: [u8; 4],
    pub cave_back_x: [i32; 3],
    pub cave_back_style: [u8; 4],
    pub tree_top_variations: [u8; 13],
    /// An `f32`, as its bit pattern.
    pub max_raining: u32,
    pub flags: [u8; 10],
    pub sundial_cooldown: u8,
    pub moondial_cooldown: u8,
    pub ore_tier_copper: i16,
    pub ore_tier_iron: i16,
    pub ore_tier_silver: i16,
    pub ore_tier_gold: i16,
    pub ore_tier_cobalt: i16,
    pub ore_tier_mythril: i16,
    pub ore_tier_adamantite: i16,
    pub invasion_type: i8,
    pub lobby_id: u64,
    /// An `f32`, as its bit pattern.
    pub sandstorm_intended_severity: u32,
}

/// Part 1 of a world header's payload.
pub open spec fn world_header_enc_1(h: WorldHeader) -> Seq<u8> {
    le32(h.time as u32)
        + seq![h.time_flags]
        + seq![h.moon_phase]
        + le16(h.width as u16)
        + le16(h.height as u16)
        + le16(h.spawn_x as u16)
        + le16(h.spawn_y as u16)
        + le16(h.world_surface as u16)
}

/// Part 2 of a world header's payload.
pub open spec fn world_header_enc_2(h: WorldHeader) -> Seq<u8> {
    le16(h.rock_layer as u16)
        + le32(h.id as u32)
        + string_enc(h.name@)
        + seq![h.game_mode]
        + h.uuid@
        + le64(h.worldgen_version)
        + seq![h.moon_type]
        + seq![h.bg_0]
}

/// Part 3 of a world header's payload.
pub open spec fn world_header_enc_3(h: WorldHeader) -> Seq<u8> {
    seq![h.bg_10]
        + seq![h.bg_11]
        + seq![h.bg_12]
        + seq![h.bg_1]
        + seq![h.bg_2]
        + seq![h.bg_3]
        + seq![h.bg_4]
        + seq![h.bg_5]
}

/// Part 4 of a world header's payload.
pub open spec fn world_header_enc_4(h: WorldHeader) -> Seq<u8> {
    seq![h.bg_6]
        + seq![h.bg_7]
        + seq![h.bg_8]
        + seq![h.bg_9]
        + seq![h.ice_back_style]
        + seq![h.jungle_back_style]
        + seq![h.hell_back_style]
        + le32(h.wind_speed_target)
}

/// Part 5 of a world header's payload.
pub open spec fn world_header_enc_5(h: WorldHeader) -> Seq<u8> {
    seq![h.num_clouds]
        + i32s_enc(h.tree_x@)
        + h.tree_style@
        + i32s_enc(h.cave_back_x@)
        + h.cave_back_style@
        + h.tree_top_variations@
        + le32(h.max_raining)
        + h.flags@
}

/// Part 6 of a world header's payload.
pub open spec fn world_header_enc_6(h: WorldHeader) -> Seq<u8> {
    seq![h.sundial_cooldown]
        + seq![h.moondial_cooldown]
        + le16(h.ore_tier_copper as u16)
        + le16(h.ore_tier_iron as u16)
        + le16(h.ore_tier_silver as u16)
        + le16(h.ore_tier_gold as u16)
        + le16(h.ore_tier_cobalt as u16)
        + le16(h.ore_tier_mythril as u16)
}

/// Part 7 of a world header's payload.
pub open spec fn world_header_enc_7(h: WorldHeader) -> Seq<u8> {
    le16(h.ore_tier_adamantite as u16)
        + seq![h.invasion_type as u8]
        + le64(h.lobby_id)
        + le32(h.sandstorm_intended_severity)
}

/// The payload of a world header: its fields in order, integers little-endian, the name
/// as a string, arrays element by element.
#[verifier::opaque]
pub open spec fn world_header_enc(h: WorldHeader) -> Seq<u8> {
    world_header_enc_1(h) + world_header_enc_2(h) + world_header_enc_3(h) + world_header_enc_4(h) + world_header_enc_5(h) + world_header_enc_6(h) + world_header_enc_7(h)
}

/// The world header's payload starts with the time as a little-endian `i32`, the time
/// flags and the moon phase as bytes, the width, height, spawn x, spawn y, surface row
/// and rock row as little-endian `i16`s, the world id as a little-endian `i32`, and then
/// the name.
pub proof fn lemma_world_header_prefix(h: WorldHeader)
    requires
        world_header_enc(h).len() <= usize::MAX,
    ensures
        ({
            let b = world_header_enc(h);
            &&& b.len() >= 22
            &&& read_i32(Cursor::at(b, 0)).1 == h.time
            &&& read_u8(Cursor::at(b, 4)).1 == h.time_flags
            &&& read_u8(Cursor::at(b, 5)).1 == h.moon_phase
            &&& read_i16(Cursor::at(b, 6)).1 == h.width
            &&& read_i16(Cursor::at(b, 8)).1 == h.height
            &&& read_i16(Cursor::at(b, 10)).1 == h.spawn_x
            &&& read_i16(Cursor::at(b, 12)).1 == h.spawn_y
            &&& read_i16(Cursor::at(b, 14)).1 == h.world_surface
            &&& read_i16(Cursor::at(b, 16)).1 == h.rock_layer
            &&& read_i32(Cursor::at(b, 18)).1 == h.id
            &&& b.subrange(22, 22 + string_enc(h.name@).len() as int) == string_enc(h.name@)
        }),
{
    let b = world_header_enc(h);
    let n = string_enc(h.name@).len() as int;
    let pre = world_header_enc_1(h) + le16(h.rock_layer as u16) + le32(h.id as u32) + string_enc(h.name@);
    lemma_world_header_starts(h);
    assert(pre.len() == 22 + n);
    assert forall|p: int, w: int| 0 <= p && 0 <= w && p + w <= 22 + n implies #[trigger] b.subrange(p, p + w) == pre.subrange(
        p,
        p + w,
    ) by {
        assert(b.subrange(p, p + w) =~= b.subrange(0, 22 + n).subrange(p, p + w));
    }
    assert(pre.subrange(0, 4) =~= le32(h.time as u32));
    assert(pre.subrange(4, 5) =~= seq![h.time_flags]);
    assert(pre.subrange(5, 6) =~= seq![h.moon_phase]);
    assert(pre.subrange(6, 8) =~= le16(h.width as u16));
    assert(pre.subrange(8, 10) =~= le16(h.height as u16));
    assert(pre.subrange(10, 12) =~= le16(h.spawn_x as u16));
    assert(pre.subrange(12, 14) =~= le16(h.spawn_y as u16));
    assert(pre.subrange(14, 16) =~= le16(h.world_surface as u16));
    assert(pre.subrange(16, 18) =~= le16(h.rock_layer as u16));
    assert(pre.subrange(18, 22) =~= le32(h.id as u32));
    assert(pre.subrange(22, 22 + n) =~= string_enc(h.name@));
    assert(b.subrange(4, 5)[0] == b[4]);
    assert(b.subrange(5, 6)[0] == b[5]);
    crate::binary::roundtrip::lemma_u32_at(b, 0, h.time as u32);
    crate::binary::roundtrip::lemma_cast32(h.time);
    lemma_u8_at(b, 4);
    lemma_u8_at(b, 5);
    lemma_u16_at(b, 6, h.width as u16);
    lemma_cast16(h.width);
    lemma_u16_at(b, 8, h.height as u16);
    lemma_cast16(h.height);
    lemma_u16_at(b, 10, h.spawn_x as u16);
    lemma_cast16(h.spawn_x);
    lemma_u16_at(b, 12, h.spawn_y as u16);
    lemma_cast16(h.spawn_y);
    lemma_u16_at(b, 14, h.world_surface as u16);
    lemma_cast16(h.world_surface);
    lemma_u16_at(b, 16, h.rock_layer as u16);
    lemma_cast16(h.rock_layer);
    crate::binary::roundtrip::lemma_u32_at(b, 18, h.id as u32);
    crate::binary::roundtrip::lemma_cast32(h.id);
}

/// The world header's payload begins with its first part, the rock row, the id and the
/// name.
proof fn lemma_world_header_starts(h: WorldHeader)
    ensures
        ({
            let pre = world_header_enc_1(h) + le16(h.rock_layer as u16) + le32(h.id as u32) + string_enc(h.name@);
            &&& world_header_enc(h).len() >= pre.len()
            &&& world_header_enc(h).subrange(0, pre.len() as int) == pre
        }),
{
    reveal(world_header_enc);
    let p1 = world_header_enc_1(h);
    let p2 = world_header_enc_2(h);
    let pre2 = le16(h.rock_layer as u16) + le32(h.id as u32) + string_enc(h.name@);
    let tail2 = seq![h.game_mode] + h.uuid@ + le64(h.worldgen_version) + seq![h.moon_type] + seq![h.bg_0];
    assert(p2 =~= pre2 + tail2);
    let rest = world_header_enc_3(h) + world_header_enc_4(h) + world_header_enc_5(h) + world_header_enc_6(h)
        + world_header_enc_7(h);
    let b = world_header_enc(h);
    assert(b =~= p1 + pre2 + (tail2 + rest));
    let pre = p1 + pre2;
    assert(b.subrange(0, pre.len() as int) =~= pre);
}

impl WorldHeader {
    fn write_part_1(&self, w: &mut Writer)
        ensures
            final(w).dst@ == old(w).dst@ + world_header_enc_1(*self),
    {
        w.write_i32(self.time);
        w.write_byte(self.time_flags);
        w.write_byte(self.moon_phase);
        w.write_i16(self.width);
        w.write_i16(self.height);
        w.write_i16(self.spawn_x);
        w.write_i16(self.spawn_y);
        w.write_i16(self.world_surface);
        assert(w.dst@ =~= old(w).dst@ + world_header_enc_1(*self));
    }

    fn write_part_2(&self, w: &mut Writer)
        ensures
            final(w).dst@ == old(w).dst@ + world_header_enc_2(*self),
    {
        w.write_i16(self.rock_layer);
        w.write_i32(self.id);
        w.write_string(&self.name);
        w.write_byte(self.game_mode);
        w.write_bytes(&self.uuid);
        w.write_u64(self.worldgen_version);
        w.write_byte(self.moon_type);
        w.write_byte(self.bg_0);
        assert(w.dst@ =~= old(w).dst@ + world_header_enc_2(*self));
    }

    fn write_part_3(&self, w: &mut Writer)
        ensures
            final(w).dst@ == old(w).dst@ + world_header_enc_3(*self),
    {
        w.write_byte(self.bg_10);
        w.write_byte(self.bg_11);
        w.write_byte(self.bg_12);
        w.write_byte(self.bg_1);
        w.write_byte(self.bg_2);
        w.write_byte(self.bg_3);
        w.write_byte(self.bg_4);
        w.write_byte(self.bg_5);
        assert(w.dst@ =~= old(w).dst@ + world_header_enc_3(*self));
    }

    fn write_part_4(&self, w: &mut Writer)
        ensures
            final(w).dst@ == old(w).dst@ + world_header_enc_4(*self),
    {
        w.write_byte(self.bg_6);
        w.write_byte(self.bg_7);
        w.write_byte(self.bg_8);
        w.write_byte(self.bg_9);
        w.write_byte(self.ice_back_style);
        w.write_byte(self.jungle_back_style);
        w.write_byte(self.hell_back_style);
        w.write_f32_bits(self.wind_speed_target);
        assert(w.dst@ =~= old(w).dst@ + world_header_enc_4(*self));
    }

    fn write_part_5(&self, w: &mut Writer)
        ensures
            final(w).dst@ == old(w).dst@ + world_header_enc_5(*self),
    {
        w.write_byte(self.num_clouds);
        write_i32s(w, &self.tree_x);
        w.write_bytes(&self.tree_style);
        write_i32s(w, &self.cave_back_x);
        w.write_bytes(&self.cave_back_style);
        w.write_bytes(&self.tree_top_variations);
        w.write_f32_bits(self.max_raining);
        w.write_bytes(&self.flags);
        assert(w.dst@ =~= old(w).dst@ + world_header_enc_5(*self));
    }

    fn write_part_6(&self, w: &mut Writer)
        ensures
            final(w).dst@ == old(w).dst@ + world_header_enc_6(*self),
    {
        w.write_byte(self.sundial_cooldown);
        w.write_byte(self.moondial_cooldown);
        w.write_i16(self.ore_tier_copper);
        w.write_i16(self.ore_tier_iron);
        w.write_i16(self.ore_tier_silver);
        w.write_i16(self.ore_tier_gold);
        w.write_i16(self.ore_tier_cobalt);
        w.write_i16(self.ore_tier_mythril);
        assert(w.dst@ =~= old(w).dst@ + world_header_enc_6(*self));
    }

    fn write_part_7(&self, w: &mut Writer)
        ensures
            final(w).dst@ == old(w).dst@ + world_header_enc_7(*self),
    {
        w.write_i16(self.ore_tier_adamantite);
        w.write_i8(self.invasion_type);
        w.write_u64(self.lobby_id);
        w.write_f32_bits(self.sandstorm_intended_severity);
        assert(w.dst@ =~= old(w).dst@ + world_header_enc_7(*self));
    }

    /// Writes the payload (see [`world_header_enc`]).
    pub fn write(&self, w: &mut Writer)
        ensures
            final(w).dst@ == old(w).dst@ + world_header_enc(*self),
    {
        proof {
            reveal(world_header_enc);
        }
        self.write_part_1(w);
        self.write_part_2(w);
        self.write_part_3(w);
        self.write_part_4(w);
        self.write_part_5(w);
        self.write_part_6(w);
        self.write_part_7(w);
        assert(w.dst@ =~= old(w).dst@ + world_header_enc(*self));
    }
}

/// A message between the server and a client.
#[derive(Debug)]
pub enum Message {
    /// Code 1, from a client: the game version it runs.
    VersionIdentifier(String),
    /// Code 2, to a client: the connection is refused, with the reason.
    ConnectionRefuse(Text),
    /// Code 3, to a client.
    ConnectionApprove(ConnectionApprove),
    /// Code 4, both ways.
    PlayerDetails(PlayerDetails),
    /// Code 5, both ways.
    PlayerInventorySlot(PlayerInventorySlot),
    /// Code 6, from a client: it asks for the world header.
    WorldRequest,
    /// Code 7, to a client.
    WorldHeader(WorldHeader),
    /// Code 8, from a client.
    SpawnRequest(SpawnRequest),
    /// Code 16, both ways.
    PlayerHealth(PlayerHealth),
    /// Code 37, to a client: the server asks for its password.
    PasswordRequest,
    /// Code 38, from a client: the password.
    PasswordResponse(String),
    /// Code 42, from a client.
    PlayerMana(PlayerMana),
    /// Code 50, from a client.
    PlayerBuffs(PlayerBuffs),
    /// Code 68, from a client: its player's unique id.
    UUID(String),
    /// Code 78, to a client.
    InvasionProgress(InvasionProgress),
    /// Code 83, to a client.
    KillCount(KillCount),
    /// Code 101, to a client.
    PillarsStatus(PillarsStatus),
    /// Code 147, both ways.
    PlayerLoadout(PlayerLoadout),
    /// Any other code, with its payload as bytes.
    Unknown(u8, Vec<u8>),
}

/// A boolean as a byte.
pub open spec fn bool_byte(b: bool) -> u8 {
    if b { 1 } else { 0 }
}

/// A colour as three bytes.
pub open spec fn rgb_enc(c: RGB) -> Seq<u8> {
    seq![c.0, c.1, c.2]
}

/// Integers one after the other, little-endian.
pub open spec fn i32s_enc(s: Seq<i32>) -> Seq<u8>
    decreases s.len(),
{
    if s.len() == 0 {
        Seq::empty()
    } else {
        i32s_enc(s.drop_last()) + le32(s.last() as u32)
    }
}

fn write_i32s(w: &mut Writer, s: &[i32])
    ensures
        final(w).dst@ == old(w).dst@ + i32s_enc(s@),
{
    let mut i: usize = 0;
    while i < s.len()
        invariant
            i <= s@.len(),
            w.dst@ == old(w).dst@ + i32s_enc(s@.take(i as int)),
        decreases s.len() - i,
    {
        w.write_i32(s[i]);
        assert(s@.take(i + 1).drop_last() =~= s@.take(i as int));
        i = i + 1;
        assert(w.dst@ =~= old(w).dst@ + i32s_enc(s@.take(i as int)));
    }
    assert(s@.take(i as int) =~= s@);
}

/// The fields of player details after the name.
pub open spec fn details_tail_enc(d: PlayerDetails) -> Seq<u8> {
    seq![d.hair_dye] + le16(d.hide_accessory) + seq![d.hide_misc] + rgb_enc(d.hair_color) + rgb_enc(
        d.skin_color,
    ) + rgb_enc(d.eye_color) + rgb_enc(d.shirt_color) + rgb_enc(d.undershirt_color) + rgb_enc(
        d.pants_color,
    ) + rgb_enc(d.shoe_color) + seq![d.flags_1, d.flags_2, d.flags_3]
}

/// The payload of player details: the fields in order.
pub open spec fn details_enc(d: PlayerDetails) -> Seq<u8> {
    seq![d.client_id, d.skin_variant, d.hair] + string_enc(d.name@) + details_tail_enc(d)
}

impl PlayerDetails {
    fn write(&self, w: &mut Writer)
        ensures
            final(w).dst@ == old(w).dst@ + details_enc(*self),
    {
        w.write_byte(self.client_id);
        w.write_byte(self.skin_variant);
        w.write_byte(self.hair);
        w.write_string(self.name.as_str());
        let ghost mid = w.dst@;
        w.write_byte(self.hair_dye);
        w.write_u16(self.hide_accessory);
        w.write_byte(self.hide_misc);
        w.write_rgb(self.hair_color);
        w.write_rgb(self.skin_color);
        w.write_rgb(self.eye_color);
        w.write_rgb(self.shirt_color);
        w.write_rgb(self.undershirt_color);
        w.write_rgb(self.pants_color);
        w.write_rgb(self.shoe_color);
        w.write_byte(self.flags_1);
        w.write_byte(self.flags_2);
        w.write_byte(self.flags_3);
        assert(w.dst@ =~= mid + details_tail_enc(*self));
        assert(w.dst@ =~= old(w).dst@ + details_enc(*self));
    }
}

/// The code and payload of a message that the server sends; `None` for a message
/// that only clients send.
pub open spec fn payload(m: Message) -> Option<(u8, Seq<u8>)> {
    match m {
        Message::ConnectionRefuse(t) => Some((2u8, text_enc(t@))),
        Message::ConnectionApprove(a) => Some((3u8, seq![a.client_id, bool_byte(a.flag)])),
        Message::PlayerDetails(d) => Some((4u8, details_enc(d))),
        Message::PlayerInventorySlot(s) => Some((5u8, seq![s.client_id] + le16(s.slot_id as u16) + le16(
            s.amount as u16,
        ) + seq![s.prefix] + le16(s.item_id as u16))),
        Message::WorldHeader(h) => Some((7u8, world_header_enc(h))),
        Message::PlayerHealth(p) => Some((16u8, seq![p.client_id] + le16(p.current as u16) + le16(
            p.maximum as u16,
        ))),
        Message::PasswordRequest => Some((37u8, Seq::empty())),
        Message::InvasionProgress(p) => Some((78u8, le32(p.progress as u32) + le32(p.progress_max as u32)
            + seq![p.icon as u8, p.progress_wave as u8])),
        Message::KillCount(k) => Some((83u8, le16(k.id) + le32(k.amount))),
        Message::PillarsStatus(p) => Some((101u8, le16(p.solar) + le16(p.vortex) + le16(p.nebula) + le16(
            p.stardust,
        ))),
        Message::PlayerLoadout(l) => Some((147u8, seq![l.client_id, l.index] + le16(l.hide_accessory))),
        Message::Unknown(code, bytes) => Some((code, bytes@)),
        _ => None,
    }
}

/// A frame: the frame's length (truncated to 16 bits), the code, the payload.
pub open spec fn frame(code: u8, payload: Seq<u8>) -> Seq<u8> {
    le16((payload.len() + 3) as u16) + seq![code] + payload
}

impl Message {
    fn write_payload(&self, w: &mut Writer)
        requires
            payload(*self) is Some,
        ensures
            final(w).dst@ == old(w).dst@ + payload(*self)->Some_0.1,
    {
        match self {
            Message::ConnectionRefuse(t) => {
                w.write_text(t);
            },
            Message::ConnectionApprove(a) => {
                w.write_byte(a.client_id);
                w.write_bool(a.flag);
                assert(w.dst@ =~= old(w).dst@ + payload(*self)->Some_0.1);
            },
            Message::PlayerDetails(d) => {
                d.write(w);
            },
            Message::PlayerInventorySlot(s) => {
                w.write_byte(s.client_id);
                w.write_i16(s.slot_id);
                w.write_i16(s.amount);
                w.write_byte(s.prefix);
                w.write_i16(s.item_id);
                assert(w.dst@ =~= old(w).dst@ + payload(*self)->Some_0.1);
            },
            Message::WorldHeader(h) => {
                h.write(w);
            },
            Message::PlayerHealth(p) => {
                w.write_byte(p.client_id);
                w.write_i16(p.current);
                w.write_i16(p.maximum);
                assert(w.dst@ =~= old(w).dst@ + payload(*self)->Some_0.1);
            },
            Message::PasswordRequest => {
                assert(w.dst@ =~= old(w).dst@ + payload(*self)->Some_0.1);
            },
            Message::InvasionProgress(p) => {
                w.write_i32(p.progress);
                w.write_i32(p.progress_max);
                w.write_i8(p.icon);
                w.write_i8(p.progress_wave);
                assert(w.dst@ =~= old(w).dst@ + payload(*self)->Some_0.1);
            },
            Message::KillCount(k) => {
                w.write_u16(k.id);
                w.write_u32(k.amount);
                assert(w.dst@ =~= old(w).dst@ + payload(*self)->Some_0.1);
            },
            Message::PillarsStatus(p) => {
                w.write_u16(p.solar);
                w.write_u16(p.vortex);
                w.write_u16(p.nebula);
                w.write_u16(p.stardust);
                assert(w.dst@ =~= old(w).dst@ + payload(*self)->Some_0.1);
            },
            Message::PlayerLoadout(l) => {
                w.write_byte(l.client_id);
                w.write_byte(l.index);
                w.write_u16(l.hide_accessory);
                assert(w.dst@ =~= old(w).dst@ + payload(*self)->Some_0.1);
            },
            Message::Unknown(_, bytes) => {
                w.write_bytes(bytes.as_slice());
            },
            _ => {},
        }
    }

    /// The message code of a message that the server sends.
    fn code(&self) -> (c: u8)
        requires
            payload(*self) is Some,
        ensures
            c == payload(*self)->Some_0.0,
    {
        match self {
            Message::ConnectionRefuse(_) => 2,
            Message::ConnectionApprove(_) => 3,
            Message::PlayerDetails(_) => 4,
            Message::PlayerInventorySlot(_) => 5,
            Message::WorldHeader(_) => 7,
            Message::PlayerHealth(_) => 16,
            Message::PasswordRequest => 37,
            Message::InvasionProgress(_) => 78,
            Message::KillCount(_) => 83,
            Message::PillarsStatus(_) => 101,
            Message::PlayerLoadout(_) => 147,
            Message::Unknown(code, _) => *code,
            _ => 0,
        }
    }

    /// The frame of a message that the server sends (see [`payload`] and [`frame`]); a
    /// message that only clients send cannot be written.
    pub fn to_bytes(&self) -> (r: Result<Vec<u8>, &'static str>)
        ensures
            match payload(*self) {
                Some(p) => r matches Ok(v) && v@ == frame(p.0, p.1),
                None => r is Err,
            },
    {
        match self {
            Message::VersionIdentifier(_) | Message::WorldRequest | Message::SpawnRequest(_)
            | Message::PasswordResponse(_) | Message::PlayerMana(_) | Message::PlayerBuffs(_)
            | Message::UUID(_) => {
                return Err("Unserializable message. Consider using Message::Unknown");
            },
            _ => {},
        }
        let mut m = MessageWriter::new(self.code());
        self.write_payload(m.inner_mut());
        let ghost p = payload(*self)->Some_0;
        assert(m.bytes() == seq![0u8, 0u8, p.0] + p.1);
        let v = m.finalize();
        assert(m.bytes().subrange(2, m.bytes().len() as int) =~= seq![p.0] + p.1);
        assert(v@ =~= frame(p.0, p.1));
        Ok(v)
    }
}

// ---------------------------------------------------------------------------------
// Reading what clients send

/// The fields of player details in order: bytes, a string, colours.
pub open spec fn details_at(c: Cursor) -> (Cursor, (u8, u8, u8, Seq<char>, u8, u16, u8, RGB, RGB, RGB, RGB, RGB, RGB, RGB, u8, u8, u8)) {
    let (c1, client_id) = read_u8(c);
    let (c2, skin_variant) = read_u8(c1);
    let (c3, hair) = read_u8(c2);
    let (c4, name) = read_string_lenient(c3);
    let (c5, hair_dye) = read_u8(c4);
    let (c6, hide_accessory) = read_u16(c5);
    let (c7, hide_misc) = read_u8(c6);
    let (c8, hair_color) = read_rgb(c7);
    let (c9, skin_color) = read_rgb(c8);
    let (c10, eye_color) = read_rgb(c9);
    let (c11, shirt_color) = read_rgb(c10);
    let (c12, undershirt_color) = read_rgb(c11);
    let (c13, pants_color) = read_rgb(c12);
    let (c14, shoe_color) = read_rgb(c13);
    let (c15, flags_1) = read_u8(c14);
    let (c16, flags_2) = read_u8(c15);
    let (c17, flags_3) = read_u8(c16);
    (c17, (client_id, skin_variant, hair, name, hair_dye, hide_accessory, hide_misc, hair_color,
        skin_color, eye_color, shirt_color, undershirt_color, pants_color, shoe_color, flags_1,
        flags_2, flags_3))
}

/// An inventory slot: client, slot, amount, prefix, item.
pub open spec fn slot_at(c: Cursor) -> (Cursor, PlayerInventorySlot) {
    let (c1, client_id) = read_u8(c);
    let (c2, slot_id) = read_i16(c1);
    let (c3, amount) = read_i16(c2);
    let (c4, prefix) = read_u8(c3);
    let (c5, item_id) = read_i16(c4);
    (c5, PlayerInventorySlot { client_id, slot_id, amount, prefix, item_id })
}

/// A client, then a current and a maximum value.
pub open spec fn stat_at(c: Cursor) -> (Cursor, (u8, i16, i16)) {
    let (c1, client_id) = read_u8(c);
    let (c2, current) = read_i16(c1);
    let (c3, maximum) = read_i16(c2);
    (c3, (client_id, current, maximum))
}

/// A spawn position.
pub open spec fn spawn_at(c: Cursor) -> (Cursor, SpawnRequest) {
    let (c1, x) = read_i32(c);
    let (c2, y) = read_i32(c1);
    (c2, SpawnRequest { x, y })
}

/// A loadout: client, index, hidden accessories.
pub open spec fn loadout_at(c: Cursor) -> (Cursor, PlayerLoadout) {
    let (c1, client_id) = read_u8(c);
    let (c2, index) = read_u8(c1);
    let (c3, hide_accessory) = read_u16(c2);
    (c3, PlayerLoadout { client_id, index, hide_accessory })
}

/// `n` little-endian `u16`s.
pub open spec fn u16s_at(c: Cursor, n: nat) -> (Cursor, Seq<u16>)
    decreases n,
{
    if n == 0 {
        (c, Seq::empty())
    } else {
        let (c1, x) = read_u16(c);
        let (c2, rest) = u16s_at(c1, (n - 1) as nat);
        (c2, seq![x] + rest)
    }
}

/// The cursor after the fields of a frame body of the given code, from its second
/// byte; it has stopped when the fields are not all there.
pub open spec fn fields_end(buf: Seq<u8>) -> Cursor {
    let code = buf[0];
    let c = Cursor::at(buf, 1);
    if code == 1 || code == 38 || code == 68 {
        read_string_lenient(c).0
    } else if code == 4 {
        details_at(c).0
    } else if code == 5 {
        slot_at(c).0
    } else if code == 8 {
        spawn_at(c).0
    } else if code == 16 || code == 42 {
        stat_at(c).0
    } else if code == 50 {
        u16s_at(read_u8(c).0, 44).0
    } else if code == 147 {
        loadout_at(c).0
    } else {
        c
    }
}

/// A frame body (code and payload, without the length) that can be read: it has a
/// code, and all the fields its code calls for.
pub open spec fn decodable(buf: Seq<u8>) -> bool {
    &&& 1 <= buf.len() <= usize::MAX
    &&& fields_end(buf).ok()
}

/// What a frame body decodes to: the message of a code that clients send, with the
/// fields read in order (a string whose bytes are not UTF-8 reads as empty), or, for
/// any other code, `Unknown` with the rest of the body.
pub open spec fn decodes_to(buf: Seq<u8>, m: Message) -> bool {
    let code = buf[0];
    let c = Cursor::at(buf, 1);
    if code == 1 {
        m matches Message::VersionIdentifier(s) && s@ == read_string_lenient(c).1
    } else if code == 4 {
        m matches Message::PlayerDetails(d) && details_fields(d) == details_at(c).1
    } else if code == 5 {
        m matches Message::PlayerInventorySlot(s) && s == slot_at(c).1
    } else if code == 6 {
        m is WorldRequest
    } else if code == 8 {
        m matches Message::SpawnRequest(s) && s == spawn_at(c).1
    } else if code == 16 {
        m matches Message::PlayerHealth(p) && (p.client_id, p.current, p.maximum) == stat_at(c).1
    } else if code == 38 {
        m matches Message::PasswordResponse(s) && s@ == read_string_lenient(c).1
    } else if code == 42 {
        m matches Message::PlayerMana(p) && (p.client_id, p.current, p.maximum) == stat_at(c).1
    } else if code == 50 {
        m matches Message::PlayerBuffs(b) && b.client_id == read_u8(c).1 && b.buffs@ == u16s_at(
            read_u8(c).0,
            44,
        ).1
    } else if code == 68 {
        m matches Message::UUID(s) && s@ == read_string_lenient(c).1
    } else if code == 147 {
        m matches Message::PlayerLoadout(l) && l == loadout_at(c).1
    } else {
        m matches Message::Unknown(k, rest) && k == code && rest@ == buf.subrange(1, buf.len() as int)
    }
}

fn read_details(r: &mut Reader) -> (d: PlayerDetails)
    requires
        details_at(old(r).cursor()).0.ok(),
    ensures
        final(r).buf@ == old(r).buf@,
        final(r).cursor() == details_at(old(r).cursor()).0,
        details_fields(d) == details_at(old(r).cursor()).1,
{
    let client_id = r.read_byte();
    let skin_variant = r.read_byte();
    let hair = r.read_byte();
    proof {
        crate::binary::cursor::lemma_string_forward(r.cursor());
    }
    let name = r.read_string();
    let hair_dye = r.read_byte();
    let hide_accessory = r.read_u16();
    let hide_misc = r.read_byte();
    let hair_color = r.read_rgb();
    let skin_color = r.read_rgb();
    let eye_color = r.read_rgb();
    let shirt_color = r.read_rgb();
    let undershirt_color = r.read_rgb();
    let pants_color = r.read_rgb();
    let shoe_color = r.read_rgb();
    let flags_1 = r.read_byte();
    let flags_2 = r.read_byte();
    let flags_3 = r.read_byte();
    PlayerDetails {
        client_id,
        skin_variant,
        hair,
        name,
        hair_dye,
        hide_accessory,
        hide_misc,
        hair_color,
        skin_color,
        eye_color,
        shirt_color,
        undershirt_color,
        pants_color,
        shoe_color,
        flags_1,
        flags_2,
        flags_3,
    }
}

fn read_buffs(r: &mut Reader) -> (b: [u16; 44])
    requires
        u16s_at(old(r).cursor(), 44).0.ok(),
    ensures
        final(r).buf@ == old(r).buf@,
        b@ == u16s_at(old(r).cursor(), 44).1,
{
    let mut buf = [0u16; 44];
    let ghost c0 = r.cursor();
    let mut i: usize = 0;
    while i < 44
        invariant
            i <= 44,
            r.buf@ == c0.buf,
            buf@.len() == 44,
            u16s_at(r.cursor(), (44 - i) as nat).0.ok(),
            u16s_at(c0, 44) == ({
                let (cc, rest) = u16s_at(r.cursor(), (44 - i) as nat);
                (cc, buf@.take(i as int) + rest)
            }),
        decreases 44 - i,
    {
        let ghost c = r.cursor();
        proof {
            lemma_u16s_stopped(read_u16(c).0, (44 - i - 1) as nat);
        }
        let x = r.read_u16();
        let ghost before = buf@;
        buf[i] = x;
        assert(buf@.take(i + 1) =~= before.take(i as int).push(x));
        i = i + 1;
        assert(buf@.take(i as int) + u16s_at(r.cursor(), (44 - i) as nat).1 =~= before.take(i - 1) + (seq![x]
            + u16s_at(r.cursor(), (44 - i) as nat).1));
    }
    assert(buf@.take(44) =~= buf@);
    buf
}

/// Reading `u16`s from a stopped cursor leaves it as it is.
proof fn lemma_u16s_stopped(c: Cursor, n: nat)
    ensures
        !c.ok() ==> u16s_at(c, n).0 == c,
        u16s_at(c, n).0.buf == c.buf,
    decreases n,
{
    if n > 0 {
        lemma_u16s_stopped(read_u16(c).0, (n - 1) as nat);
    }
}

/// Reading `n` `u16`s gives `n` of them.
proof fn lemma_u16s_len(c: Cursor, n: nat)
    ensures
        u16s_at(c, n).1.len() == n,
    decreases n,
{
    if n > 0 {
        lemma_u16s_len(read_u16(c).0, (n - 1) as nat);
    }
}

/// When `n` little-endian `u16`s are read from `c` without fault, the `i`-th of them is
/// the one stored `2 * i` bytes past the cursor, lowest byte first: the values come in
/// the order of the bytes.
pub proof fn lemma_u16s_in_order(c: Cursor, n: nat, i: int)
    requires
        0 <= c.pos,
        u16s_at(c, n).0.ok(),
        0 <= i < n,
    ensures
        u16s_at(c, n).1.len() == n,
        c.pos + 2 * i + 2 <= c.buf.len(),
        u16s_at(c, n).1[i] == (c.buf[c.pos + 2 * i] as u16) | ((c.buf[c.pos + 2 * i + 1] as u16) << 8u16),
    decreases n,
{
    lemma_u16s_len(c, n);
    let c1 = read_u16(c).0;
    lemma_u16s_stopped(c1, (n - 1) as nat);
    lemma_u16s_stopped(c, n);
    assert(c1.ok());
    assert(c1.pos == c.pos + 2);
    if n > 1 {
        lemma_u16s_ok_within(c1, (n - 1) as nat);
    }
    let rest = u16s_at(c1, (n - 1) as nat).1;
    assert(u16s_at(c, n).1 == seq![read_u16(c).1] + rest);
    if i > 0 {
        lemma_u16s_in_order(c1, (n - 1) as nat, i - 1);
        assert(u16s_at(c, n).1[i] == rest[i - 1]);
    } else {
        let b = c.buf.subrange(c.pos, c.pos + 2);
        assert(b[0] == c.buf[c.pos] && b[1] == c.buf[c.pos + 1]);
        assert(u16s_at(c, n).1[0] == read_u16(c).1);
    }
}

/// A cursor that reads `n` `u16`s without fault stays within its bytes.
proof fn lemma_u16s_ok_within(c: Cursor, n: nat)
    requires
        u16s_at(c, n).0.ok(),
        n > 0,
    ensures
        c.ok(),
        c.pos + 2 * n <= c.buf.len(),
    decreases n,
{
    let c1 = read_u16(c).0;
    lemma_u16s_stopped(c1, (n - 1) as nat);
    lemma_u16s_stopped(c, n);
    if n > 1 {
        lemma_u16s_ok_within(c1, (n - 1) as nat);
    }
}

/// With `2 * n` bytes in front of it, a cursor reads `n` `u16`s without fault.
proof fn lemma_u16s_fit(c: Cursor, n: nat)
    requires
        c.ok(),
        0 <= c.pos,
        c.pos + 2 * n <= c.buf.len(),
        c.buf.len() <= usize::MAX,
    ensures
        u16s_at(c, n).0.ok(),
    decreases n,
{
    if n > 0 {
        lemma_u16s_fit(read_u16(c).0, (n - 1) as nat);
    }
}

/// A player's buffs decode from a body of code 50 as the sender's slot in the second
/// byte, then buff slot `i` as the little-endian `u16` at `2 + 2 * i`, for each of the
/// 44 slots.
pub proof fn lemma_buffs_in_order(buf: Seq<u8>, m: Message, i: int)
    requires
        buf.len() >= 90,
        buf.len() <= usize::MAX,
        buf[0] == 50,
        decodes_to(buf, m),
        0 <= i < 44,
    ensures
        m matches Message::PlayerBuffs(b) && b.client_id == buf[1] && b.buffs@[i] == (buf[2 + 2 * i] as u16) | ((buf[3
            + 2 * i] as u16) << 8u16),
{
    lemma_u8_at(buf, 1);
    let c = Cursor::at(buf, 2);
    lemma_u16s_fit(c, 44);
    lemma_u16s_in_order(c, 44, i);
}

/// A spawn request decodes from a body of code 8 as the little-endian `i32` in bytes 1
/// to 4 for x, then the one in bytes 5 to 8 for y.
pub proof fn lemma_spawn_request_fields(buf: Seq<u8>, m: Message)
    requires
        buf.len() >= 9,
        buf.len() <= usize::MAX,
        buf[0] == 8,
        decodes_to(buf, m),
    ensures
        m matches Message::SpawnRequest(s) && s.x == crate::binary::le::from_le32(buf.subrange(1, 5)) as i32
            && s.y == crate::binary::le::from_le32(buf.subrange(5, 9)) as i32,
{
}

/// A kill count is sent as code 83 with six bytes: its id as a little-endian `u16`,
/// then its amount as a little-endian `u32`; reading those fields back in order gives
/// the id and the amount.
pub proof fn lemma_kill_count_fields(k: KillCount)
    ensures
        payload(Message::KillCount(k)) matches Some((code, b)) && code == 83 && b.len() == 6
            && read_u16(Cursor::at(b, 0)).1 == k.id && read_u32(Cursor::at(b, 2)).1 == k.amount,
{
    let b = le16(k.id) + le32(k.amount);
    crate::binary::le::lemma_le16_roundtrip(k.id);
    crate::binary::le::lemma_le32_roundtrip(k.amount);
    assert(b.subrange(0, 2) =~= le16(k.id));
    assert(b.subrange(2, 6) =~= le32(k.amount));
}

proof fn lemma_cast8(x: i8)
    by (bit_vector)
    ensures
        (x as u8) as i8 == x,
{
}

/// A connection approval is sent as code 3 with the client's slot, then the flag as a
/// byte.
pub proof fn lemma_approval_fields(a: ConnectionApprove)
    ensures
        payload(Message::ConnectionApprove(a)) matches Some((code, b)) && code == 3 && b.len() == 2
            && read_u8(Cursor::at(b, 0)).1 == a.client_id && read_bool(Cursor::at(b, 1)).1 == a.flag,
{
    let b = seq![a.client_id, bool_byte(a.flag)];
    lemma_u8_at(b, 0);
    lemma_u8_at(b, 1);
}

/// Invasion progress is sent as code 78 with ten bytes: the progress and its maximum as
/// little-endian `i32`s, then the icon and the wave as bytes.
pub proof fn lemma_invasion_progress_fields(p: InvasionProgress)
    ensures
        payload(Message::InvasionProgress(p)) matches Some((code, b)) && code == 78 && b.len() == 10
            && read_i32(Cursor::at(b, 0)).1 == p.progress && read_i32(Cursor::at(b, 4)).1 == p.progress_max
            && read_i8(Cursor::at(b, 8)).1 == p.icon && read_i8(Cursor::at(b, 9)).1 == p.progress_wave,
{
    let b = le32(p.progress as u32) + le32(p.progress_max as u32) + seq![p.icon as u8, p.progress_wave as u8];
    crate::binary::le::lemma_le32_roundtrip(p.progress as u32);
    crate::binary::le::lemma_le32_roundtrip(p.progress_max as u32);
    assert(b.subrange(0, 4) =~= le32(p.progress as u32));
    assert(b.subrange(4, 8) =~= le32(p.progress_max as u32));
    crate::binary::roundtrip::lemma_u32_at(b, 0, p.progress as u32);
    crate::binary::roundtrip::lemma_u32_at(b, 4, p.progress_max as u32);
    crate::binary::roundtrip::lemma_cast32(p.progress);
    crate::binary::roundtrip::lemma_cast32(p.progress_max);
    lemma_u8_at(b, 8);
    lemma_u8_at(b, 9);
    lemma_cast8(p.icon);
    lemma_cast8(p.progress_wave);
}

/// The pillars' status is sent as code 101 with the solar, vortex, nebula and stardust
/// shields, in that order, as little-endian `u16`s.
pub proof fn lemma_pillars_status_fields(p: PillarsStatus)
    ensures
        payload(Message::PillarsStatus(p)) matches Some((code, b)) && code == 101 && b.len() == 8
            && read_u16(Cursor::at(b, 0)).1 == p.solar && read_u16(Cursor::at(b, 2)).1 == p.vortex
            && read_u16(Cursor::at(b, 4)).1 == p.nebula && read_u16(Cursor::at(b, 6)).1 == p.stardust,
{
    let b = le16(p.solar) + le16(p.vortex) + le16(p.nebula) + le16(p.stardust);
    lemma_le16_roundtrip(p.solar);
    lemma_le16_roundtrip(p.vortex);
    lemma_le16_roundtrip(p.nebula);
    lemma_le16_roundtrip(p.stardust);
    assert(b.subrange(0, 2) =~= le16(p.solar));
    assert(b.subrange(2, 4) =~= le16(p.vortex));
    assert(b.subrange(4, 6) =~= le16(p.nebula));
    assert(b.subrange(6, 8) =~= le16(p.stardust));
    lemma_u16_at(b, 0, p.solar);
    lemma_u16_at(b, 2, p.vortex);
    lemma_u16_at(b, 4, p.nebula);
    lemma_u16_at(b, 6, p.stardust);
}

impl Message {
    /// Reads a frame body: its code, then the fields of a message that clients send
    /// (see [`decodes_to`]).
    pub fn from_bytes(buf: &[u8]) -> (m: Message)
        requires
            decodable(buf@),
        ensures
            decodes_to(buf@, m),
    {
        let mut r = Reader::new(buf);
        let code = r.read_byte();
        let ghost c = r.cursor();
        assert(c == Cursor::at(buf@, 1));
        match code {
            1 => {
                proof {
                    crate::binary::cursor::lemma_string_forward(c);
                }
                Message::VersionIdentifier(r.read_string())
            },
            4 => Message::PlayerDetails(read_details(&mut r)),
            5 => {
                let client_id = r.read_byte();
                let slot_id = r.read_i16();
                let amount = r.read_i16();
                let prefix = r.read_byte();
                let item_id = r.read_i16();
                Message::PlayerInventorySlot(PlayerInventorySlot { client_id, slot_id, amount, prefix, item_id })
            },
            6 => Message::WorldRequest,
            8 => {
                let x = r.read_i32();
                let y = r.read_i32();
                Message::SpawnRequest(SpawnRequest { x, y })
            },
            16 => {
                let client_id = r.read_byte();
                let current = r.read_i16();
                let maximum = r.read_i16();
                Message::PlayerHealth(PlayerHealth { client_id, current, maximum })
            },
            38 => {
                proof {
                    crate::binary::cursor::lemma_string_forward(c);
                }
                Message::PasswordResponse(r.read_string())
            },
            42 => {
                let client_id = r.read_byte();
                let current = r.read_i16();
                let maximum = r.read_i16();
                Message::PlayerMana(PlayerMana { client_id, current, maximum })
            },
            50 => {
                proof {
                    lemma_u16s_stopped(read_u8(c).0, 44);
                }
                let client_id = r.read_byte();
                let buffs = read_buffs(&mut r);
                Message::PlayerBuffs(PlayerBuffs { client_id, buffs })
            },
            68 => {
                proof {
                    crate::binary::cursor::lemma_string_forward(c);
                }
                Message::UUID(r.read_string())
            },
            147 => {
                let client_id = r.read_byte();
                let index = r.read_byte();
                let hide_accessory = r.read_u16();
                Message::PlayerLoadout(PlayerLoadout { client_id, index, hide_accessory })
            },
            _ => {
                let rest = vstd::slice::slice_subrange(buf, 1, buf.len());
                let mut v: Vec<u8> = Vec::new();
                v.extend_from_slice(rest);
                assert(v@ =~= buf@.subrange(1, buf@.len() as int));
                Message::Unknown(code, v)
            },
        }
    }
}

// ---------------------------------------------------------------------------------
// Reading back what was written

/// A message that both the server and clients send, or one of a code that no client
/// message has.
pub open spec fn both_ways(m: Message) -> bool {
    match m {
        Message::PlayerDetails(_) | Message::PlayerInventorySlot(_) | Message::PlayerHealth(_)
        | Message::PlayerLoadout(_) => true,
        Message::Unknown(code, _) => !(code == 1 || code == 4 || code == 5 || code == 6 || code == 8
            || code == 16 || code == 38 || code == 42 || code == 50 || code == 68 || code == 147),
        _ => false,
    }
}

proof fn lemma_rgb_at(buf: Seq<u8>, p: int, c: RGB)
    requires
        0 <= p,
        p + 3 <= buf.len() <= usize::MAX,
        buf.subrange(p, p + 3) == rgb_enc(c),
    ensures
        read_rgb(Cursor::at(buf, p)) == (Cursor::at(buf, p + 3), c),
{
    assert(buf[p] == c.0 && buf[p + 1] == c.1 && buf[p + 2] == c.2) by {
        assert(buf.subrange(p, p + 3)[0] == c.0);
        assert(buf.subrange(p, p + 3)[1] == c.1);
        assert(buf.subrange(p, p + 3)[2] == c.2);
    }
    lemma_u8_at(buf, p);
    lemma_u8_at(buf, p + 1);
    lemma_u8_at(buf, p + 2);
}

#[verifier::rlimit(30)]
proof fn lemma_details_tail(buf: Seq<u8>, q: int, d: PlayerDetails)
    requires
        0 <= q,
        q + 28 <= buf.len() <= usize::MAX,
        buf.subrange(q, q + 28) == details_tail_enc(d),
    ensures
        ({
            let c1 = read_u8(Cursor::at(buf, q));
            let c2 = read_u16(c1.0);
            let c3 = read_u8(c2.0);
            let c4 = read_rgb(c3.0);
            let c5 = read_rgb(c4.0);
            let c6 = read_rgb(c5.0);
            let c7 = read_rgb(c6.0);
            let c8 = read_rgb(c7.0);
            let c9 = read_rgb(c8.0);
            let c10 = read_rgb(c9.0);
            let c11 = read_u8(c10.0);
            let c12 = read_u8(c11.0);
            let c13 = read_u8(c12.0);
            &&& c13.0 == Cursor::at(buf, q + 28)
            &&& (c1.1, c2.1, c3.1, c4.1, c5.1, c6.1, c7.1, c8.1, c9.1, c10.1, c11.1, c12.1, c13.1) == (
            d.hair_dye, d.hide_accessory, d.hide_misc, d.hair_color, d.skin_color, d.eye_color,
            d.shirt_color, d.undershirt_color, d.pants_color, d.shoe_color, d.flags_1, d.flags_2,
            d.flags_3)
        }),
{
    let t = details_tail_enc(d);
    lemma_le16_roundtrip(d.hide_accessory);
    assert(buf[q] == d.hair_dye) by {
        assert(buf.subrange(q, q + 28)[0] == t[0]);
    }
    lemma_u8_at(buf, q);
    assert(t.subrange(1, 3) =~= le16(d.hide_accessory));
    assert(buf.subrange(q + 1, q + 3) =~= t.subrange(1, 3));
    assert(buf.subrange(q + 1, q + 3) =~= le16(d.hide_accessory));
    lemma_u16_at(buf, q + 1, d.hide_accessory);
    assert(buf[q + 3] == d.hide_misc) by {
        assert(buf.subrange(q, q + 28)[3] == t[3]);
    }
    lemma_u8_at(buf, q + 3);
    assert(t.subrange(4, 7) =~= rgb_enc(d.hair_color));
    assert(buf.subrange(q + 4, q + 7) =~= t.subrange(4, 7));
    assert(buf.subrange(q + 4, q + 7) =~= rgb_enc(d.hair_color));
    lemma_rgb_at(buf, q + 4, d.hair_color);
    assert(t.subrange(7, 10) =~= rgb_enc(d.skin_color));
    assert(buf.subrange(q + 7, q + 10) =~= t.subrange(7, 10));
    assert(buf.subrange(q + 7, q + 10) =~= rgb_enc(d.skin_color));
    lemma_rgb_at(buf, q + 7, d.skin_color);
    assert(t.subrange(10, 13) =~= rgb_enc(d.eye_color));
    assert(buf.subrange(q + 10, q + 13) =~= t.subrange(10, 13));
    assert(buf.subrange(q + 10, q + 13) =~= rgb_enc(d.eye_color));
    lemma_rgb_at(buf, q + 10, d.eye_color);
    assert(t.subrange(13, 16) =~= rgb_enc(d.shirt_color));
    assert(buf.subrange(q + 13, q + 16) =~= t.subrange(13, 16));
    assert(buf.subrange(q + 13, q + 16) =~= rgb_enc(d.shirt_color));
    lemma_rgb_at(buf, q + 13, d.shirt_color);
    assert(t.subrange(16, 19) =~= rgb_enc(d.undershirt_color));
    assert(buf.subrange(q + 16, q + 19) =~= t.subrange(16, 19));
    assert(buf.subrange(q + 16, q + 19) =~= rgb_enc(d.undershirt_color));
    lemma_rgb_at(buf, q + 16, d.undershirt_color);
    assert(t.subrange(19, 22) =~= rgb_enc(d.pants_color));
    assert(buf.subrange(q + 19, q + 22) =~= t.subrange(19, 22));
    assert(buf.subrange(q + 19, q + 22) =~= rgb_enc(d.pants_color));
    lemma_rgb_at(buf, q + 19, d.pants_color);
    assert(t.subrange(22, 25) =~= rgb_enc(d.shoe_color));
    assert(buf.subrange(q + 22, q + 25) =~= t.subrange(22, 25));
    assert(buf.subrange(q + 22, q + 25) =~= rgb_enc(d.shoe_color));
    lemma_rgb_at(buf, q + 22, d.shoe_color);
    assert(buf[q + 25] == d.flags_1 && buf[q + 26] == d.flags_2 && buf[q + 27] == d.flags_3) by {
        assert(buf.subrange(q, q + 28)[25] == t[25]);
        assert(buf.subrange(q, q + 28)[26] == t[26]);
        assert(buf.subrange(q, q + 28)[27] == t[27]);
    }
    lemma_u8_at(buf, q + 25);
    lemma_u8_at(buf, q + 26);
    lemma_u8_at(buf, q + 27);
}

proof fn lemma_details_roundtrip(d: PlayerDetails)
    requires
        (seq![4u8] + details_enc(d)).len() <= usize::MAX,
        encode_utf8(d.name@).len() < 0x8000_0000_0000_0000,
    ensures
        details_at(Cursor::at(seq![4u8] + details_enc(d), 1)) == (Cursor::at(
            seq![4u8] + details_enc(d),
            (1 + details_enc(d).len()) as int,
        ), details_fields(d)),
{
    let e = details_enc(d);
    let buf = seq![4u8] + e;
    let se = string_enc(d.name@);
    let pre = seq![4u8, d.client_id, d.skin_variant, d.hair];
    let rest = details_tail_enc(d);
    assert(buf =~= pre + se + rest);
    lemma_u8_at(buf, 1);
    lemma_u8_at(buf, 2);
    lemma_u8_at(buf, 3);
    lemma_string_roundtrip(pre, d.name@, rest);
    let q: int = 4 + se.len() as int;
    lemma_le16_roundtrip(d.hide_accessory);
    assert(rest.len() == 28);
    assert(buf.subrange(q, q + 28) =~= rest);
    lemma_details_tail(buf, q, d);
}

/// A message that both sides send reads back from its frame as itself: the frame's
/// body, after the two length bytes, is the code and the payload, and it can be read
/// and decodes to the message (for an unknown code: the same code and bytes).
#[verifier::rlimit(40)]
pub proof fn lemma_message_roundtrip(m: Message)
    requires
        both_ways(m),
        (seq![payload(m)->Some_0.0] + payload(m)->Some_0.1).len() <= usize::MAX,
        m matches Message::PlayerDetails(d) ==> encode_utf8(d.name@).len() < 0x8000_0000_0000_0000,
    ensures
        payload(m) is Some,
        ({
            let p = payload(m)->Some_0;
            let body = seq![p.0] + p.1;
            &&& frame(p.0, p.1).subrange(2, frame(p.0, p.1).len() as int) == body
            &&& decodable(body)
            &&& decodes_to(body, m)
        }),
{
    let p = payload(m)->Some_0;
    let body = seq![p.0] + p.1;
    lemma_le16_roundtrip((p.1.len() + 3) as u16);
    assert(frame(p.0, p.1).subrange(2, frame(p.0, p.1).len() as int) =~= body);
    match m {
        Message::PlayerDetails(d) => {
            lemma_details_roundtrip(d);
        },
        Message::PlayerInventorySlot(s) => {
            lemma_le16_roundtrip(s.slot_id as u16);
            lemma_le16_roundtrip(s.amount as u16);
            lemma_le16_roundtrip(s.item_id as u16);
            lemma_u8_at(body, 1);
            assert(body.subrange(2, 4) =~= le16(s.slot_id as u16));
            lemma_u16_at(body, 2, s.slot_id as u16);
            lemma_cast16(s.slot_id);
            assert(body.subrange(4, 6) =~= le16(s.amount as u16));
            lemma_u16_at(body, 4, s.amount as u16);
            lemma_cast16(s.amount);
            lemma_u8_at(body, 6);
            assert(body.subrange(7, 9) =~= le16(s.item_id as u16));
            lemma_u16_at(body, 7, s.item_id as u16);
            lemma_cast16(s.item_id);
        },
        Message::PlayerHealth(h) => {
            lemma_le16_roundtrip(h.current as u16);
            lemma_le16_roundtrip(h.maximum as u16);
            lemma_u8_at(body, 1);
            assert(body.subrange(2, 4) =~= le16(h.current as u16));
            lemma_u16_at(body, 2, h.current as u16);
            lemma_cast16(h.current);
            assert(body.subrange(4, 6) =~= le16(h.maximum as u16));
            lemma_u16_at(body, 4, h.maximum as u16);
            lemma_cast16(h.maximum);
        },
        Message::PlayerLoadout(l) => {
            lemma_le16_roundtrip(l.hide_accessory);
            lemma_u8_at(body, 1);
            lemma_u8_at(body, 2);
            assert(body.subrange(3, 5) =~= le16(l.hide_accessory));
            lemma_u16_at(body, 3, l.hide_accessory);
        },
        Message::Unknown(code, bytes) => {
            assert(body.subrange(1, body.len() as int) =~= bytes@);
        },
        _ => {},
    }
}

// ---------------------------------------------------------------------------------
// Telling whether a frame body can be read

/// Where a length read at `pos` ends, and the length; `None` when it cannot be read.
fn length_end(buf: &[u8], pos: usize) -> (r: Option<(usize, usize)>)
    ensures
        match r {
            Some((p, n)) => read_length(Cursor::at(buf@, pos as int)) == (Cursor::at(buf@, p as int), n),
            None => !read_length(Cursor::at(buf@, pos as int)).0.ok(),
        },
{
    if pos >= buf.len() {
        return None;
    }
    let first = buf[pos];
    proof {
        lemma_u8_at(buf@, pos as int);
    }
    let ghost c1 = Cursor::at(buf@, pos + 1);
    assert(read_u8(Cursor::at(buf@, pos as int)) == (c1, first));
    assert(read_length(Cursor::at(buf@, pos as int)) == (
        length_rest(c1, first as u64, 7).0,
        length_rest(c1, first as u64, 7).1 as usize,
    ));
    let mut p: usize = pos + 1;
    let mut length: u64 = first as u64;
    let mut shift: u64 = 7;
    while shift < 64 && (length & (1u64 << shift)) != 0
        invariant
            7 <= shift <= 70,
            pos < p <= buf@.len(),
            c1 == Cursor::at(buf@, pos + 1),
            length_rest(Cursor::at(buf@, p as int), length, shift as int) == length_rest(c1, first as u64, 7),
            read_length(Cursor::at(buf@, pos as int)) == (
                length_rest(c1, first as u64, 7).0,
                length_rest(c1, first as u64, 7).1 as usize,
            ),
        decreases 71 - shift,
    {
        if p >= buf.len() {
            assert(!read_u8(Cursor::at(buf@, p as int)).0.ok());
            assert(!length_rest(Cursor::at(buf@, p as int), length, shift as int).0.ok());
            return None;
        }
        let b = buf[p];
        proof {
            lemma_u8_at(buf@, p as int);
        }
        length = (length & !(1u64 << shift)) | ((b as u64) << shift);
        shift = shift + 7;
        p = p + 1;
    }
    if shift >= 64 {
        return None;
    }
    Some((p, length as usize))
}

/// Where a string read at `pos` ends; `None` when it cannot be read.
fn string_end(buf: &[u8], pos: usize) -> (r: Option<usize>)
    ensures
        match r {
            Some(p) => read_string_lenient(Cursor::at(buf@, pos as int)).0 == Cursor::at(buf@, p as int),
            None => !read_string_lenient(Cursor::at(buf@, pos as int)).0.ok(),
        },
{
    match length_end(buf, pos) {
        None => None,
        Some((p, n)) => match p.checked_add(n) {
            None => None,
            Some(end) => if end <= buf.len() {
                Some(end)
            } else {
                None
            },
        },
    }
}

proof fn lemma_u16s_ok(buf: Seq<u8>, p: int, k: nat)
    requires
        0 <= p <= buf.len(),
        buf.len() <= usize::MAX,
    ensures
        u16s_at(Cursor::at(buf, p), k).0.ok() == (p + 2 * k <= buf.len()),
    decreases k,
{
    if k > 0 {
        if p + 2 > buf.len() {
            lemma_u16s_stopped(take(Cursor::at(buf, p), 2).0, (k - 1) as nat);
        } else {
            assert(read_u16(Cursor::at(buf, p)).0 == Cursor::at(buf, p + 2));
            lemma_u16s_ok(buf, p + 2, (k - 1) as nat);
        }
    }
}

impl Message {
    /// Whether a frame body can be read (see [`decodable`]).
    #[verifier::rlimit(50)]
    #[verifier::spinoff_prover]
    pub fn is_decodable(buf: &[u8]) -> (b: bool)
        ensures
            b == decodable(buf@),
    {
        let n = buf.len();
        if n == 0 {
            return false;
        }
        let code = buf[0];
        if code == 1 || code == 38 || code == 68 {
            string_end(buf, 1).is_some()
        } else if code == 4 {
            if n < 4 {
                proof {
                    crate::binary::cursor::lemma_string_forward(Cursor::at(buf@, 4));
                }
                false
            } else {
                match string_end(buf, 4) {
                    None => false,
                    Some(p) => p <= n && n - p >= 28,
                }
            }
        } else if code == 5 {
            n >= 9
        } else if code == 8 {
            n >= 9
        } else if code == 16 || code == 42 {
            n >= 6
        } else if code == 50 {
            proof {
                if n >= 2 {
                    assert(read_u8(Cursor::at(buf@, 1)).0 == Cursor::at(buf@, 2));
                    lemma_u16s_ok(buf@, 2, 44);
                } else {
                    lemma_u16s_stopped(read_u8(Cursor::at(buf@, 1)).0, 44);
                }
            }
            n >= 90
        } else if code == 147 {
            n >= 5
        } else {
            true
        }
    }
}

} // verus!
