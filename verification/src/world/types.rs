//! The values that a world file holds.
use vstd::prelude::*;
use vstd::std_specs::convert::FromSpecImpl;
use std::str::Utf8Error;
use crate::binary::cursor::Stop;
use crate::binary::types::Vector2;
use crate::world::tile::Tile;
use crate::world::entity::Entity;

verus! {

/// `std::io::Error`, the error of a failed file operation or of compression.
#[verifier::external_type_specification]
#[verifier::external_body]
pub struct ExIoError(std::io::Error);

#[derive(PartialEq, Eq, Structural, Debug, Clone, Copy)]
pub enum FileType {
    /// Any type byte other than those below.
    Unknown,
    /// A map file.
    WorldMap,
    World,
    Player,
}

impl From<u8> for FileType {
    fn from(value: u8) -> (r: Self) {
        match value {
            1 => Self::WorldMap,
            2 => Self::World,
            3 => Self::Player,
            _ => Self::Unknown,
        }
    }
}

impl FromSpecImpl<u8> for FileType {
    open spec fn obeys_from_spec() -> bool {
        true
    }

    open spec fn from_spec(value: u8) -> FileType {
        FileType::from_code(value)
    }
}

impl FileType {
    /// The type of a number: 1 map, 2 world, 3 player, any other unknown.
    pub open spec fn from_code(value: u8) -> FileType {
        if value == 1 {
            FileType::WorldMap
        } else if value == 2 {
            FileType::World
        } else if value == 3 {
            FileType::Player
        } else {
            FileType::Unknown
        }
    }
}

#[derive(PartialEq, Eq, Structural, Debug, Clone, Copy)]
pub enum GameMode {
    Normal,
    Expert,
    Master,
    Creative,
}

impl From<u8> for GameMode {
    fn from(value: u8) -> (r: Self) {
        match value {
            1 => Self::Expert,
            2 => Self::Master,
            3 => Self::Creative,
            _ => Self::Normal,
        }
    }
}

impl FromSpecImpl<u8> for GameMode {
    open spec fn obeys_from_spec() -> bool {
        true
    }

    open spec fn from_spec(value: u8) -> GameMode {
        GameMode::from_code(value)
    }
}

impl GameMode {
    /// The mode of a number: 1 expert, 2 master, 3 creative, any other normal.
    pub open spec fn from_code(value: u8) -> GameMode {
        if value == 1 {
            GameMode::Expert
        } else if value == 2 {
            GameMode::Master
        } else if value == 3 {
            GameMode::Creative
        } else {
            GameMode::Normal
        }
    }

    /// The mode's number in the file and network formats.
    pub open spec fn code(self) -> u8 {
        match self {
            GameMode::Normal => 0,
            GameMode::Expert => 1,
            GameMode::Master => 2,
            GameMode::Creative => 3,
        }
    }

    pub fn as_u8(&self) -> (r: u8)
        ensures
            r == self.code(),
    {
        match self {
            GameMode::Normal => 0,
            GameMode::Expert => 1,
            GameMode::Master => 2,
            GameMode::Creative => 3,
        }
    }
}

/// The signature of a world file from version 135 on: the ASCII bytes of "relogic".
pub const MAGIC_STRING: [u8; 7] = [114, 101, 108, 111, 103, 105, 99];

/// Why a world file could not be read.
#[derive(Debug)]
pub enum WorldParseError {
    UnexpectedEOI,
    InvalidNumber,
    BadFileSignature,
    ExpectedWorldType,
    InvalidFooter,
    InvalidString(Utf8Error),
    PositionCheckFailed(String),
    UnsupportedVersion(i32),
    FSError(std::io::Error),
    InvalidEntityKind,
}

/// The error `e` reports the stop `s`.
pub open spec fn reports(e: WorldParseError, s: Stop) -> bool {
    match s {
        Stop::EndOfInput => e is UnexpectedEOI,
        Stop::InvalidString => e is InvalidString,
        Stop::InvalidEntityKind => e is InvalidEntityKind,
        Stop::BadFileSignature => e is BadFileSignature,
        Stop::ExpectedWorldType => e is ExpectedWorldType,
        Stop::InvalidFooter => e is InvalidFooter,
        Stop::UnsupportedVersion(v) => e == WorldParseError::UnsupportedVersion(v),
        Stop::PositionCheckFailed(field) => e matches WorldParseError::PositionCheckFailed(f)
            && f@ == field,
        Stop::Panic => false,
    }
}

#[derive(Debug, Clone, Copy, PartialEq, Eq)]
pub struct Metadata {
    pub version: i32,
    pub file_type: FileType,
    pub revision: u32,
    pub favorite: bool,
}

pub const BG_COUNT: usize = 13;

pub const WALL_COUNT: u16 = 347;

#[derive(Debug, Clone)]
pub struct Header {
    pub name: String,
    pub seed_text: String,
    pub worldgen_version: u64,
    pub uuid: Option<[u8; 16]>,
    pub id: i32,
    pub left: i32,
    pub right: i32,
    pub top: i32,
    pub bottom: i32,
    pub width: i32,
    pub height: i32,
    pub game_mode: GameMode,
    pub world_drunk: bool,
    pub world_for_the_worthy: bool,
    pub world_anniversary: bool,
    pub world_dont_starve: bool,
    pub world_not_the_bees: bool,
    pub world_remix: bool,
    pub world_no_traps: bool,
    pub world_zenith: bool,
    pub creation_time: i64,
    pub has_crimson: bool,
    pub hard_mode: bool,
    pub moon_type: i32,
    pub tree_x: [i32; 3],
    pub tree_style: [i32; 4],
    pub cave_back_x: [i32; 3],
    pub cave_back_style: [i32; 4],
    pub ice_back_style: i32,
    pub jungle_back_style: i32,
    pub hell_back_style: i32,
    pub spawn_tile_x: i32,
    pub spawn_tile_y: i32,
    /// An `f64`, as its bit pattern.
    pub world_surface: u64,
    /// An `f64`, as its bit pattern.
    pub rock_layer: u64,
    /// An `f64`, as its bit pattern.
    pub temp_time: u64,
    pub temp_day_time: bool,
    pub temp_moon_phase: i32,
    pub temp_blood_moon: bool,
    pub temp_eclipse: bool,
    pub dungeon_x: i32,
    pub dungeon_y: i32,
    pub downed_boss_1: bool,
    pub downed_boss_2: bool,
    pub downed_boss_3: bool,
    pub downed_queen_bee: bool,
    pub downed_mech_boss_1: bool,
    pub downed_mech_boss_2: bool,
    pub downed_mech_boss_3: bool,
    pub downed_mech_boss_any: bool,
    pub downed_plant_boss: bool,
    pub downed_golem_boss: bool,
    pub downed_slime_king: bool,
    pub saved_goblin: bool,
    pub saved_wizard: bool,
    pub saved_mechanic: bool,
    pub downed_goblins: bool,
    pub downed_clown: bool,
    pub downed_frost: bool,
    pub downed_pirates: bool,
    pub smashed_shadow_orb: bool,
    pub spawn_meteor: bool,
    pub shadow_orb_count: i32,
    pub altar_count: i32,
    pub after_party_of_doom: bool,
    pub invasion_delay: i32,
    pub invasion_size: i32,
    pub invasion_type: i32,
    /// An `f64`, as its bit pattern.
    pub invasion_x: u64,
    /// An `f64`, as its bit pattern.
    pub slime_rain_time: u64,
    pub sundial_cooldown: i32,
    pub temp_raining: bool,
    pub temp_rain_time: i32,
    /// An `f32`, as its bit pattern.
    pub temp_max_rain: u32,
    pub ore_tier_cobalt: i32,
    pub ore_tier_mythril: i32,
    pub ore_tier_adamantite: i32,
    pub bg: [u8; BG_COUNT],
    /// The stored integer that the game turns into an `f32`.
    pub cloud_bg_active: i32,
    /// An `f64`, as its bit pattern.
    pub cloud_bg_alpha: u64,
    pub num_clouds: i16,
    /// An `f32`, as its bit pattern.
    pub wind_speed_target: u32,
    pub angler_who_finished_today: Vec<String>,
    pub saved_angler: bool,
    pub angler_quest: i32,
    pub saved_stylist: bool,
    pub saved_tax_collector: bool,
    pub saved_golfer: bool,
    pub invasion_size_start: i32,
    pub temp_cultist_delay: i32,
    pub npc_kill_counts: Vec<i32>,
    pub fast_forward_time_to_dawn: bool,
    pub downed_fishron: bool,
    pub downed_martians: bool,
    pub downed_ancient_cultist: bool,
    pub downed_moonlord: bool,
    pub downed_halloween_king: bool,
    pub downed_halloween_tree: bool,
    pub downed_christmas_ice_queen: bool,
    pub downed_christmas_santank: bool,
    pub downed_christmas_tree: bool,
    pub downed_tower_solar: bool,
    pub downed_tower_vortex: bool,
    pub downed_tower_nebula: bool,
    pub downed_tower_stardust: bool,
    pub tower_active_solar: bool,
    pub tower_active_vortex: bool,
    pub tower_active_nebula: bool,
    pub tower_active_stardust: bool,
    pub lunar_apocalypse_is_up: bool,
    pub temp_party_manual: bool,
    pub temp_party_genuine: bool,
    pub temp_party_cooldown: i32,
    pub temp_party_celebrating_npcs: Vec<i32>,
    pub temp_sandstorm_happening: bool,
    pub temp_sandstorm_time_left: i32,
    /// An `f32`, as its bit pattern.
    pub temp_sandstorm_severity: u32,
    /// An `f32`, as its bit pattern.
    pub temp_sandstorm_intended_severity: u32,
    pub saved_bartender: bool,
    pub downed_dd2_invasion_t1: bool,
    pub downed_dd2_invasion_t2: bool,
    pub downed_dd2_invasion_t3: bool,
    pub combat_book_was_used: bool,
    pub temp_lantern_night_cooldown: i32,
    pub temp_lantern_night_genuine: bool,
    pub temp_lantern_night_manual: bool,
    pub temp_lantern_night_next_night_is_genuine: bool,
    pub tree_top_variations: Vec<i32>,
    pub force_halloween_for_today: bool,
    pub force_xmas_for_today: bool,
    pub ore_tier_copper: i32,
    pub ore_tier_iron: i32,
    pub ore_tier_silver: i32,
    pub ore_tier_gold: i32,
    pub bought_cat: bool,
    pub bought_dog: bool,
    pub bought_bunny: bool,
    pub downed_empress_of_light: bool,
    pub downed_queen_slime: bool,
    pub downed_deerclops: bool,
    pub unlocked_slime_blue_spawn: bool,
    pub unlocked_merchant_spawn: bool,
    pub unlocked_demolition_spawn: bool,
    pub unlocked_party_girl_spawn: bool,
    pub unlocked_dye_trader_spawn: bool,
    pub unlocked_truffle_spawn: bool,
    pub unlocked_arms_dealer_spawn: bool,
    pub unlocked_nurse_spawn: bool,
    pub unlocked_princess_spawn: bool,
    pub combat_book_volume_two_was_used: bool,
    pub peddlers_satchel_was_used: bool,
    pub unlocked_slime_green_spawn: bool,
    pub unlocked_slime_old_spawn: bool,
    pub unlocked_slime_purple_spawn: bool,
    pub unlocked_slime_rainbow_spawn: bool,
    pub unlocked_slime_red_spawn: bool,
    pub unlocked_slime_yellow_spawn: bool,
    pub unlocked_slime_copper_spawn: bool,
    pub fast_forward_time_to_dusk: bool,
    pub moondial_cooldown: u8,
}

/// A parsed world file.
#[derive(Debug, Clone)]
pub struct World {
    pub metadata: Metadata,
    pub format: Format,
    pub header: Header,
    /// Columns of tiles: `tiles[x][y]`.
    pub tiles: Vec<Vec<Tile>>,
    pub chests: Vec<Chest>,
    pub signs: Vec<Sign>,
    pub npcs: Vec<NPC>,
    pub entities: Vec<Entity>,
    pub weighted_pressure_plates: Vec<WeightedPressurePlate>,
    pub room_locations: Vec<RoomLocation>,
    pub bestiary: Bestiary,
    pub creative_powers: Vec<CreativePower>,
}

#[derive(Debug, Clone)]
pub struct Format {
    pub importance: Vec<bool>,
    pub positions: Vec<i32>,
}

#[derive(Debug, Clone, Copy, PartialEq, Eq)]
pub struct ChestItem {
    pub id: i32,
    pub stack: i16,
    pub prefix: u8,
}

impl Default for ChestItem {
    /// The empty slot.
    fn default() -> (c: Self)
        ensures
            c == (ChestItem { id: 0, stack: 0, prefix: 0 }),
    {
        ChestItem { id: 0, stack: 0, prefix: 0 }
    }
}

#[derive(Debug, Clone)]
pub struct Chest {
    pub x: i32,
    pub y: i32,
    pub name: String,
    pub items: Vec<ChestItem>,
}

impl View for Chest {
    /// The position, the name and the item slots.
    type V = (i32, i32, Seq<char>, Seq<ChestItem>);

    open spec fn view(&self) -> (i32, i32, Seq<char>, Seq<ChestItem>) {
        (self.x, self.y, self.name@, self.items@)
    }
}

#[derive(Debug, Clone)]
pub struct Sign {
    pub x: i32,
    pub y: i32,
    pub text: String,
}

impl View for Sign {
    /// The position and the text.
    type V = (i32, i32, Seq<char>);

    open spec fn view(&self) -> (i32, i32, Seq<char>) {
        (self.x, self.y, self.text@)
    }
}

#[derive(Debug, Clone)]
pub struct NPC {
    pub id: i32,
    pub name: String,
    pub position: Vector2,
    pub homeless: bool,
    pub shimmer: bool,
    pub home_x: i32,
    pub home_y: i32,
    pub variation: i32,
}

/// The abstract value of an [`NPC`].
pub struct NpcView {
    pub id: i32,
    pub name: Seq<char>,
    pub position: Vector2,
    pub homeless: bool,
    pub shimmer: bool,
    pub home_x: i32,
    pub home_y: i32,
    pub variation: i32,
}

impl View for NPC {
    type V = NpcView;

    open spec fn view(&self) -> NpcView {
        NpcView {
            id: self.id,
            name: self.name@,
            position: self.position,
            homeless: self.homeless,
            shimmer: self.shimmer,
            home_x: self.home_x,
            home_y: self.home_y,
            variation: self.variation,
        }
    }
}

#[derive(Debug, Clone, Copy, PartialEq, Eq)]
pub struct WeightedPressurePlate {
    pub x: i32,
    pub y: i32,
}

#[derive(Debug, Clone, Copy, PartialEq, Eq)]
pub struct RoomLocation {
    pub id: i32,
    pub x: i32,
    pub y: i32,
}

#[derive(Debug, Clone)]
pub struct Bestiary {
    /// NPC ids with their kill counts.
    pub kills: Vec<(String, i32)>,
    /// NPC ids.
    pub sights: Vec<String>,
    /// NPC ids.
    pub chats: Vec<String>,
}

impl View for Bestiary {
    /// The kills, sightings and chats, each string by its characters.
    type V = (Seq<(Seq<char>, i32)>, Seq<Seq<char>>, Seq<Seq<char>>);

    open spec fn view(&self) -> (Seq<(Seq<char>, i32)>, Seq<Seq<char>>, Seq<Seq<char>>) {
        (
            self.kills@.map_values(|k: (String, i32)| (k.0@, k.1)),
            self.sights@.map_values(|s: String| s@),
            self.chats@.map_values(|s: String| s@),
        )
    }
}

/// A journey-mode power; an `f32` setting is held as its bit pattern.
#[derive(Debug, Clone, Copy, PartialEq, Eq)]
pub enum CreativePower {
    FreezeTime(bool),
    StartDayImmediately,
    StartNoonImmediately,
    StartNightImmediately,
    StartMidnightImmediately,
    GodmodePower,
    ModifyWindDirectionAndStrength,
    ModifyRainPower,
    ModifyTimeRate(u32),
    FreezeRainPower(bool),
    FreezeWindDirectionAndStrength(bool),
    FarPlacementRangePower,
    DifficultySliderPower(u32),
    StopBiomeSpreadPower(bool),
    SpawnRateSliderPerPlayerPower,
}

} // verus!
