//! Helpers of the server: flag bytes, the sections of the world that clients load, and
//! the world header message.
use vstd::prelude::*;
use crate::world::types::{Header, GameMode, World, Chest, Sign};
use crate::world::entity::{Entity, entity_enc};
use crate::world::tile::{Tile, tile_enc};
use crate::binary::writer::{Writer, string_enc};
use crate::binary::le::{le16, le32};
use crate::binary::cursor::{Cursor, read_i16};
use crate::network::messages::{Message, WorldHeader, bool_byte};

verus! {

/// The byte whose bit `i` is the `i`-th flag, the first flag in the lowest bit.
#[verifier::opaque]
pub open spec fn flag_byte(a: bool, b: bool, c: bool, d: bool, e: bool, f: bool, g: bool, h: bool) -> u8 {
    (bool_byte(a) + 2 * bool_byte(b) + 4 * bool_byte(c) + 8 * bool_byte(d) + 16 * bool_byte(e) + 32
        * bool_byte(f) + 64 * bool_byte(g) + 128 * bool_byte(h)) as u8
}

proof fn bv_flags(a: u8, b: u8, c: u8, d: u8, e: u8, f: u8, g: u8, h: u8)
    by (bit_vector)
    requires
        a <= 1,
        b <= 1,
        c <= 1,
        d <= 1,
        e <= 1,
        f <= 1,
        g <= 1,
        h <= 1,
    ensures
        a | (b << 1u8) | (c << 2u8) | (d << 3u8) | (e << 4u8) | (f << 5u8) | (g << 6u8) | (h << 7u8)
            == a + 2 * b + 4 * c + 8 * d + 16 * e + 32 * f + 64 * g + 128 * h,
{
}

proof fn bv_flag_bits(a: u8, b: u8, c: u8, d: u8, e: u8, f: u8, g: u8, h: u8)
    by (bit_vector)
    requires
        a <= 1,
        b <= 1,
        c <= 1,
        d <= 1,
        e <= 1,
        f <= 1,
        g <= 1,
        h <= 1,
    ensures
        ({
            let v: u8 = a | (b << 1u8) | (c << 2u8) | (d << 3u8) | (e << 4u8) | (f << 5u8) | (g << 6u8) | (h << 7u8);
            &&& v & 1u8 == a
            &&& (v >> 1u8) & 1u8 == b
            &&& (v >> 2u8) & 1u8 == c
            &&& (v >> 3u8) & 1u8 == d
            &&& (v >> 4u8) & 1u8 == e
            &&& (v >> 5u8) & 1u8 == f
            &&& (v >> 6u8) & 1u8 == g
            &&& (v >> 7u8) & 1u8 == h
        }),
{
}

/// Bit `i` of a flag byte is 1 exactly when the `i`-th flag is set: the first flag is
/// bit 0, the fifth (hard mode in the world header's first progress byte) bit 4, the
/// sixth bit 5, and so on.
pub proof fn lemma_flag_byte_bits(a: bool, b: bool, c: bool, d: bool, e: bool, f: bool, g: bool, h: bool)
    ensures
        ({
            let v = flag_byte(a, b, c, d, e, f, g, h);
            &&& v & 1u8 == bool_byte(a)
            &&& (v >> 1u8) & 1u8 == bool_byte(b)
            &&& (v >> 2u8) & 1u8 == bool_byte(c)
            &&& (v >> 3u8) & 1u8 == bool_byte(d)
            &&& (v >> 4u8) & 1u8 == bool_byte(e)
            &&& (v >> 5u8) & 1u8 == bool_byte(f)
            &&& (v >> 6u8) & 1u8 == bool_byte(g)
            &&& (v >> 7u8) & 1u8 == bool_byte(h)
        }),
{
    reveal(flag_byte);
    let (xa, xb, xc, xd) = (bool_byte(a), bool_byte(b), bool_byte(c), bool_byte(d));
    let (xe, xf, xg, xh) = (bool_byte(e), bool_byte(f), bool_byte(g), bool_byte(h));
    bv_flags(xa, xb, xc, xd, xe, xf, xg, xh);
    bv_flag_bits(xa, xb, xc, xd, xe, xf, xg, xh);
}

/// Packs eight flags into a byte, the first in the lowest bit.
#[allow(clippy::too_many_arguments)]
pub fn flags(a: bool, b: bool, c: bool, d: bool, e: bool, f: bool, g: bool, h: bool) -> (r: u8)
    ensures
        r == flag_byte(a, b, c, d, e, f, g, h),
{
    let (a, b, c, d, e, f, g, h) = (a as u8, b as u8, c as u8, d as u8, e as u8, f as u8, g as u8, h as u8);
    proof {
        reveal(flag_byte);
        bv_flags(a, b, c, d, e, f, g, h);
    }
    a | (b << 1) | (c << 2) | (d << 3) | (e << 4) | (f << 5) | (g << 6) | (h << 7)
}

/// The width of a section of the world, in tiles.
pub const SECTION_WIDTH: usize = 200;

/// The height of a section of the world, in tiles.
pub const SECTION_HEIGHT: usize = 150;

/// The column of sections that holds tile column `x`.
pub fn get_section_x(x: usize) -> (r: usize)
    ensures
        r == x / SECTION_WIDTH,
{
    x / SECTION_WIDTH
}

/// The row of sections that holds tile row `y`.
pub fn get_section_y(y: usize) -> (r: usize)
    ensures
        r == y / SECTION_HEIGHT,
{
    y / SECTION_HEIGHT
}

/// The sections around a tile that a client loads: from two columns to the left, four
/// columns wide, and from one row up, two rows high, bounded by the last section. The
/// tile's section must be at least the third column and the second row (the
/// subtraction would go below zero).
pub fn get_sections_near(x: i32, y: i32, max_sec_x: usize, max_sec_y: usize) -> (r: (usize, usize, usize, usize))
    requires
        (x as usize) / SECTION_WIDTH >= 2,
        (y as usize) / SECTION_HEIGHT >= 1,
    ensures
        r.0 == (x as usize) / SECTION_WIDTH - 2,
        r.1 == if r.0 + 4 < max_sec_x { r.0 + 4 } else { max_sec_x as int },
        r.2 == (y as usize) / SECTION_HEIGHT - 1,
        r.3 == if r.2 + 2 < max_sec_y { r.2 + 2 } else { max_sec_y as int },
{
    let sec_x_start = get_section_x(x as usize) - 2;
    let sec_x_end = if sec_x_start + 4 < max_sec_x { sec_x_start + 4 } else { max_sec_x };
    let sec_y_start = get_section_y(y as usize) - 1;
    let sec_y_end = if sec_y_start + 2 < max_sec_y { sec_y_start + 2 } else { max_sec_y };
    (sec_x_start, sec_x_end, sec_y_start, sec_y_end)
}

/// The world header message built from a world's header: the time of day and moon as
/// flags, positions and sizes narrowed to 16 bits, the styles to bytes, the tree top
/// variations when there are exactly thirteen (else zeros), and ten bytes of progress flags.
pub open spec fn world_header_from(w: WorldHeader, h: Header, world_surface: i16, rock_layer: i16) -> bool {
    &&& w.time == 0
    &&& w.time_flags == flag_byte(h.temp_day_time, h.temp_blood_moon, h.temp_eclipse, false, false, false, false, false)
    &&& w.moon_phase == h.temp_moon_phase as u8
    &&& w.width == h.width as i16
    &&& w.height == h.height as i16
    &&& w.spawn_x == h.spawn_tile_x as i16
    &&& w.spawn_y == h.spawn_tile_y as i16
    &&& w.world_surface == world_surface
    &&& w.rock_layer == rock_layer
    &&& w.id == h.id
    &&& w.game_mode == h.game_mode.code()
    &&& w.worldgen_version == h.worldgen_version
    &&& w.moon_type == h.moon_type as u8
    &&& w.bg_0 == h.bg@[0]
    &&& w.bg_10 == h.bg@[10]
    &&& w.bg_11 == h.bg@[11]
    &&& w.bg_12 == h.bg@[12]
    &&& w.bg_1 == h.bg@[1]
    &&& w.bg_2 == h.bg@[2]
    &&& w.bg_3 == h.bg@[3]
    &&& w.bg_4 == h.bg@[4]
    &&& w.bg_5 == h.bg@[5]
    &&& w.bg_6 == h.bg@[6]
    &&& w.bg_7 == h.bg@[7]
    &&& w.bg_8 == h.bg@[8]
    &&& w.bg_9 == h.bg@[9]
    &&& w.ice_back_style == h.ice_back_style as u8
    &&& w.jungle_back_style == h.jungle_back_style as u8
    &&& w.hell_back_style == h.hell_back_style as u8
    &&& w.wind_speed_target == h.wind_speed_target
    &&& w.num_clouds == h.num_clouds as u8
    &&& w.max_raining == h.temp_max_rain
    &&& w.sundial_cooldown == h.sundial_cooldown as u8
    &&& w.moondial_cooldown == h.moondial_cooldown
    &&& w.ore_tier_copper == h.ore_tier_copper as i16
    &&& w.ore_tier_iron == h.ore_tier_iron as i16
    &&& w.ore_tier_silver == h.ore_tier_silver as i16
    &&& w.ore_tier_gold == h.ore_tier_gold as i16
    &&& w.ore_tier_cobalt == h.ore_tier_cobalt as i16
    &&& w.ore_tier_mythril == h.ore_tier_mythril as i16
    &&& w.ore_tier_adamantite == h.ore_tier_adamantite as i16
    &&& w.invasion_type == h.invasion_type as i8
    &&& w.lobby_id == 0
    &&& w.sandstorm_intended_severity == h.temp_sandstorm_intended_severity
    &&& w.name@ == h.name@
    &&& h.uuid matches Some(u) && w.uuid == u
    &&& w.tree_x == h.tree_x
    &&& w.cave_back_x == h.cave_back_x
    &&& w.tree_style@ == h.tree_style@.map_values(|n: i32| n as u8)
    &&& w.cave_back_style@ == h.cave_back_style@.map_values(|n: i32| n as u8)
    &&& w.tree_top_variations@ == (if h.tree_top_variations@.len() == 13 { h.tree_top_variations@.map_values(|n: i32| n as u8) } else { Seq::new(13, |i: int| 0u8) })
    &&& w.flags@ == seq![flag_byte(h.smashed_shadow_orb, h.downed_boss_1, h.downed_boss_2, h.downed_boss_3, h.hard_mode, h.downed_clown, false, h.downed_plant_boss), flag_byte(h.downed_mech_boss_1, h.downed_mech_boss_2, h.downed_mech_boss_3, h.downed_mech_boss_any, h.cloud_bg_active == 1, h.has_crimson, false, false), flag_byte(false, h.fast_forward_time_to_dawn, false, h.downed_slime_king, h.downed_queen_bee, h.downed_fishron, h.downed_martians, h.downed_ancient_cultist), flag_byte(h.downed_moonlord, h.downed_halloween_king, h.downed_halloween_tree, h.downed_christmas_ice_queen, h.downed_christmas_santank, h.downed_christmas_tree, h.downed_golem_boss, false), flag_byte(h.downed_pirates, h.downed_frost, h.downed_goblins, h.temp_sandstorm_happening, false, h.downed_dd2_invasion_t1, h.downed_dd2_invasion_t2, h.downed_dd2_invasion_t3), flag_byte(h.combat_book_was_used, h.temp_lantern_night_manual, h.downed_tower_solar, h.downed_tower_vortex, h.downed_tower_nebula, h.downed_tower_stardust, h.force_halloween_for_today, h.force_xmas_for_today), flag_byte(h.bought_cat, h.bought_dog, h.bought_bunny, false, h.world_drunk, h.downed_empress_of_light, h.downed_queen_slime, false), flag_byte(h.world_anniversary, h.world_dont_starve, h.downed_deerclops, h.world_not_the_bees, h.world_remix, h.unlocked_slime_blue_spawn, h.combat_book_volume_two_was_used, h.peddlers_satchel_was_used), flag_byte(h.unlocked_slime_green_spawn, h.unlocked_slime_old_spawn, h.unlocked_slime_purple_spawn, h.unlocked_slime_rainbow_spawn, h.unlocked_slime_red_spawn, h.unlocked_slime_yellow_spawn, h.unlocked_slime_copper_spawn, h.fast_forward_time_to_dusk), flag_byte(h.world_no_traps, h.world_zenith, h.unlocked_truffle_spawn, false, false, false, false, false)]
}

/// The first progress byte of the world header message reports, from its lowest bit
/// up: shadow orb smashed, the first three bosses downed, hard mode, the clown downed,
/// nothing, and the plant boss downed.
pub proof fn lemma_world_header_first_flags(w: WorldHeader, h: Header, world_surface: i16, rock_layer: i16)
    requires
        world_header_from(w, h, world_surface, rock_layer),
    ensures
        w.flags@[0] & 1u8 == bool_byte(h.smashed_shadow_orb),
        (w.flags@[0] >> 1u8) & 1u8 == bool_byte(h.downed_boss_1),
        (w.flags@[0] >> 2u8) & 1u8 == bool_byte(h.downed_boss_2),
        (w.flags@[0] >> 3u8) & 1u8 == bool_byte(h.downed_boss_3),
        (w.flags@[0] >> 4u8) & 1u8 == bool_byte(h.hard_mode),
        (w.flags@[0] >> 5u8) & 1u8 == bool_byte(h.downed_clown),
        (w.flags@[0] >> 6u8) & 1u8 == 0,
        (w.flags@[0] >> 7u8) & 1u8 == bool_byte(h.downed_plant_boss),
{
    lemma_flag_byte_bits(
        h.smashed_shadow_orb,
        h.downed_boss_1,
        h.downed_boss_2,
        h.downed_boss_3,
        h.hard_mode,
        h.downed_clown,
        false,
        h.downed_plant_boss,
    );
}

/// The tree styles, cave background styles and tree top variations of a header as
/// bytes; the variations are zeros unless there are exactly thirteen.
fn narrow_styles(h: &Header) -> (r: ([u8; 4], [u8; 4], [u8; 13]))
    ensures
        r.0@ == h.tree_style@.map_values(|n: i32| n as u8),
        r.1@ == h.cave_back_style@.map_values(|n: i32| n as u8),
        r.2@ == (if h.tree_top_variations@.len() == 13 { h.tree_top_variations@.map_values(|n: i32| n as u8) } else { Seq::new(13, |i: int| 0u8) }),
{
    let tree_style: [u8; 4] = [h.tree_style[0] as u8, h.tree_style[1] as u8, h.tree_style[2] as u8, h.tree_style[3] as u8];
    assert(tree_style@ =~= h.tree_style@.map_values(|n: i32| n as u8));
    let cave_back_style: [u8; 4] = [h.cave_back_style[0] as u8, h.cave_back_style[1] as u8, h.cave_back_style[2] as u8, h.cave_back_style[3] as u8];
    assert(cave_back_style@ =~= h.cave_back_style@.map_values(|n: i32| n as u8));
    let tv = &h.tree_top_variations;
    let tree_top_variations: [u8; 13] = if tv.len() == 13 {
        [tv[0] as u8, tv[1] as u8, tv[2] as u8, tv[3] as u8, tv[4] as u8, tv[5] as u8, tv[6] as u8, tv[7] as u8, tv[8] as u8, tv[9] as u8, tv[10] as u8, tv[11] as u8, tv[12] as u8]
    } else {
        [0u8; 13]
    };
    assert(tree_top_variations@ =~= (if h.tree_top_variations@.len() == 13 { h.tree_top_variations@.map_values(|n: i32| n as u8) } else { Seq::new(13, |i: int| 0u8) }));
    (tree_style, cave_back_style, tree_top_variations)
}

/// The ten bytes of progress flags of a header.
fn progress_flags(h: &Header) -> (r: [u8; 10])
    ensures
        r@ == seq![flag_byte(h.smashed_shadow_orb, h.downed_boss_1, h.downed_boss_2, h.downed_boss_3, h.hard_mode, h.downed_clown, false, h.downed_plant_boss), flag_byte(h.downed_mech_boss_1, h.downed_mech_boss_2, h.downed_mech_boss_3, h.downed_mech_boss_any, h.cloud_bg_active == 1, h.has_crimson, false, false), flag_byte(false, h.fast_forward_time_to_dawn, false, h.downed_slime_king, h.downed_queen_bee, h.downed_fishron, h.downed_martians, h.downed_ancient_cultist), flag_byte(h.downed_moonlord, h.downed_halloween_king, h.downed_halloween_tree, h.downed_christmas_ice_queen, h.downed_christmas_santank, h.downed_christmas_tree, h.downed_golem_boss, false), flag_byte(h.downed_pirates, h.downed_frost, h.downed_goblins, h.temp_sandstorm_happening, false, h.downed_dd2_invasion_t1, h.downed_dd2_invasion_t2, h.downed_dd2_invasion_t3), flag_byte(h.combat_book_was_used, h.temp_lantern_night_manual, h.downed_tower_solar, h.downed_tower_vortex, h.downed_tower_nebula, h.downed_tower_stardust, h.force_halloween_for_today, h.force_xmas_for_today), flag_byte(h.bought_cat, h.bought_dog, h.bought_bunny, false, h.world_drunk, h.downed_empress_of_light, h.downed_queen_slime, false), flag_byte(h.world_anniversary, h.world_dont_starve, h.downed_deerclops, h.world_not_the_bees, h.world_remix, h.unlocked_slime_blue_spawn, h.combat_book_volume_two_was_used, h.peddlers_satchel_was_used), flag_byte(h.unlocked_slime_green_spawn, h.unlocked_slime_old_spawn, h.unlocked_slime_purple_spawn, h.unlocked_slime_rainbow_spawn, h.unlocked_slime_red_spawn, h.unlocked_slime_yellow_spawn, h.unlocked_slime_copper_spawn, h.fast_forward_time_to_dusk), flag_byte(h.world_no_traps, h.world_zenith, h.unlocked_truffle_spawn, false, false, false, false, false)],
{
    let r: [u8; 10] = [
        flags(h.smashed_shadow_orb, h.downed_boss_1, h.downed_boss_2, h.downed_boss_3, h.hard_mode, h.downed_clown, false, h.downed_plant_boss),
        flags(h.downed_mech_boss_1, h.downed_mech_boss_2, h.downed_mech_boss_3, h.downed_mech_boss_any, h.cloud_bg_active == 1, h.has_crimson, false, false),
        flags(false, h.fast_forward_time_to_dawn, false, h.downed_slime_king, h.downed_queen_bee, h.downed_fishron, h.downed_martians, h.downed_ancient_cultist),
        flags(h.downed_moonlord, h.downed_halloween_king, h.downed_halloween_tree, h.downed_christmas_ice_queen, h.downed_christmas_santank, h.downed_christmas_tree, h.downed_golem_boss, false),
        flags(h.downed_pirates, h.downed_frost, h.downed_goblins, h.temp_sandstorm_happening, false, h.downed_dd2_invasion_t1, h.downed_dd2_invasion_t2, h.downed_dd2_invasion_t3),
        flags(h.combat_book_was_used, h.temp_lantern_night_manual, h.downed_tower_solar, h.downed_tower_vortex, h.downed_tower_nebula, h.downed_tower_stardust, h.force_halloween_for_today, h.force_xmas_for_today),
        flags(h.bought_cat, h.bought_dog, h.bought_bunny, false, h.world_drunk, h.downed_empress_of_light, h.downed_queen_slime, false),
        flags(h.world_anniversary, h.world_dont_starve, h.downed_deerclops, h.world_not_the_bees, h.world_remix, h.unlocked_slime_blue_spawn, h.combat_book_volume_two_was_used, h.peddlers_satchel_was_used),
        flags(h.unlocked_slime_green_spawn, h.unlocked_slime_old_spawn, h.unlocked_slime_purple_spawn, h.unlocked_slime_rainbow_spawn, h.unlocked_slime_red_spawn, h.unlocked_slime_yellow_spawn, h.unlocked_slime_copper_spawn, h.fast_forward_time_to_dusk),
        flags(h.world_no_traps, h.world_zenith, h.unlocked_truffle_spawn, false, false, false, false, false),
    ];
    assert(r@ =~= seq![flag_byte(h.smashed_shadow_orb, h.downed_boss_1, h.downed_boss_2, h.downed_boss_3, h.hard_mode, h.downed_clown, false, h.downed_plant_boss), flag_byte(h.downed_mech_boss_1, h.downed_mech_boss_2, h.downed_mech_boss_3, h.downed_mech_boss_any, h.cloud_bg_active == 1, h.has_crimson, false, false), flag_byte(false, h.fast_forward_time_to_dawn, false, h.downed_slime_king, h.downed_queen_bee, h.downed_fishron, h.downed_martians, h.downed_ancient_cultist), flag_byte(h.downed_moonlord, h.downed_halloween_king, h.downed_halloween_tree, h.downed_christmas_ice_queen, h.downed_christmas_santank, h.downed_christmas_tree, h.downed_golem_boss, false), flag_byte(h.downed_pirates, h.downed_frost, h.downed_goblins, h.temp_sandstorm_happening, false, h.downed_dd2_invasion_t1, h.downed_dd2_invasion_t2, h.downed_dd2_invasion_t3), flag_byte(h.combat_book_was_used, h.temp_lantern_night_manual, h.downed_tower_solar, h.downed_tower_vortex, h.downed_tower_nebula, h.downed_tower_stardust, h.force_halloween_for_today, h.force_xmas_for_today), flag_byte(h.bought_cat, h.bought_dog, h.bought_bunny, false, h.world_drunk, h.downed_empress_of_light, h.downed_queen_slime, false), flag_byte(h.world_anniversary, h.world_dont_starve, h.downed_deerclops, h.world_not_the_bees, h.world_remix, h.unlocked_slime_blue_spawn, h.combat_book_volume_two_was_used, h.peddlers_satchel_was_used), flag_byte(h.unlocked_slime_green_spawn, h.unlocked_slime_old_spawn, h.unlocked_slime_purple_spawn, h.unlocked_slime_rainbow_spawn, h.unlocked_slime_red_spawn, h.unlocked_slime_yellow_spawn, h.unlocked_slime_copper_spawn, h.fast_forward_time_to_dusk), flag_byte(h.world_no_traps, h.world_zenith, h.unlocked_truffle_spawn, false, false, false, false, false)]);
    r
}

/// Builds the world header message of a world's header; the world's surface and rock
/// layer rows, which the header holds as `f64`s, come converted to `i16`. The header must
/// hold the world's unique id.
#[verifier::rlimit(40)]
pub fn encode_world_header(h: &Header, world_surface: i16, rock_layer: i16) -> (m: Message)
    requires
        h.uuid is Some,
    ensures
        m matches Message::WorldHeader(w) && world_header_from(w, *h, world_surface, rock_layer),
{
    let uuid = match h.uuid {
        Some(u) => u,
        None => [0u8; 16],
    };
    let (tree_style, cave_back_style, tree_top_variations) = narrow_styles(h);
    let flags_bytes = progress_flags(h);
    let w = WorldHeader {
        time: 0i32,
        time_flags: flags(h.temp_day_time, h.temp_blood_moon, h.temp_eclipse, false, false, false, false, false),
        moon_phase: h.temp_moon_phase as u8,
        width: h.width as i16,
        height: h.height as i16,
        spawn_x: h.spawn_tile_x as i16,
        spawn_y: h.spawn_tile_y as i16,
        world_surface: world_surface,
        rock_layer: rock_layer,
        id: h.id,
        game_mode: h.game_mode.as_u8(),
        worldgen_version: h.worldgen_version,
        moon_type: h.moon_type as u8,
        bg_0: h.bg[0],
        bg_10: h.bg[10],
        bg_11: h.bg[11],
        bg_12: h.bg[12],
        bg_1: h.bg[1],
        bg_2: h.bg[2],
        bg_3: h.bg[3],
        bg_4: h.bg[4],
        bg_5: h.bg[5],
        bg_6: h.bg[6],
        bg_7: h.bg[7],
        bg_8: h.bg[8],
        bg_9: h.bg[9],
        ice_back_style: h.ice_back_style as u8,
        jungle_back_style: h.jungle_back_style as u8,
        hell_back_style: h.hell_back_style as u8,
        wind_speed_target: h.wind_speed_target,
        num_clouds: h.num_clouds as u8,
        max_raining: h.temp_max_rain,
        sundial_cooldown: h.sundial_cooldown as u8,
        moondial_cooldown: h.moondial_cooldown,
        ore_tier_copper: h.ore_tier_copper as i16,
        ore_tier_iron: h.ore_tier_iron as i16,
        ore_tier_silver: h.ore_tier_silver as i16,
        ore_tier_gold: h.ore_tier_gold as i16,
        ore_tier_cobalt: h.ore_tier_cobalt as i16,
        ore_tier_mythril: h.ore_tier_mythril as i16,
        ore_tier_adamantite: h.ore_tier_adamantite as i16,
        invasion_type: h.invasion_type as i8,
        lobby_id: 0u64,
        sandstorm_intended_severity: h.temp_sandstorm_intended_severity,
        name: h.name.clone(),
        uuid,
        tree_x: h.tree_x,
        tree_style,
        cave_back_x: h.cave_back_x,
        cave_back_style,
        tree_top_variations,
        flags: flags_bytes,
    };
    Message::WorldHeader(w)
}

// ---------------------------------------------------------------------------------
// Tile sections

/// The position of the `k`-th tile of section (`sec_x`, `sec_y`), counting along each
/// row of the section, row after row.
pub open spec fn section_pos(sec_x: usize, sec_y: usize, k: int) -> (usize, usize) {
    (
        (sec_x * SECTION_WIDTH + k % (SECTION_WIDTH as int)) as usize,
        (sec_y * SECTION_HEIGHT + k / (SECTION_WIDTH as int)) as usize,
    )
}

/// The number of tiles in a section.
pub open spec fn section_size() -> int {
    (SECTION_WIDTH * SECTION_HEIGHT) as int
}

/// The tiles of a section, along each row, row after row.
pub open spec fn section_tiles(world: World, sec_x: usize, sec_y: usize) -> Seq<Tile> {
    Seq::new(
        section_size() as nat,
        |k: int| world.tiles@[section_pos(sec_x, sec_y, k).0 as int]@[section_pos(sec_x, sec_y, k).1 as int],
    )
}

/// A tile joins the run of the tile before it when the two are equal, unless it is a
/// logic sensor (423) or a food platter (520), which are never run together.
pub open spec fn joins(prev: Tile, t: Tile) -> bool {
    t == prev && t.id != 423 && t.id != 520
}

/// The `k`-th tile starts a run.
pub open spec fn starts_run(s: Seq<Tile>, k: int) -> bool {
    k == 0 || !joins(s[k - 1], s[k])
}

/// The runs of a sequence of tiles, in order: each the tile and how many copies of it
/// follow it.
pub open spec fn runs(s: Seq<Tile>) -> Seq<(Tile, nat)>
    decreases s.len(),
{
    if s.len() == 0 {
        Seq::empty()
    } else {
        let r = runs(s.drop_last());
        if !starts_run(s, s.len() - 1) {
            r.update(r.len() - 1, (r.last().0, r.last().1 + 1))
        } else {
            r.push((s.last(), 0))
        }
    }
}

/// Runs written one after the other, each as its tile with its repeat count.
pub open spec fn runs_enc(r: Seq<(Tile, nat)>, frame_important: Seq<bool>) -> Seq<u8>
    decreases r.len(),
{
    if r.len() == 0 {
        Seq::empty()
    } else {
        runs_enc(r.drop_last(), frame_important) + tile_enc(r.last().0, r.last().1 as usize, frame_important)
    }
}

proof fn lemma_runs_last(s: Seq<Tile>)
    requires
        s.len() > 0,
    ensures
        runs(s).len() > 0,
        runs(s).last().0 == s.last(),
    decreases s.len(),
{
    if s.len() > 1 {
        lemma_runs_last(s.drop_last());
    }
}

/// The tiles that runs stand for: each run's tile, once and then as many times again
/// as its count says.
pub open spec fn expand(r: Seq<(Tile, nat)>) -> Seq<Tile>
    decreases r.len(),
{
    if r.len() == 0 {
        Seq::empty()
    } else {
        expand(r.drop_last()) + Seq::new(r.last().1 + 1, |i: int| r.last().0)
    }
}

/// Run-length compression loses nothing: the runs of a sequence of tiles stand for
/// exactly that sequence.
pub proof fn lemma_runs_expand(s: Seq<Tile>)
    ensures
        expand(runs(s)) == s,
    decreases s.len(),
{
    if s.len() > 0 {
        let p = s.drop_last();
        lemma_runs_expand(p);
        let r = runs(p);
        if !starts_run(s, s.len() - 1) {
            lemma_runs_last(p);
            let (t0, k) = r.last();
            let r2 = r.update(r.len() - 1, (t0, k + 1));
            assert(r2.drop_last() =~= r.drop_last());
            assert(expand(r) == expand(r.drop_last()) + Seq::new(k + 1, |i: int| t0));
            assert(Seq::new(k + 2, |i: int| t0) =~= Seq::new(k + 1, |i: int| t0).push(t0));
            assert(s =~= p.push(s.last()));
        } else {
            let r2 = r.push((s.last(), 0));
            assert(r2.drop_last() =~= r);
            assert(Seq::new(1, |i: int| s.last()) =~= seq![s.last()]);
            assert(s =~= p + seq![s.last()]);
        }
    }
}

/// What a tile of a section is, for the lists that follow the tiles.
#[derive(Debug, Clone, Copy, PartialEq, Eq, Structural)]
pub enum Furniture {
    /// The top left tile of a chest or dresser.
    Chest,
    /// The top left tile of a sign, tombstone, announcement box or tattered sign.
    Sign,
    /// The anchor tile of a tile entity: target dummy, item frame, display doll, food
    /// platter, weapon rack, hat rack or pylon.
    Entity,
    /// Any other tile.
    Plain,
}

/// What the tile is, by its type and frame.
pub open spec fn furniture_of(t: Tile) -> Furniture {
    let (id, fx, fy) = (t.id, t.frame_x as int, t.frame_y as int);
    if ((id == 21 || id == 467) && fx % 36 == 0 && fy % 36 == 0) || (id == 88 && fx % 54 == 0 && fy % 36
        == 0) {
        Furniture::Chest
    } else if (id == 55 || id == 85 || id == 425 || id == 573) && fx % 36 == 0 && fy % 36 == 0 {
        Furniture::Sign
    } else if ((id == 378 || id == 395 || id == 470) && fx % 36 == 0 && fy == 0) || (id == 520 && fx % 18
        == 0 && fy == 0) || ((id == 471 || id == 475) && fx % 54 == 0 && fy == 0) || (id == 597 && fx % 54
        == 0 && fy % 72 == 0) {
        Furniture::Entity
    } else {
        Furniture::Plain
    }
}

fn furniture(t: &Tile) -> (f: Furniture)
    ensures
        f == furniture_of(*t),
{
    let id = t.id;
    let fx = t.frame_x as i32;
    let fy = t.frame_y as i32;
    if ((id == 21 || id == 467) && fx % 36 == 0 && fy % 36 == 0) || (id == 88 && fx % 54 == 0 && fy % 36 == 0) {
        Furniture::Chest
    } else if (id == 55 || id == 85 || id == 425 || id == 573) && fx % 36 == 0 && fy % 36 == 0 {
        Furniture::Sign
    } else if ((id == 378 || id == 395 || id == 470) && fx % 36 == 0 && fy == 0) || (id == 520 && fx % 18 == 0
        && fy == 0) || ((id == 471 || id == 475) && fx % 54 == 0 && fy == 0) || (id == 597 && fx % 54 == 0 && fy
        % 72 == 0) {
        Furniture::Entity
    } else {
        Furniture::Plain
    }
}

/// The section lies inside the world's columns of tiles.
pub open spec fn section_in_world(world: World, sec_x: usize, sec_y: usize) -> bool {
    &&& (sec_x + 1) * SECTION_WIDTH <= world.tiles@.len()
    &&& forall|x: int|
        sec_x * SECTION_WIDTH <= x < (sec_x + 1) * SECTION_WIDTH ==> (sec_y + 1) * SECTION_HEIGHT
            <= #[trigger] world.tiles@[x]@.len()
}

/// A tile can be written and looked up in the importance table: an active tile has a
/// type, a type is in the table, and a slope leaves room for the byte it is written as.
pub open spec fn tile_writable(t: Tile, frame_important: Seq<bool>) -> bool {
    &&& t.active ==> 0 <= t.id
    &&& 0 <= t.id ==> t.id < frame_important.len()
    &&& !t.half_brick && t.slope > 0 ==> t.slope < 255
}

/// The `k`-th tile starts a run and is furniture of the kind `f` of a frame-important
/// type: the lists after the tiles name it.
pub open spec fn marked(s: Seq<Tile>, frame_important: Seq<bool>, k: int, f: Furniture) -> bool {
    &&& starts_run(s, k)
    &&& 0 <= s[k].id < frame_important.len()
    &&& frame_important[s[k].id as int]
    &&& furniture_of(s[k]) == f
}

/// The places among the first `n` tiles that are marked as furniture of the kind `f`,
/// in order.
pub open spec fn spots(s: Seq<Tile>, frame_important: Seq<bool>, n: int, f: Furniture) -> Seq<usize>
    decreases n,
{
    if n <= 0 {
        Seq::empty()
    } else {
        let r = spots(s, frame_important, n - 1, f);
        if marked(s, frame_important, n - 1, f) {
            r.push((n - 1) as usize)
        } else {
            r
        }
    }
}

/// A tile among the first `n` that is marked as furniture of the kind `f` is listed
/// among the places of that kind.
proof fn lemma_marked_listed(s: Seq<Tile>, fi: Seq<bool>, n: int, k: int, f: Furniture)
    requires
        0 <= k < n,
        marked(s, fi, k, f),
    ensures
        spots(s, fi, n, f).contains(k as usize),
    decreases n,
{
    if k == n - 1 {
        assert(spots(s, fi, n, f).last() == k as usize);
    } else {
        lemma_marked_listed(s, fi, n - 1, k, f);
        let r = spots(s, fi, n - 1, f);
        let j = choose|j: int| 0 <= j < r.len() && r[j] == k as usize;
        if marked(s, fi, n - 1, f) {
            assert(r.push((n - 1) as usize)[j] == k as usize);
        }
    }
}

/// Every sign of a section goes into its sign list: a tile that starts a run, whose
/// type is frame-important and is a sign (55), tombstone (85), announcement box (425)
/// or tattered wood sign (573), with both frames multiples of 36, is listed.
pub proof fn lemma_signs_listed(s: Seq<Tile>, fi: Seq<bool>, n: int, k: int)
    requires
        0 <= k < n,
        starts_run(s, k),
        0 <= s[k].id < fi.len(),
        fi[s[k].id as int],
        s[k].id == 55 || s[k].id == 85 || s[k].id == 425 || s[k].id == 573,
        s[k].frame_x % 36 == 0,
        s[k].frame_y % 36 == 0,
    ensures
        spots(s, fi, n, Furniture::Sign).contains(k as usize),
{
    lemma_marked_listed(s, fi, n, k, Furniture::Sign);
}

/// Every chest of a section goes into its chest list: a tile that starts a run, whose
/// type is frame-important and is a chest (21) or second chest (467) with both frames
/// multiples of 36, or a dresser (88) with frame x a multiple of 54 and frame y of 36,
/// is listed.
pub proof fn lemma_chests_listed(s: Seq<Tile>, fi: Seq<bool>, n: int, k: int)
    requires
        0 <= k < n,
        starts_run(s, k),
        0 <= s[k].id < fi.len(),
        fi[s[k].id as int],
        ((s[k].id == 21 || s[k].id == 467) && s[k].frame_x % 36 == 0 && s[k].frame_y % 36 == 0) || (s[k].id == 88
            && s[k].frame_x % 54 == 0 && s[k].frame_y % 36 == 0),
    ensures
        spots(s, fi, n, Furniture::Chest).contains(k as usize),
{
    lemma_marked_listed(s, fi, n, k, Furniture::Chest);
}

/// Every tile entity of a section goes into its entity list: a tile that starts a run,
/// whose type is frame-important, and that is the top left of a target dummy (378),
/// item frame (395) or display doll (470) (frame x a multiple of 36, frame y 0), of a
/// food platter (520) (frame x a multiple of 18, frame y 0), of a weapons rack (471) or
/// hat rack (475) (frame x a multiple of 54, frame y 0), or of a pylon (597) (frame x a
/// multiple of 54, frame y of 72), is listed.
pub proof fn lemma_entities_listed(s: Seq<Tile>, fi: Seq<bool>, n: int, k: int)
    requires
        0 <= k < n,
        starts_run(s, k),
        0 <= s[k].id < fi.len(),
        fi[s[k].id as int],
        ((s[k].id == 378 || s[k].id == 395 || s[k].id == 470) && s[k].frame_x % 36 == 0 && s[k].frame_y == 0)
            || (s[k].id == 520 && s[k].frame_x % 18 == 0 && s[k].frame_y == 0) || ((s[k].id == 471 || s[k].id
            == 475) && s[k].frame_x % 54 == 0 && s[k].frame_y == 0) || (s[k].id == 597 && s[k].frame_x % 54 == 0
            && s[k].frame_y % 72 == 0),
    ensures
        spots(s, fi, n, Furniture::Entity).contains(k as usize),
{
    lemma_marked_listed(s, fi, n, k, Furniture::Entity);
}

/// Writes the runs of a section's tiles, and lists the places of the chests, signs
/// and tile entities among them.
fn write_runs(world: &World, sec_x: usize, sec_y: usize, w: &mut Writer) -> (r: (Vec<usize>, Vec<usize>, Vec<usize>))
    requires
        section_in_world(*world, sec_x, sec_y),
        forall|k: int|
            0 <= k < section_size() ==> tile_writable(
                #[trigger] section_tiles(*world, sec_x, sec_y)[k],
                world.format.importance@,
            ),
    ensures
        final(w).dst@ == old(w).dst@ + runs_enc(
            runs(section_tiles(*world, sec_x, sec_y)),
            world.format.importance@,
        ),
        r.0@ == spots(section_tiles(*world, sec_x, sec_y), world.format.importance@, section_size(), Furniture::Chest),
        r.1@ == spots(section_tiles(*world, sec_x, sec_y), world.format.importance@, section_size(), Furniture::Sign),
        r.2@ == spots(section_tiles(*world, sec_x, sec_y), world.format.importance@, section_size(), Furniture::Entity),
{
    let ghost s = section_tiles(*world, sec_x, sec_y);
    let ghost fi = world.format.importance@;
    let ghost start = w.dst@;
    let ncols = world.tiles.len();
    let xs = sec_x * SECTION_WIDTH;
    assert(sec_y * SECTION_HEIGHT + SECTION_HEIGHT <= world.tiles@[xs as int]@.len());
    let nrows = world.tiles[xs].len();
    let ys = sec_y * SECTION_HEIGHT;
    let fi_exec = world.format.importance.as_slice();
    let mut chests: Vec<usize> = Vec::new();
    let mut signs: Vec<usize> = Vec::new();
    let mut entities: Vec<usize> = Vec::new();
    assert(s[0] == world.tiles@[xs as int]@[ys as int]);
    let mut last: Tile = world.tiles[xs][ys];
    let mut repeat: usize = 0;
    assert(tile_writable(s[0], fi));
    if last.id >= 0 && fi_exec[last.id as usize] {
        match furniture(&last) {
            Furniture::Chest => chests.push(0),
            Furniture::Sign => signs.push(0),
            Furniture::Entity => entities.push(0),
            Furniture::Plain => {},
        }
    }
    proof {
        assert(s.take(1).drop_last() =~= Seq::<Tile>::empty());
        assert(runs(Seq::<Tile>::empty()) =~= Seq::<(Tile, nat)>::empty());
        assert(starts_run(s.take(1), 0));
        assert(runs(s.take(1)) =~= seq![(s[0], 0nat)]);
        reveal_with_fuel(spots, 2);
    }
    let mut k: usize = 1;
    while k < SECTION_WIDTH * SECTION_HEIGHT
        invariant
            1 <= k <= section_size(),
            s == section_tiles(*world, sec_x, sec_y),
            fi == world.format.importance@,
            fi_exec@ == fi,
            xs == sec_x * SECTION_WIDTH,
            ys == sec_y * SECTION_HEIGHT,
            xs + SECTION_WIDTH <= usize::MAX,
            ys + SECTION_HEIGHT <= usize::MAX,
            section_in_world(*world, sec_x, sec_y),
            forall|j: int| 0 <= j < section_size() ==> tile_writable(#[trigger] s[j], fi),
            last == s[k - 1],
            repeat < k,
            runs(s.take(k as int)).len() > 0,
            runs(s.take(k as int)).last() == (last, repeat as nat),
            w.dst@ == start + runs_enc(runs(s.take(k as int)).drop_last(), fi),
            chests@ == spots(s, fi, k as int, Furniture::Chest),
            signs@ == spots(s, fi, k as int, Furniture::Sign),
            entities@ == spots(s, fi, k as int, Furniture::Entity),
        decreases SECTION_WIDTH * SECTION_HEIGHT - k,
    {
        let x = xs + k % SECTION_WIDTH;
        let y = ys + k / SECTION_WIDTH;
        assert(s[k as int] == world.tiles@[x as int]@[y as int]);
        let t = world.tiles[x][y];
        let ghost r = runs(s.take(k as int));
        let ghost s2 = s.take(k + 1);
        assert(s2.drop_last() =~= s.take(k as int));
        assert(s2[k - 1] == s[k - 1] && s2[k as int] == s[k as int]);
        assert(tile_writable(t, fi));
        if t == last && t.id != 423 && t.id != 520 {
            repeat = repeat + 1;
            assert(r.update(r.len() - 1, (r.last().0, r.last().1 + 1)).drop_last() =~= r.drop_last());
        } else {
            last.encode(w, repeat, fi_exec);
            last = t;
            repeat = 0;
            assert(r.push((t, 0nat)).drop_last() =~= r);
            if t.id >= 0 && fi_exec[t.id as usize] {
                match furniture(&t) {
                    Furniture::Chest => chests.push(k),
                    Furniture::Sign => signs.push(k),
                    Furniture::Entity => entities.push(k),
                    Furniture::Plain => {},
                }
            }
        }
        k = k + 1;
    }
    proof {
        assert(s.take(section_size()) =~= s);
    }
    last.encode(w, repeat, fi_exec);
    (chests, signs, entities)
}

/// The chest stands at (`x`, `y`).
pub open spec fn chest_at(c: Chest, x: usize, y: usize) -> bool {
    c.x as usize == x && c.y as usize == y
}

/// Some chest stands at (`x`, `y`).
pub open spec fn has_chest(cs: Seq<Chest>, x: usize, y: usize) -> bool {
    exists|i: int| 0 <= i < cs.len() && chest_at(#[trigger] cs[i], x, y)
}

/// The `i`-th chest is the first that stands at (`x`, `y`).
pub open spec fn is_first_chest(cs: Seq<Chest>, i: int, x: usize, y: usize) -> bool {
    &&& 0 <= i < cs.len()
    &&& chest_at(cs[i], x, y)
    &&& forall|j: int| 0 <= j < i ==> !chest_at(#[trigger] cs[j], x, y)
}

/// The index of the first chest that stands at (`x`, `y`).
pub open spec fn first_chest(cs: Seq<Chest>, x: usize, y: usize) -> int {
    choose|i: int| is_first_chest(cs, i, x, y)
}

/// The entry of the chest at (`x`, `y`): its index, its position and its name.
pub open spec fn chest_entry(cs: Seq<Chest>, x: usize, y: usize) -> Seq<u8> {
    let i = first_chest(cs, x, y);
    le16(i as i16 as u16) + le16(x as i16 as u16) + le16(y as i16 as u16) + string_enc(cs[i].name@)
}

/// The entries of the chests at the given places of a section.
pub open spec fn chest_entries(cs: Seq<Chest>, sec_x: usize, sec_y: usize, ks: Seq<usize>) -> Seq<u8>
    decreases ks.len(),
{
    if ks.len() == 0 {
        Seq::empty()
    } else {
        let p = section_pos(sec_x, sec_y, ks.last() as int);
        chest_entries(cs, sec_x, sec_y, ks.drop_last()) + chest_entry(cs, p.0, p.1)
    }
}

fn find_chest(cs: &Vec<Chest>, x: usize, y: usize) -> (i: usize)
    requires
        has_chest(cs@, x, y),
    ensures
        i == first_chest(cs@, x, y),
        is_first_chest(cs@, i as int, x, y),
{
    let mut i: usize = 0;
    while i < cs.len()
        invariant
            i <= cs@.len(),
            has_chest(cs@, x, y),
            forall|j: int| 0 <= j < i ==> !chest_at(#[trigger] cs@[j], x, y),
        decreases cs.len() - i,
    {
        if cs[i].x as usize == x && cs[i].y as usize == y {
            assert(is_first_chest(cs@, i as int, x, y));
            assert forall|j: int| #[trigger] is_first_chest(cs@, j, x, y) implies j == i by {
                if j < i {
                    assert(!chest_at(cs@[j], x, y));
                } else if j > i {
                    assert(!chest_at(cs@[i as int], x, y));
                }
            }
            return i;
        }
        i = i + 1;
    }
    assert(false);
    0
}

fn write_chests(cs: &Vec<Chest>, sec_x: usize, sec_y: usize, ks: &Vec<usize>, w: &mut Writer)
    requires
        (sec_x + 1) * SECTION_WIDTH <= usize::MAX,
        (sec_y + 1) * SECTION_HEIGHT <= usize::MAX,
        forall|i: int| 0 <= i < ks@.len() ==> ks@[i] < section_size(),
        forall|i: int|
            0 <= i < ks@.len() ==> has_chest(
                cs@,
                section_pos(sec_x, sec_y, #[trigger] ks@[i] as int).0,
                section_pos(sec_x, sec_y, ks@[i] as int).1,
            ),
    ensures
        final(w).dst@ == old(w).dst@ + le16(ks@.len() as i16 as u16) + chest_entries(cs@, sec_x, sec_y, ks@),
{
    w.write_i16(ks.len() as i16);
    let ghost start = w.dst@;
    let mut n: usize = 0;
    while n < ks.len()
        invariant
            n <= ks@.len(),
            (sec_x + 1) * SECTION_WIDTH <= usize::MAX,
            (sec_y + 1) * SECTION_HEIGHT <= usize::MAX,
            forall|i: int| 0 <= i < ks@.len() ==> ks@[i] < section_size(),
            forall|i: int|
                0 <= i < ks@.len() ==> has_chest(
                    cs@,
                    section_pos(sec_x, sec_y, #[trigger] ks@[i] as int).0,
                    section_pos(sec_x, sec_y, ks@[i] as int).1,
                ),
            w.dst@ == start + chest_entries(cs@, sec_x, sec_y, ks@.take(n as int)),
        decreases ks.len() - n,
    {
        let k = ks[n];
        let x = sec_x * SECTION_WIDTH + k % SECTION_WIDTH;
        let y = sec_y * SECTION_HEIGHT + k / SECTION_WIDTH;
        let i = find_chest(cs, x, y);
        w.write_i16(i as i16);
        w.write_i16(x as i16);
        w.write_i16(y as i16);
        w.write_string(cs[i].name.as_str());
        proof {
            assert(ks@.take(n + 1).drop_last() =~= ks@.take(n as int));
        }
        n = n + 1;
    }
    proof {
        assert(ks@.take(ks@.len() as int) =~= ks@);
    }
}

/// The sign stands at (`x`, `y`).
pub open spec fn sign_at(c: Sign, x: usize, y: usize) -> bool {
    c.x as usize == x && c.y as usize == y
}

/// Some sign stands at (`x`, `y`).
pub open spec fn has_sign(cs: Seq<Sign>, x: usize, y: usize) -> bool {
    exists|i: int| 0 <= i < cs.len() && sign_at(#[trigger] cs[i], x, y)
}

/// The `i`-th sign is the first that stands at (`x`, `y`).
pub open spec fn is_first_sign(cs: Seq<Sign>, i: int, x: usize, y: usize) -> bool {
    &&& 0 <= i < cs.len()
    &&& sign_at(cs[i], x, y)
    &&& forall|j: int| 0 <= j < i ==> !sign_at(#[trigger] cs[j], x, y)
}

/// The index of the first sign that stands at (`x`, `y`).
pub open spec fn first_sign(cs: Seq<Sign>, x: usize, y: usize) -> int {
    choose|i: int| is_first_sign(cs, i, x, y)
}

/// The entry of the sign at (`x`, `y`): its index, its position and its text.
pub open spec fn sign_entry(cs: Seq<Sign>, x: usize, y: usize) -> Seq<u8> {
    let i = first_sign(cs, x, y);
    le16(i as i16 as u16) + le16(x as i16 as u16) + le16(y as i16 as u16) + string_enc(cs[i].text@)
}

/// A chest's entry in a section is its index among the world's chests, its x and its
/// y, each as a little-endian 16-bit number, then its name.
pub proof fn lemma_chest_entry_fields(cs: Seq<Chest>, x: usize, y: usize)
    requires
        has_chest(cs, x, y),
        chest_entry(cs, x, y).len() <= usize::MAX,
    ensures
        ({
            let e = chest_entry(cs, x, y);
            let i = first_chest(cs, x, y);
            &&& is_first_chest(cs, i, x, y)
            &&& read_i16(Cursor::at(e, 0)).1 == i as i16
            &&& read_i16(Cursor::at(e, 2)).1 == x as i16
            &&& read_i16(Cursor::at(e, 4)).1 == y as i16
            &&& e.subrange(6, e.len() as int) == string_enc(cs[i].name@)
        }),
{
    let i = first_chest(cs, x, y);
    let e = chest_entry(cs, x, y);
    assert(is_first_chest(cs, i, x, y)) by {
        let j = choose|j: int| 0 <= j < cs.len() && chest_at(cs[j], x, y);
        lemma_first_chest_exists(cs, j, x, y);
    }
    lemma_entry_head(e, i as i16 as u16, x as i16 as u16, y as i16 as u16, string_enc(cs[i].name@));
    crate::binary::roundtrip::lemma_cast16(i as i16);
    crate::binary::roundtrip::lemma_cast16(x as i16);
    crate::binary::roundtrip::lemma_cast16(y as i16);
}

/// A sign's entry in a section is its index among the world's signs, its x and its y,
/// each as a little-endian 16-bit number, then its text.
pub proof fn lemma_sign_entry_fields(cs: Seq<Sign>, x: usize, y: usize)
    requires
        has_sign(cs, x, y),
        sign_entry(cs, x, y).len() <= usize::MAX,
    ensures
        ({
            let e = sign_entry(cs, x, y);
            let i = first_sign(cs, x, y);
            &&& is_first_sign(cs, i, x, y)
            &&& read_i16(Cursor::at(e, 0)).1 == i as i16
            &&& read_i16(Cursor::at(e, 2)).1 == x as i16
            &&& read_i16(Cursor::at(e, 4)).1 == y as i16
            &&& e.subrange(6, e.len() as int) == string_enc(cs[i].text@)
        }),
{
    let i = first_sign(cs, x, y);
    let e = sign_entry(cs, x, y);
    assert(is_first_sign(cs, i, x, y)) by {
        let j = choose|j: int| 0 <= j < cs.len() && sign_at(cs[j], x, y);
        lemma_first_sign_exists(cs, j, x, y);
    }
    lemma_entry_head(e, i as i16 as u16, x as i16 as u16, y as i16 as u16, string_enc(cs[i].text@));
    crate::binary::roundtrip::lemma_cast16(i as i16);
    crate::binary::roundtrip::lemma_cast16(x as i16);
    crate::binary::roundtrip::lemma_cast16(y as i16);
}

/// Bytes made of three 16-bit numbers and a tail read back as those numbers.
proof fn lemma_entry_head(e: Seq<u8>, a: u16, b: u16, c: u16, tail: Seq<u8>)
    requires
        e == le16(a) + le16(b) + le16(c) + tail,
        e.len() <= usize::MAX,
    ensures
        read_i16(Cursor::at(e, 0)).1 == a as i16,
        read_i16(Cursor::at(e, 2)).1 == b as i16,
        read_i16(Cursor::at(e, 4)).1 == c as i16,
        e.subrange(6, e.len() as int) == tail,
{
    crate::binary::le::lemma_le16_roundtrip(a);
    crate::binary::le::lemma_le16_roundtrip(b);
    crate::binary::le::lemma_le16_roundtrip(c);
    assert(e.subrange(0, 2) =~= le16(a));
    assert(e.subrange(2, 4) =~= le16(b));
    assert(e.subrange(4, 6) =~= le16(c));
    assert(e.subrange(6, e.len() as int) =~= tail);
    crate::binary::roundtrip::lemma_u16_at(e, 0, a);
    crate::binary::roundtrip::lemma_u16_at(e, 2, b);
    crate::binary::roundtrip::lemma_u16_at(e, 4, c);
}

/// Where some chest stands at (`x`, `y`), a first one does.
proof fn lemma_first_chest_exists(cs: Seq<Chest>, j: int, x: usize, y: usize)
    requires
        0 <= j < cs.len(),
        chest_at(cs[j], x, y),
    ensures
        is_first_chest(cs, first_chest(cs, x, y), x, y),
    decreases j,
{
    if exists|k: int| 0 <= k < j && chest_at(#[trigger] cs[k], x, y) {
        let k = choose|k: int| 0 <= k < j && chest_at(#[trigger] cs[k], x, y);
        lemma_first_chest_exists(cs, k, x, y);
    } else {
        assert(is_first_chest(cs, j, x, y));
    }
}

/// Where some sign stands at (`x`, `y`), a first one does.
proof fn lemma_first_sign_exists(cs: Seq<Sign>, j: int, x: usize, y: usize)
    requires
        0 <= j < cs.len(),
        sign_at(cs[j], x, y),
    ensures
        is_first_sign(cs, first_sign(cs, x, y), x, y),
    decreases j,
{
    if exists|k: int| 0 <= k < j && sign_at(#[trigger] cs[k], x, y) {
        let k = choose|k: int| 0 <= k < j && sign_at(#[trigger] cs[k], x, y);
        lemma_first_sign_exists(cs, k, x, y);
    } else {
        assert(is_first_sign(cs, j, x, y));
    }
}

/// The entries of the signs at the given places of a section.
pub open spec fn sign_entries(cs: Seq<Sign>, sec_x: usize, sec_y: usize, ks: Seq<usize>) -> Seq<u8>
    decreases ks.len(),
{
    if ks.len() == 0 {
        Seq::empty()
    } else {
        let p = section_pos(sec_x, sec_y, ks.last() as int);
        sign_entries(cs, sec_x, sec_y, ks.drop_last()) + sign_entry(cs, p.0, p.1)
    }
}

fn find_sign(cs: &Vec<Sign>, x: usize, y: usize) -> (i: usize)
    requires
        has_sign(cs@, x, y),
    ensures
        i == first_sign(cs@, x, y),
        is_first_sign(cs@, i as int, x, y),
{
    let mut i: usize = 0;
    while i < cs.len()
        invariant
            i <= cs@.len(),
            has_sign(cs@, x, y),
            forall|j: int| 0 <= j < i ==> !sign_at(#[trigger] cs@[j], x, y),
        decreases cs.len() - i,
    {
        if cs[i].x as usize == x && cs[i].y as usize == y {
            assert(is_first_sign(cs@, i as int, x, y));
            assert forall|j: int| #[trigger] is_first_sign(cs@, j, x, y) implies j == i by {
                if j < i {
                    assert(!sign_at(cs@[j], x, y));
                } else if j > i {
                    assert(!sign_at(cs@[i as int], x, y));
                }
            }
            return i;
        }
        i = i + 1;
    }
    assert(false);
    0
}

fn write_signs(cs: &Vec<Sign>, sec_x: usize, sec_y: usize, ks: &Vec<usize>, w: &mut Writer)
    requires
        (sec_x + 1) * SECTION_WIDTH <= usize::MAX,
        (sec_y + 1) * SECTION_HEIGHT <= usize::MAX,
        forall|i: int| 0 <= i < ks@.len() ==> ks@[i] < section_size(),
        forall|i: int|
            0 <= i < ks@.len() ==> has_sign(
                cs@,
                section_pos(sec_x, sec_y, #[trigger] ks@[i] as int).0,
                section_pos(sec_x, sec_y, ks@[i] as int).1,
            ),
    ensures
        final(w).dst@ == old(w).dst@ + le16(ks@.len() as i16 as u16) + sign_entries(cs@, sec_x, sec_y, ks@),
{
    w.write_i16(ks.len() as i16);
    let ghost start = w.dst@;
    let mut n: usize = 0;
    while n < ks.len()
        invariant
            n <= ks@.len(),
            (sec_x + 1) * SECTION_WIDTH <= usize::MAX,
            (sec_y + 1) * SECTION_HEIGHT <= usize::MAX,
            forall|i: int| 0 <= i < ks@.len() ==> ks@[i] < section_size(),
            forall|i: int|
                0 <= i < ks@.len() ==> has_sign(
                    cs@,
                    section_pos(sec_x, sec_y, #[trigger] ks@[i] as int).0,
                    section_pos(sec_x, sec_y, ks@[i] as int).1,
                ),
            w.dst@ == start + sign_entries(cs@, sec_x, sec_y, ks@.take(n as int)),
        decreases ks.len() - n,
    {
        let k = ks[n];
        let x = sec_x * SECTION_WIDTH + k % SECTION_WIDTH;
        let y = sec_y * SECTION_HEIGHT + k / SECTION_WIDTH;
        let i = find_sign(cs, x, y);
        w.write_i16(i as i16);
        w.write_i16(x as i16);
        w.write_i16(y as i16);
        w.write_string(cs[i].text.as_str());
        proof {
            assert(ks@.take(n + 1).drop_last() =~= ks@.take(n as int));
        }
        n = n + 1;
    }
    proof {
        assert(ks@.take(ks@.len() as int) =~= ks@);
    }
}

/// The tile entity stands at (`x`, `y`), its position taken as 16-bit numbers.
pub open spec fn entity_at(e: Entity, x: usize, y: usize) -> bool {
    e.x == x as i16 && e.y == y as i16
}

/// Some tile entity stands at (`x`, `y`).
pub open spec fn has_entity(es: Seq<Entity>, x: usize, y: usize) -> bool {
    exists|i: int| 0 <= i < es.len() && entity_at(#[trigger] es[i], x, y)
}

/// The `i`-th tile entity is the first that stands at (`x`, `y`).
pub open spec fn is_first_entity(es: Seq<Entity>, i: int, x: usize, y: usize) -> bool {
    &&& 0 <= i < es.len()
    &&& entity_at(es[i], x, y)
    &&& forall|j: int| 0 <= j < i ==> !entity_at(#[trigger] es[j], x, y)
}

/// The index of the first tile entity that stands at (`x`, `y`).
pub open spec fn first_entity(es: Seq<Entity>, x: usize, y: usize) -> int {
    choose|i: int| is_first_entity(es, i, x, y)
}

/// The tile entities at the given places of a section, each written whole.
pub open spec fn entity_entries(es: Seq<Entity>, sec_x: usize, sec_y: usize, ks: Seq<usize>) -> Seq<u8>
    decreases ks.len(),
{
    if ks.len() == 0 {
        Seq::empty()
    } else {
        let p = section_pos(sec_x, sec_y, ks.last() as int);
        let e = es[first_entity(es, p.0, p.1)];
        entity_entries(es, sec_x, sec_y, ks.drop_last()) + entity_enc(e.id, e.x, e.y, e.inner@)
    }
}

fn find_entity(es: &Vec<Entity>, x: usize, y: usize) -> (i: usize)
    requires
        has_entity(es@, x, y),
    ensures
        i == first_entity(es@, x, y),
        is_first_entity(es@, i as int, x, y),
{
    let mut i: usize = 0;
    while i < es.len()
        invariant
            i <= es@.len(),
            has_entity(es@, x, y),
            forall|j: int| 0 <= j < i ==> !entity_at(#[trigger] es@[j], x, y),
        decreases es.len() - i,
    {
        if es[i].x == x as i16 && es[i].y == y as i16 {
            assert(is_first_entity(es@, i as int, x, y));
            assert forall|j: int| #[trigger] is_first_entity(es@, j, x, y) implies j == i by {
                if j < i {
                    assert(!entity_at(es@[j], x, y));
                } else if j > i {
                    assert(!entity_at(es@[i as int], x, y));
                }
            }
            return i;
        }
        i = i + 1;
    }
    assert(false);
    0
}

fn write_entities(es: &Vec<Entity>, sec_x: usize, sec_y: usize, ks: &Vec<usize>, w: &mut Writer)
    requires
        (sec_x + 1) * SECTION_WIDTH <= usize::MAX,
        (sec_y + 1) * SECTION_HEIGHT <= usize::MAX,
        forall|i: int| 0 <= i < ks@.len() ==> ks@[i] < section_size(),
        forall|i: int|
            0 <= i < ks@.len() ==> has_entity(
                es@,
                section_pos(sec_x, sec_y, #[trigger] ks@[i] as int).0,
                section_pos(sec_x, sec_y, ks@[i] as int).1,
            ),
    ensures
        final(w).dst@ == old(w).dst@ + le16(ks@.len() as i16 as u16) + entity_entries(es@, sec_x, sec_y, ks@),
{
    w.write_i16(ks.len() as i16);
    let ghost start = w.dst@;
    let mut n: usize = 0;
    while n < ks.len()
        invariant
            n <= ks@.len(),
            (sec_x + 1) * SECTION_WIDTH <= usize::MAX,
            (sec_y + 1) * SECTION_HEIGHT <= usize::MAX,
            forall|i: int| 0 <= i < ks@.len() ==> ks@[i] < section_size(),
            forall|i: int|
                0 <= i < ks@.len() ==> has_entity(
                    es@,
                    section_pos(sec_x, sec_y, #[trigger] ks@[i] as int).0,
                    section_pos(sec_x, sec_y, ks@[i] as int).1,
                ),
            w.dst@ == start + entity_entries(es@, sec_x, sec_y, ks@.take(n as int)),
        decreases ks.len() - n,
    {
        let k = ks[n];
        let x = sec_x * SECTION_WIDTH + k % SECTION_WIDTH;
        let y = sec_y * SECTION_HEIGHT + k / SECTION_WIDTH;
        let i = find_entity(es, x, y);
        es[i].write(w);
        proof {
            assert(ks@.take(n + 1).drop_last() =~= ks@.take(n as int));
        }
        n = n + 1;
    }
    proof {
        assert(ks@.take(ks@.len() as int) =~= ks@);
    }
}

/// What a section message carries before compression: the section's first tile and
/// its size, its tiles as runs, then the chests, signs and tile entities whose tiles
/// start runs, each list with its length first.
pub open spec fn section_bytes(world: World, sec_x: usize, sec_y: usize) -> Seq<u8> {
    let s = section_tiles(world, sec_x, sec_y);
    let fi = world.format.importance@;
    le32((sec_x * SECTION_WIDTH) as i32 as u32) + le32((sec_y * SECTION_HEIGHT) as i32 as u32) + le16(
        SECTION_WIDTH as u16,
    ) + le16(SECTION_HEIGHT as u16) + runs_enc(runs(s), fi) + le16(
        spots(s, fi, section_size(), Furniture::Chest).len() as i16 as u16,
    ) + chest_entries(world.chests@, sec_x, sec_y, spots(s, fi, section_size(), Furniture::Chest))
        + le16(spots(s, fi, section_size(), Furniture::Sign).len() as i16 as u16) + sign_entries(
        world.signs@,
        sec_x,
        sec_y,
        spots(s, fi, section_size(), Furniture::Sign),
    ) + le16(spots(s, fi, section_size(), Furniture::Entity).len() as i16 as u16) + entity_entries(
        world.entities@,
        sec_x,
        sec_y,
        spots(s, fi, section_size(), Furniture::Entity),
    )
}

/// A section can be encoded: it lies in the world, its tiles can be written, and a
/// chest, sign or tile entity stands at each place that the lists name.
pub open spec fn section_encodable(world: World, sec_x: usize, sec_y: usize) -> bool {
    let s = section_tiles(world, sec_x, sec_y);
    let fi = world.format.importance@;
    &&& section_in_world(world, sec_x, sec_y)
    &&& forall|k: int| 0 <= k < section_size() ==> tile_writable(#[trigger] s[k], fi)
    &&& forall|k: int|
        0 <= k < section_size() && #[trigger] marked(s, fi, k, Furniture::Chest) ==> has_chest(
            world.chests@,
            section_pos(sec_x, sec_y, k).0,
            section_pos(sec_x, sec_y, k).1,
        )
    &&& forall|k: int|
        0 <= k < section_size() && #[trigger] marked(s, fi, k, Furniture::Sign) ==> has_sign(
            world.signs@,
            section_pos(sec_x, sec_y, k).0,
            section_pos(sec_x, sec_y, k).1,
        )
    &&& forall|k: int|
        0 <= k < section_size() && #[trigger] marked(s, fi, k, Furniture::Entity) ==> has_entity(
            world.entities@,
            section_pos(sec_x, sec_y, k).0,
            section_pos(sec_x, sec_y, k).1,
        )
}

/// Whether some chest stands at (`x`, `y`).
fn chest_exists(cs: &Vec<Chest>, x: usize, y: usize) -> (b: bool)
    ensures
        b == has_chest(cs@, x, y),
{
    let mut i: usize = 0;
    while i < cs.len()
        invariant
            i <= cs@.len(),
            forall|j: int| 0 <= j < i ==> !chest_at(#[trigger] cs@[j], x, y),
        decreases cs.len() - i,
    {
        if cs[i].x as usize == x && cs[i].y as usize == y {
            assert(chest_at(cs@[i as int], x, y));
            return true;
        }
        i = i + 1;
    }
    false
}

/// Whether some sign stands at (`x`, `y`).
fn sign_exists(cs: &Vec<Sign>, x: usize, y: usize) -> (b: bool)
    ensures
        b == has_sign(cs@, x, y),
{
    let mut i: usize = 0;
    while i < cs.len()
        invariant
            i <= cs@.len(),
            forall|j: int| 0 <= j < i ==> !sign_at(#[trigger] cs@[j], x, y),
        decreases cs.len() - i,
    {
        if cs[i].x as usize == x && cs[i].y as usize == y {
            assert(sign_at(cs@[i as int], x, y));
            return true;
        }
        i = i + 1;
    }
    false
}

/// Whether some tile entity stands at (`x`, `y`).
fn entity_exists(es: &Vec<Entity>, x: usize, y: usize) -> (b: bool)
    ensures
        b == has_entity(es@, x, y),
{
    let mut i: usize = 0;
    while i < es.len()
        invariant
            i <= es@.len(),
            forall|j: int| 0 <= j < i ==> !entity_at(#[trigger] es@[j], x, y),
        decreases es.len() - i,
    {
        if es[i].x == x as i16 && es[i].y == y as i16 {
            assert(entity_at(es@[i as int], x, y));
            return true;
        }
        i = i + 1;
    }
    false
}

/// Whether the section lies inside the world's columns of tiles.
fn section_fits(world: &World, sec_x: usize, sec_y: usize) -> (b: bool)
    ensures
        b == section_in_world(*world, sec_x, sec_y),
{
    let ncols = world.tiles.len();
    if sec_x >= ncols / SECTION_WIDTH {
        assert(!section_in_world(*world, sec_x, sec_y)) by (nonlinear_arith)
            requires
                sec_x >= ncols / 200,
                ncols == world.tiles@.len(),
                SECTION_WIDTH == 200,
        {
        }
        return false;
    }
    let xs = sec_x * SECTION_WIDTH;
    assert((sec_x + 1) * SECTION_WIDTH <= ncols) by (nonlinear_arith)
        requires
            sec_x < ncols / 200,
            SECTION_WIDTH == 200,
    {
    }
    let mut x: usize = xs;
    while x < xs + SECTION_WIDTH
        invariant
            xs == sec_x * SECTION_WIDTH,
            xs + SECTION_WIDTH <= ncols,
            ncols == world.tiles@.len(),
            xs <= x <= xs + SECTION_WIDTH,
            forall|a: int| xs <= a < x ==> (sec_y + 1) * SECTION_HEIGHT <= #[trigger] world.tiles@[a]@.len(),
        decreases xs + SECTION_WIDTH - x,
    {
        let nrows = world.tiles[x].len();
        if sec_y >= nrows / SECTION_HEIGHT {
            assert(!((sec_y + 1) * SECTION_HEIGHT <= world.tiles@[x as int]@.len())) by (nonlinear_arith)
                requires
                    sec_y >= nrows / 150,
                    nrows == world.tiles@[x as int]@.len(),
                    SECTION_HEIGHT == 150,
            {
            }
            return false;
        }
        assert((sec_y + 1) * SECTION_HEIGHT <= nrows) by (nonlinear_arith)
            requires
                sec_y < nrows / 150,
                SECTION_HEIGHT == 150,
        {
        }
        x = x + 1;
    }
    true
}

/// Whether section (`sec_x`, `sec_y`) can be encoded (see [`section_encodable`]).
pub fn section_is_encodable(world: &World, sec_x: usize, sec_y: usize) -> (b: bool)
    ensures
        b == section_encodable(*world, sec_x, sec_y),
{
    if !section_fits(world, sec_x, sec_y) {
        return false;
    }
    let ghost s = section_tiles(*world, sec_x, sec_y);
    let ghost fi = world.format.importance@;
    let ncols = world.tiles.len();
    assert(sec_x * SECTION_WIDTH + SECTION_WIDTH <= ncols);
    let xs = sec_x * SECTION_WIDTH;
    let nrows = world.tiles[xs].len();
    assert(sec_y * SECTION_HEIGHT + SECTION_HEIGHT <= nrows);
    let ys = sec_y * SECTION_HEIGHT;
    let fi_exec = world.format.importance.as_slice();
    let mut k: usize = 0;
    while k < SECTION_WIDTH * SECTION_HEIGHT
        invariant
            k <= section_size(),
            s == section_tiles(*world, sec_x, sec_y),
            fi == world.format.importance@,
            fi_exec@ == fi,
            xs == sec_x * SECTION_WIDTH,
            ys == sec_y * SECTION_HEIGHT,
            xs + SECTION_WIDTH <= usize::MAX,
            ys + SECTION_HEIGHT <= usize::MAX,
            section_in_world(*world, sec_x, sec_y),
            forall|j: int| 0 <= j < k ==> tile_writable(#[trigger] s[j], fi),
            forall|j: int|
                0 <= j < k && #[trigger] marked(s, fi, j, Furniture::Chest) ==> has_chest(
                    world.chests@,
                    section_pos(sec_x, sec_y, j).0,
                    section_pos(sec_x, sec_y, j).1,
                ),
            forall|j: int|
                0 <= j < k && #[trigger] marked(s, fi, j, Furniture::Sign) ==> has_sign(
                    world.signs@,
                    section_pos(sec_x, sec_y, j).0,
                    section_pos(sec_x, sec_y, j).1,
                ),
            forall|j: int|
                0 <= j < k && #[trigger] marked(s, fi, j, Furniture::Entity) ==> has_entity(
                    world.entities@,
                    section_pos(sec_x, sec_y, j).0,
                    section_pos(sec_x, sec_y, j).1,
                ),
        decreases SECTION_WIDTH * SECTION_HEIGHT - k,
    {
        let x = xs + k % SECTION_WIDTH;
        let y = ys + k / SECTION_WIDTH;
        assert(s[k as int] == world.tiles@[x as int]@[y as int]);
        let t = world.tiles[x][y];
        let writable = (!t.active || t.id >= 0) && (t.id < 0 || (t.id as usize) < fi_exec.len()) && (
        t.half_brick || t.slope == 0 || t.slope < 255);
        if !writable {
            assert(!tile_writable(s[k as int], fi));
            return false;
        }
        let starts = if k == 0 {
            true
        } else {
            let px = xs + (k - 1) % SECTION_WIDTH;
            let py = ys + (k - 1) / SECTION_WIDTH;
            assert(s[k - 1] == world.tiles@[px as int]@[py as int]);
            let prev = world.tiles[px][py];
            !(t == prev && t.id != 423 && t.id != 520)
        };
        assert(starts == starts_run(s, k as int));
        if starts && t.id >= 0 && fi_exec[t.id as usize] {
            let found = match furniture(&t) {
                Furniture::Chest => chest_exists(&world.chests, x, y),
                Furniture::Sign => sign_exists(&world.signs, x, y),
                Furniture::Entity => entity_exists(&world.entities, x, y),
                Furniture::Plain => true,
            };
            if !found {
                assert(section_pos(sec_x, sec_y, k as int) == (x, y));
                assert(marked(s, fi, k as int, furniture_of(s[k as int])));
                return false;
            }
        }
        k = k + 1;
    }
    true
}

proof fn lemma_spots(s: Seq<Tile>, fi: Seq<bool>, n: int, f: Furniture)
    requires
        0 <= n <= section_size(),
    ensures
        forall|i: int|
            0 <= i < spots(s, fi, n, f).len() ==> 0 <= #[trigger] spots(s, fi, n, f)[i] < n && marked(
                s,
                fi,
                spots(s, fi, n, f)[i] as int,
                f,
            ),
    decreases n,
{
    if n > 0 {
        lemma_spots(s, fi, n - 1, f);
        let r = spots(s, fi, n - 1, f);
        assert forall|i: int| 0 <= i < spots(s, fi, n, f).len() implies 0 <= #[trigger] spots(s, fi, n, f)[i] < n
            && marked(s, fi, spots(s, fi, n, f)[i] as int, f) by {
            if i < r.len() {
                assert(spots(s, fi, n, f)[i] == r[i]);
            } else {
                assert(spots(s, fi, n, f)[i] as int == n - 1);
            }
        }
    }
}

/// The bytes of a section before compression (see [`section_bytes`]).
pub fn section_payload(world: &World, sec_x: usize, sec_y: usize) -> (v: Vec<u8>)
    requires
        section_encodable(*world, sec_x, sec_y),
    ensures
        v@ == section_bytes(*world, sec_x, sec_y),
{
    let ghost s = section_tiles(*world, sec_x, sec_y);
    let ghost fi = world.format.importance@;
    let ncols = world.tiles.len();
    let xs = sec_x * SECTION_WIDTH;
    assert(sec_y * SECTION_HEIGHT + SECTION_HEIGHT <= world.tiles@[xs as int]@.len());
    let nrows = world.tiles[xs].len();
    let ys = sec_y * SECTION_HEIGHT;
    let mut w = Writer::new(Vec::new());
    w.write_i32(xs as i32);
    w.write_i32(ys as i32);
    w.write_i16(SECTION_WIDTH as i16);
    w.write_i16(SECTION_HEIGHT as i16);
    let (chests, signs, entities) = write_runs(world, sec_x, sec_y, &mut w);
    proof {
        lemma_spots(s, fi, section_size(), Furniture::Chest);
        lemma_spots(s, fi, section_size(), Furniture::Sign);
        lemma_spots(s, fi, section_size(), Furniture::Entity);
    }
    write_chests(&world.chests, sec_x, sec_y, &chests, &mut w);
    write_signs(&world.signs, sec_x, sec_y, &signs, &mut w);
    write_entities(&world.entities, sec_x, sec_y, &entities, &mut w);
    let v = w.into_inner();
    assert(v@ =~= section_bytes(*world, sec_x, sec_y));
    v
}

/// The raw DEFLATE stream (no zlib header) that flate2 writes for `data` at its
/// default compression level.
pub uninterp spec fn deflated(data: Seq<u8>) -> Seq<u8>;

/// Compresses `data` with flate2: a `write::ZlibEncoder` over a `Vec`, made with
/// `Compress::new(Compression::default(), false)` (so without the zlib header), given
/// all of `data` by `write_all` and closed by `finish`. The contract claims that it
/// succeeds (flate2's writer only appends to the `Vec`, and miniz_oxide fails only on
/// bad parameters or a failed output buffer) and that the bytes it gives back are a
/// function of `data` alone, named [`deflated`].
#[verifier::external_body]
fn deflate_raw(data: &[u8]) -> (r: Result<Vec<u8>, std::io::Error>)
    ensures
        r is Ok,
        r matches Ok(v) ==> v@ == deflated(data@),
{
    let compress = flate2::Compress::new(flate2::Compression::default(), false);
    let mut encoder = flate2::write::ZlibEncoder::new_with_compress(Vec::new(), compress);
    std::io::Write::write_all(&mut encoder, data)?;
    encoder.finish()
}

/// The message (code 10) that carries a section of the world's tiles to a client:
/// [`section_bytes`], compressed.
pub fn encode_tiles(world: &World, sec_x: usize, sec_y: usize) -> (r: Result<Message, std::io::Error>)
    requires
        section_encodable(*world, sec_x, sec_y),
    ensures
        r matches Ok(m) && m matches Message::Unknown(code, v) && code == 10 && v@ == deflated(
            section_bytes(*world, sec_x, sec_y),
        ),
{
    let payload = section_payload(world, sec_x, sec_y);
    section_message(deflate_raw(payload.as_slice()))
}

/// The section message for what compression gave back: the compressed bytes under code
/// 10, or compression's error as it is.
pub fn section_message(compressed: Result<Vec<u8>, std::io::Error>) -> (r: Result<Message, std::io::Error>)
    ensures
        match compressed {
            Ok(v) => r matches Ok(m) && m matches Message::Unknown(code, w) && code == 10 && w@ == v@,
            Err(e) => r == Err::<Message, std::io::Error>(e),
        },
{
    match compressed {
        Ok(v) => Ok(Message::Unknown(10, v)),
        Err(e) => Err(e),
    }
}

/// A random number from rand's thread-local generator (`rand::random::<u64>()`). Its
/// value rests on chance, so the contract says nothing of it.
#[verifier::external_body]
fn random_u64() -> (r: u64) {
    rand::random::<u64>()
}

/// The number in `lower..=upper` that the random number `random` picks: `random` modulo
/// the size of the range, above `lower`.
pub fn pick_in_range(random: u64, lower: u64, upper: u64) -> (r: u64)
    requires
        lower <= upper,
        upper - lower + 1 <= u64::MAX,
    ensures
        r == random % ((upper - lower + 1) as u64) + lower,
        lower <= r <= upper,
{
    random % (upper - lower + 1) + lower
}

/// A random number in `lower..=upper`, both included.
pub fn rr(lower: u64, upper: u64) -> (r: u64)
    requires
        lower <= upper,
        upper - lower + 1 <= u64::MAX,
    ensures
        lower <= r <= upper,
{
    pick_in_range(random_u64(), lower, upper)
}

} // verus!
