use std::io::Read;

use terraria_server::binary::writer::Writer;
use terraria_server::network::messages::Message;
use terraria_server::network::server::Client;
use terraria_server::network::utils::{encode_tiles, section_message, section_payload};
use terraria_server::world::binary::SafeReader;
use terraria_server::world::entity::{DisplayDoll, Entity, EntityInner, EntityItem, HatRack};
use terraria_server::world::tile::{Liquid, Tile};
use terraria_server::world::types::{
    Bestiary, Chest, ChestItem, FileType, Format, GameMode, Header, Metadata, World, WorldParseError,
};

fn frame_table() -> Vec<bool> {
    let mut t = vec![false; 700];
    for id in [21usize, 55, 88, 378, 467] {
        t[id] = true;
    }
    t
}

fn encode(tile: &Tile, repeat: usize) -> Vec<u8> {
    let mut w = Writer::new(Vec::new());
    tile.encode(&mut w, repeat, &frame_table());
    w.into_inner()
}

fn decode(bytes: Vec<u8>) -> (Tile, usize) {
    let mut r = SafeReader::new(bytes);
    Tile::decode(&mut r, &frame_table()).unwrap()
}

#[test]
fn empty_tile_is_one_byte() {
    assert_eq!(encode(&Tile::default(), 0), vec![0]);
    // An inactive tile reads back with no type.
    assert_eq!(decode(vec![0]), (Tile { id: -1, ..Tile::default() }, 0));
}

/// Tiles as reading gives them: an inactive tile has type -1, and a tile whose type
/// is not frame-important has frame (-1, -1).
#[test]
fn tiles_round_trip() {
    let none = Tile { id: -1, ..Tile::default() };
    let dirt = Tile { id: 0, active: true, frame_x: -1, frame_y: -1, ..Tile::default() };
    let chest = Tile { id: 21, active: true, frame_x: 36, frame_y: 18, color: 3, ..Tile::default() };
    let wall = Tile { wall: 300, wall_color: 2, ..none };
    let water = Tile { liquid: 255, liquid_kind: Liquid::Water, ..none };
    let shimmer = Tile { liquid: 10, liquid_kind: Liquid::Shimmer, ..none };
    let wired = Tile {
        id: 600,
        active: true,
        frame_x: -1,
        frame_y: -1,
        wire_1: true,
        wire_4: true,
        actuator: true,
        in_active: true,
        slope: 3,
        invisible_block: true,
        fullbright_wall: true,
        ..Tile::default()
    };
    for tile in [none, dirt, chest, wall, water, shimmer, wired] {
        for repeat in [0usize, 5, 300] {
            assert_eq!(decode(encode(&tile, repeat)), (tile, repeat), "{:?} x{}", tile, repeat);
        }
    }
}

#[test]
fn reading_drops_the_frame_of_plain_tiles() {
    let dirt = Tile { id: 0, active: true, frame_x: 18, frame_y: 36, ..Tile::default() };
    let (back, _) = decode(encode(&dirt, 0));
    assert_eq!((back.frame_x, back.frame_y), (-1, -1));
}

#[test]
fn repeat_counts_take_one_or_two_bytes() {
    let dirt = Tile { id: 1, active: true, ..Tile::default() };
    assert_eq!(encode(&dirt, 5).len(), encode(&dirt, 0).len() + 1);
    assert_eq!(encode(&dirt, 300).len(), encode(&dirt, 0).len() + 2);
}

#[test]
fn truncated_tile_is_end_of_input() {
    let chest = Tile { id: 21, active: true, frame_x: 36, frame_y: 18, ..Tile::default() };
    let mut bytes = encode(&chest, 0);
    bytes.pop();
    let mut r = SafeReader::new(bytes);
    assert!(matches!(Tile::decode(&mut r, &frame_table()), Err(WorldParseError::UnexpectedEOI)));
}

#[test]
fn same_tile_ignores_liquid_amount_but_not_type() {
    let a = Tile { id: 5, active: true, liquid: 3, ..Tile::default() };
    let b = Tile { liquid: 200, ..a };
    let c = Tile { id: 6, ..a };
    assert!(a.is(&b));
    assert!(!a.is(&c));
    let inactive = Tile::default();
    assert!(inactive.is(&inactive));
    let other_type = Tile { id: 9, frame_x: 18, ..inactive };
    assert!(inactive.is(&other_type));
    assert!(!inactive.is(&a));
}

#[test]
fn dropped_items() {
    let dirt = Tile { id: 0, active: true, ..Tile::default() };
    assert_eq!(dirt.get_dropped_item(), 2);
    let stone = Tile { id: 1, active: true, ..Tile::default() };
    assert_eq!(stone.get_dropped_item(), 3);
    let torch = Tile { id: 4, active: true, frame_y: 8 * 22, ..Tile::default() };
    assert_eq!(torch.get_dropped_item(), 523);
    let plain_torch = Tile { id: 4, active: true, ..Tile::default() };
    assert_eq!(plain_torch.get_dropped_item(), 8);
}

fn entity_round_trip(e: Entity) -> Entity {
    let mut w = Writer::new(Vec::new());
    e.write(&mut w);
    let mut r = SafeReader::new(w.into_inner());
    Entity::decode(&mut r).unwrap()
}

#[test]
fn entities_round_trip() {
    let item = EntityItem { id: 7, stack: 2, prefix: 1 };
    let none = EntityItem::default();
    let mut doll = DisplayDoll::default();
    doll.items[2] = item;
    doll.dyes[7] = EntityItem { id: 9, stack: 1, prefix: 0 };
    let rack = HatRack { items: [item, none], dyes: [EntityItem { id: 3, stack: 1, prefix: 0 }, none] };
    let entities = [
        Entity { id: 1, x: 10, y: 20, inner: EntityInner::Dummy { npc: -1 } },
        Entity { id: 2, x: 11, y: 21, inner: EntityInner::ItemFrame(item) },
        Entity { id: 3, x: 12, y: 22, inner: EntityInner::LogicSensor { logic_check: 4, on: true } },
        Entity { id: 4, x: 13, y: 23, inner: EntityInner::DisplayDoll(doll) },
        Entity { id: 5, x: 14, y: 24, inner: EntityInner::WeaponsRack(item) },
        Entity { id: 6, x: 15, y: 25, inner: EntityInner::HatRack(rack) },
        Entity { id: 7, x: 16, y: 26, inner: EntityInner::FoodPlatter(item) },
        Entity { id: 8, x: 17, y: 27, inner: EntityInner::TeleportationPylon },
    ];
    for e in entities {
        let back = entity_round_trip(e);
        assert_eq!(format!("{:?}", back), format!("{:?}", e));
    }
}

#[test]
fn unknown_entity_kind_is_refused() {
    let mut r = SafeReader::new(vec![9, 0, 0, 0, 0, 0, 0, 0, 0]);
    assert!(matches!(Entity::decode(&mut r), Err(WorldParseError::InvalidEntityKind)));
}

#[test]
fn safe_reader_reads_little_endian_and_stops_at_the_end() {
    let mut r = SafeReader::new(vec![1, 0xfe, 0xff, 4, 0, 0, 0, 3, b'a', b'b', b'c']);
    assert_eq!(r.read_byte().unwrap(), 1);
    assert_eq!(r.read_i16().unwrap(), -2);
    assert_eq!(r.read_u32().unwrap(), 4);
    assert_eq!(r.read_string().unwrap(), "abc");
    assert_eq!(r.get_cur(), 11);
    assert!(matches!(r.read_byte(), Err(WorldParseError::UnexpectedEOI)));
    assert_eq!(r.get_cur(), 12);
}

#[test]
fn invalid_utf8_is_an_invalid_string() {
    let mut r = SafeReader::new(vec![2, 0xc3, 0x28]);
    assert!(matches!(r.read_string(), Err(WorldParseError::InvalidString(_))));
}

#[test]
fn codes_name_game_modes_and_file_types() {
    assert_eq!(GameMode::from(0u8), GameMode::Normal);
    assert_eq!(GameMode::from(2u8), GameMode::Master);
    assert_eq!(GameMode::from(9u8), GameMode::Normal);
    assert_eq!(FileType::from(2u8), FileType::World);
    assert_eq!(FileType::from(1u8), FileType::WorldMap);
    assert_eq!(FileType::from(0u8), FileType::Unknown);
    assert_eq!(GameMode::Creative.as_u8(), 3);
}

#[test]
fn chests_are_read() {
    let mut bytes = vec![1, 0, 41, 0];
    bytes.extend_from_slice(&5i32.to_le_bytes());
    bytes.extend_from_slice(&6i32.to_le_bytes());
    bytes.extend_from_slice(&[4, b'L', b'o', b'o', b't']);
    // first slot: two of item 12 with prefix 3; the rest empty
    bytes.extend_from_slice(&2i16.to_le_bytes());
    bytes.extend_from_slice(&12i32.to_le_bytes());
    bytes.push(3);
    for _ in 1..40 {
        bytes.extend_from_slice(&0i16.to_le_bytes());
    }
    // the forty-first slot is passed over
    bytes.extend_from_slice(&1i16.to_le_bytes());
    bytes.extend_from_slice(&[0, 0, 0, 0, 0]);
    let mut r = SafeReader::new(bytes.clone());
    let chests = World::read_chests(&mut r).unwrap();
    assert_eq!(r.get_cur(), bytes.len());
    assert_eq!(chests.len(), 1);
    assert_eq!((chests[0].x, chests[0].y, chests[0].name.as_str()), (5, 6, "Loot"));
    assert_eq!(chests[0].items.len(), 40);
    assert_eq!(chests[0].items[0], ChestItem { id: 12, stack: 2, prefix: 3 });
    assert_eq!(chests[0].items[1], ChestItem::default());
}

fn blank_header() -> Header {
    Header {
        name: String::new(),
        seed_text: String::new(),
        worldgen_version: 0,
        uuid: Some([7u8; 16]),
        id: 0,
        left: 0,
        right: 0,
        top: 0,
        bottom: 0,
        width: 0,
        height: 0,
        game_mode: GameMode::Normal,
        world_drunk: false,
        world_for_the_worthy: false,
        world_anniversary: false,
        world_dont_starve: false,
        world_not_the_bees: false,
        world_remix: false,
        world_no_traps: false,
        world_zenith: false,
        creation_time: 0,
        has_crimson: false,
        hard_mode: false,
        moon_type: 0,
        tree_x: [0; 3],
        tree_style: [0; 4],
        cave_back_x: [0; 3],
        cave_back_style: [0; 4],
        ice_back_style: 0,
        jungle_back_style: 0,
        hell_back_style: 0,
        spawn_tile_x: 0,
        spawn_tile_y: 0,
        world_surface: 0,
        rock_layer: 0,
        temp_time: 0,
        temp_day_time: false,
        temp_moon_phase: 0,
        temp_blood_moon: false,
        temp_eclipse: false,
        dungeon_x: 0,
        dungeon_y: 0,
        downed_boss_1: false,
        downed_boss_2: false,
        downed_boss_3: false,
        downed_queen_bee: false,
        downed_mech_boss_1: false,
        downed_mech_boss_2: false,
        downed_mech_boss_3: false,
        downed_mech_boss_any: false,
        downed_plant_boss: false,
        downed_golem_boss: false,
        downed_slime_king: false,
        saved_goblin: false,
        saved_wizard: false,
        saved_mechanic: false,
        downed_goblins: false,
        downed_clown: false,
        downed_frost: false,
        downed_pirates: false,
        smashed_shadow_orb: false,
        spawn_meteor: false,
        shadow_orb_count: 0,
        altar_count: 0,
        after_party_of_doom: false,
        invasion_delay: 0,
        invasion_size: 0,
        invasion_type: 0,
        invasion_x: 0,
        slime_rain_time: 0,
        sundial_cooldown: 0,
        temp_raining: false,
        temp_rain_time: 0,
        temp_max_rain: 0,
        ore_tier_cobalt: 0,
        ore_tier_mythril: 0,
        ore_tier_adamantite: 0,
        bg: [0; 13],
        cloud_bg_active: 0,
        cloud_bg_alpha: 0,
        num_clouds: 0,
        wind_speed_target: 0,
        angler_who_finished_today: Vec::new(),
        saved_angler: false,
        angler_quest: 0,
        saved_stylist: false,
        saved_tax_collector: false,
        saved_golfer: false,
        invasion_size_start: 0,
        temp_cultist_delay: 0,
        npc_kill_counts: Vec::new(),
        fast_forward_time_to_dawn: false,
        downed_fishron: false,
        downed_martians: false,
        downed_ancient_cultist: false,
        downed_moonlord: false,
        downed_halloween_king: false,
        downed_halloween_tree: false,
        downed_christmas_ice_queen: false,
        downed_christmas_santank: false,
        downed_christmas_tree: false,
        downed_tower_solar: false,
        downed_tower_vortex: false,
        downed_tower_nebula: false,
        downed_tower_stardust: false,
        tower_active_solar: false,
        tower_active_vortex: false,
        tower_active_nebula: false,
        tower_active_stardust: false,
        lunar_apocalypse_is_up: false,
        temp_party_manual: false,
        temp_party_genuine: false,
        temp_party_cooldown: 0,
        temp_party_celebrating_npcs: Vec::new(),
        temp_sandstorm_happening: false,
        temp_sandstorm_time_left: 0,
        temp_sandstorm_severity: 0,
        temp_sandstorm_intended_severity: 0,
        saved_bartender: false,
        downed_dd2_invasion_t1: false,
        downed_dd2_invasion_t2: false,
        downed_dd2_invasion_t3: false,
        combat_book_was_used: false,
        temp_lantern_night_cooldown: 0,
        temp_lantern_night_genuine: false,
        temp_lantern_night_manual: false,
        temp_lantern_night_next_night_is_genuine: false,
        tree_top_variations: Vec::new(),
        force_halloween_for_today: false,
        force_xmas_for_today: false,
        ore_tier_copper: 0,
        ore_tier_iron: 0,
        ore_tier_silver: 0,
        ore_tier_gold: 0,
        bought_cat: false,
        bought_dog: false,
        bought_bunny: false,
        downed_empress_of_light: false,
        downed_queen_slime: false,
        downed_deerclops: false,
        unlocked_slime_blue_spawn: false,
        unlocked_merchant_spawn: false,
        unlocked_demolition_spawn: false,
        unlocked_party_girl_spawn: false,
        unlocked_dye_trader_spawn: false,
        unlocked_truffle_spawn: false,
        unlocked_arms_dealer_spawn: false,
        unlocked_nurse_spawn: false,
        unlocked_princess_spawn: false,
        combat_book_volume_two_was_used: false,
        peddlers_satchel_was_used: false,
        unlocked_slime_green_spawn: false,
        unlocked_slime_old_spawn: false,
        unlocked_slime_purple_spawn: false,
        unlocked_slime_rainbow_spawn: false,
        unlocked_slime_red_spawn: false,
        unlocked_slime_yellow_spawn: false,
        unlocked_slime_copper_spawn: false,
        fast_forward_time_to_dusk: false,
        moondial_cooldown: 0,
    }
}

fn world_with_tiles(tiles: Vec<Vec<Tile>>, chests: Vec<Chest>) -> World {
    World {
        metadata: Metadata { version: 279, file_type: FileType::World, revision: 0, favorite: false },
        format: Format { importance: frame_table(), positions: Vec::new() },
        header: blank_header(),
        tiles,
        chests,
        signs: Vec::new(),
        npcs: Vec::new(),
        entities: Vec::new(),
        weighted_pressure_plates: Vec::new(),
        room_locations: Vec::new(),
        bestiary: Bestiary { kills: Vec::new(), sights: Vec::new(), chats: Vec::new() },
        creative_powers: Vec::new(),
    }
}

fn section_world() -> World {
    let mut tiles = vec![vec![Tile::default(); 150]; 200];
    // a row of stone along the top, and a chest's top left tile below it
    for x in 0..200 {
        tiles[x][0] = Tile { id: 1, active: true, ..Tile::default() };
    }
    tiles[3][1] = Tile { id: 21, active: true, ..Tile::default() };
    let chest = Chest { x: 3, y: 1, name: "Box".to_string(), items: Vec::new() };
    world_with_tiles(tiles, vec![chest])
}

#[test]
fn section_payload_runs_and_chests() {
    let world = section_world();
    let payload = section_payload(&world, 0, 0);
    assert_eq!(&payload[0..12], &[0, 0, 0, 0, 0, 0, 0, 0, 200, 0, 150, 0]);
    let stone = Tile { id: 1, active: true, ..Tile::default() };
    let mut expected = payload[0..12].to_vec();
    expected.extend(encode(&stone, 199));
    expected.extend(encode(&Tile::default(), 2));
    expected.extend(encode(&Tile { id: 21, active: true, ..Tile::default() }, 0));
    expected.extend(encode(&Tile::default(), 200 * 149 - 5));
    // one chest: index 0 at (3, 1) named "Box"; no signs; no entities
    expected.extend([1, 0, 0, 0, 3, 0, 1, 0, 3, b'B', b'o', b'x', 0, 0, 0, 0]);
    assert_eq!(payload, expected);
}

#[test]
fn encode_tiles_compresses_the_payload() {
    let world = section_world();
    let payload = section_payload(&world, 0, 0);
    match encode_tiles(&world, 0, 0).unwrap() {
        Message::Unknown(code, compressed) => {
            assert_eq!(code, 10);
            assert_ne!(compressed, payload);
            let mut inflated = Vec::new();
            flate2::read::DeflateDecoder::new(&compressed[..]).read_to_end(&mut inflated).unwrap();
            assert_eq!(inflated, payload);
        },
        other => panic!("unexpected message {:?}", other),
    }
}

#[test]
fn sections_are_sent_once() {
    let world = section_world();
    let mut client = Client::new(1, 1);
    let first = client.encode_sections(&world, 0, 1, 0, 1).unwrap();
    assert_eq!(first.len(), 1);
    assert!(matches!(&first[0], Message::Unknown(10, _)));
    assert!(client.loaded_sections[0][0]);
    let again = client.encode_sections(&world, 0, 1, 0, 1).unwrap();
    assert!(again.is_empty());
}

#[test]
fn empty_section_ranges_send_nothing() {
    let world = section_world();
    let mut client = Client::new(1, 1);
    assert!(client.encode_sections(&world, 0, 0, 0, 1).unwrap().is_empty());
    assert!(client.encode_sections(&world, 0, 1, 1, 1).unwrap().is_empty());
    assert!(!client.loaded_sections[0][0]);
}

#[test]
fn section_message_wraps_compressed_bytes_or_the_error() {
    match section_message(Ok(vec![1, 2, 3])) {
        Ok(Message::Unknown(10, v)) => assert_eq!(v, vec![1, 2, 3]),
        other => panic!("unexpected {:?}", other),
    }
    let e = std::io::Error::new(std::io::ErrorKind::Other, "deflate");
    match section_message(Err(e)) {
        Err(e) => assert_eq!(e.to_string(), "deflate"),
        other => panic!("unexpected {:?}", other),
    }
}
