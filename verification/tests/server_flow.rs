use terraria_server::binary::types::{Text, RGB};
use terraria_server::network::messages::{
    ConnectionApprove, KillCount, Message, PlayerBuffs, PlayerDetails, PlayerHealth, PlayerInventorySlot,
    PlayerLoadout, PlayerMana, SpawnRequest,
};
use terraria_server::network::utils::section_is_encodable;
use terraria_server::world::tile::Tile;
use terraria_server::network::server::{body_length, relay_reaches, ConnectionState, Server, GAME_VERSION, MAX_CLIENTS};
use terraria_server::world::types::{Bestiary, FileType, Format, GameMode, Header, Metadata, World};

fn blank_header() -> Header {
    Header {
        name: String::from("Test World"),
        seed_text: String::new(),
        worldgen_version: 0,
        uuid: Some([7u8; 16]),
        id: 0,
        left: 0,
        right: 0,
        top: 0,
        bottom: 0,
        width: 8400,
        height: 2400,
        game_mode: GameMode::Normal,
        world_drunk: false,
        world_for_the_worthy: false,
        world_anniversary: false,
        world_dont_starve: false,
        world_not_the_bees: false,
        world_remix: false,
        world_no_traps: false,
        world_zenith: false,
        creation_time: 0,
        has_crimson: false,
        hard_mode: false,
        moon_type: 0,
        tree_x: [0; 3],
        tree_style: [0; 4],
        cave_back_x: [0; 3],
        cave_back_style: [0; 4],
        ice_back_style: 0,
        jungle_back_style: 0,
        hell_back_style: 0,
        spawn_tile_x: 0,
        spawn_tile_y: 0,
        world_surface: 0,
        rock_layer: 0,
        temp_time: 0,
        temp_day_time: false,
        temp_moon_phase: 0,
        temp_blood_moon: false,
        temp_eclipse: false,
        dungeon_x: 0,
        dungeon_y: 0,
        downed_boss_1: false,
        downed_boss_2: false,
        downed_boss_3: false,
        downed_queen_bee: false,
        downed_mech_boss_1: false,
        downed_mech_boss_2: false,
        downed_mech_boss_3: false,
        downed_mech_boss_any: false,
        downed_plant_boss: false,
        downed_golem_boss: false,
        downed_slime_king: false,
        saved_goblin: false,
        saved_wizard: false,
        saved_mechanic: false,
        downed_goblins: false,
        downed_clown: false,
        downed_frost: false,
        downed_pirates: false,
        smashed_shadow_orb: false,
        spawn_meteor: false,
        shadow_orb_count: 0,
        altar_count: 0,
        after_party_of_doom: false,
        invasion_delay: 0,
        invasion_size: 0,
        invasion_type: 0,
        invasion_x: 0,
        slime_rain_time: 0,
        sundial_cooldown: 0,
        temp_raining: false,
        temp_rain_time: 0,
        temp_max_rain: 0,
        ore_tier_cobalt: 0,
        ore_tier_mythril: 0,
        ore_tier_adamantite: 0,
        bg: [0; 13],
        cloud_bg_active: 0,
        cloud_bg_alpha: 0,
        num_clouds: 0,
        wind_speed_target: 0,
        angler_who_finished_today: Vec::new(),
        saved_angler: false,
        angler_quest: 0,
        saved_stylist: false,
        saved_tax_collector: false,
        saved_golfer: false,
        invasion_size_start: 0,
        temp_cultist_delay: 0,
        npc_kill_counts: Vec::new(),
        fast_forward_time_to_dawn: false,
        downed_fishron: false,
        downed_martians: false,
        downed_ancient_cultist: false,
        downed_moonlord: false,
        downed_halloween_king: false,
        downed_halloween_tree: false,
        downed_christmas_ice_queen: false,
        downed_christmas_santank: false,
        downed_christmas_tree: false,
        downed_tower_solar: false,
        downed_tower_vortex: false,
        downed_tower_nebula: false,
        downed_tower_stardust: false,
        tower_active_solar: false,
        tower_active_vortex: false,
        tower_active_nebula: false,
        tower_active_stardust: false,
        lunar_apocalypse_is_up: false,
        temp_party_manual: false,
        temp_party_genuine: false,
        temp_party_cooldown: 0,
        temp_party_celebrating_npcs: Vec::new(),
        temp_sandstorm_happening: false,
        temp_sandstorm_time_left: 0,
        temp_sandstorm_severity: 0,
        temp_sandstorm_intended_severity: 0,
        saved_bartender: false,
        downed_dd2_invasion_t1: false,
        downed_dd2_invasion_t2: false,
        downed_dd2_invasion_t3: false,
        combat_book_was_used: false,
        temp_lantern_night_cooldown: 0,
        temp_lantern_night_genuine: false,
        temp_lantern_night_manual: false,
        temp_lantern_night_next_night_is_genuine: false,
        tree_top_variations: Vec::new(),
        force_halloween_for_today: false,
        force_xmas_for_today: false,
        ore_tier_copper: 0,
        ore_tier_iron: 0,
        ore_tier_silver: 0,
        ore_tier_gold: 0,
        bought_cat: false,
        bought_dog: false,
        bought_bunny: false,
        downed_empress_of_light: false,
        downed_queen_slime: false,
        downed_deerclops: false,
        unlocked_slime_blue_spawn: false,
        unlocked_merchant_spawn: false,
        unlocked_demolition_spawn: false,
        unlocked_party_girl_spawn: false,
        unlocked_dye_trader_spawn: false,
        unlocked_truffle_spawn: false,
        unlocked_arms_dealer_spawn: false,
        unlocked_nurse_spawn: false,
        unlocked_princess_spawn: false,
        combat_book_volume_two_was_used: false,
        peddlers_satchel_was_used: false,
        unlocked_slime_green_spawn: false,
        unlocked_slime_old_spawn: false,
        unlocked_slime_purple_spawn: false,
        unlocked_slime_rainbow_spawn: false,
        unlocked_slime_red_spawn: false,
        unlocked_slime_yellow_spawn: false,
        unlocked_slime_copper_spawn: false,
        fast_forward_time_to_dusk: false,
        moondial_cooldown: 0,
    }
}

fn blank_world() -> World {
    World {
        metadata: Metadata { version: 279, file_type: FileType::World, revision: 0, favorite: false },
        format: Format { importance: Vec::new(), positions: Vec::new() },
        header: blank_header(),
        tiles: Vec::new(),
        chests: Vec::new(),
        signs: Vec::new(),
        npcs: Vec::new(),
        entities: Vec::new(),
        weighted_pressure_plates: Vec::new(),
        room_locations: Vec::new(),
        bestiary: Bestiary { kills: Vec::new(), sights: Vec::new(), chats: Vec::new() },
        creative_powers: Vec::new(),
    }
}

fn details(name: &str) -> PlayerDetails {
    PlayerDetails {
        client_id: 99,
        skin_variant: 40,
        hair: 200,
        name: name.to_string(),
        hair_dye: 0,
        hide_accessory: 0,
        hide_misc: 0,
        hair_color: RGB(1, 2, 3),
        skin_color: RGB(4, 5, 6),
        eye_color: RGB(7, 8, 9),
        shirt_color: RGB(10, 11, 12),
        undershirt_color: RGB(13, 14, 15),
        pants_color: RGB(16, 17, 18),
        shoe_color: RGB(19, 20, 21),
        flags_1: 0,
        flags_2: 0,
        flags_3: 0,
    }
}

fn refusal_key(m: &Message) -> Option<String> {
    match m {
        Message::ConnectionRefuse(Text::Key(k, subs)) if subs.is_empty() => Some(k.clone()),
        _ => None,
    }
}

fn state(server: &Server, id: usize) -> ConnectionState {
    server.clients[id].as_ref().unwrap().state
}

/// A server without a password, with one client that has passed the version check.
fn authenticated() -> (Server, usize) {
    let mut server = Server::new(blank_world(), "", 0, 0);
    let id = server.connect().ok().unwrap();
    let (replies, _) = server.handle_message(Message::VersionIdentifier(GAME_VERSION.to_string()), id);
    assert_eq!(replies.len(), 1);
    (server, id)
}

#[test]
fn new_server_has_free_slots() {
    let server = Server::new(blank_world(), "secret", 10, 20);
    assert_eq!(server.clients.len(), MAX_CLIENTS);
    assert!(server.clients.iter().all(|c| c.is_none()));
    assert_eq!(server.password, "secret");
}

#[test]
fn connect_takes_first_free_slot() {
    let mut server = Server::new(blank_world(), "", 0, 0);
    assert_eq!(server.connect().ok(), Some(0));
    assert_eq!(server.connect().ok(), Some(1));
    server.disconnect(0);
    assert_eq!(server.connect().ok(), Some(0));
    let c = server.clients[1].as_ref().unwrap();
    assert_eq!(c.state, ConnectionState::New);
    assert_eq!(c.inventory.len(), 350);
    // 8400 tiles wide, 2400 high: 42 by 16 sections, none sent yet.
    assert_eq!(c.loaded_sections.len(), 42);
    assert!(c.loaded_sections.iter().all(|col| col.len() == 16 && col.iter().all(|s| !s)));
}

#[test]
fn full_server_refuses() {
    let mut server = Server::new(blank_world(), "", 0, 0);
    for i in 0..MAX_CLIENTS {
        assert_eq!(server.connect().ok(), Some(i));
    }
    let refused = server.connect().err().unwrap();
    assert_eq!(refusal_key(&refused), Some("CLI.ServerIsFull".to_string()));
}

#[test]
fn right_version_without_password_is_approved() {
    let mut server = Server::new(blank_world(), "", 0, 0);
    let id = server.connect().ok().unwrap();
    let (replies, relays) = server.handle_message(Message::VersionIdentifier("Terraria279".to_string()), id);
    assert!(relays.is_empty());
    assert_eq!(replies.len(), 1);
    match &replies[0] {
        Message::ConnectionApprove(a) => assert_eq!(*a, ConnectionApprove { client_id: id as u8, flag: false }),
        other => panic!("unexpected reply {:?}", other),
    }
    assert_eq!(state(&server, id), ConnectionState::Authenticated);
}

#[test]
fn right_version_with_password_asks_for_it() {
    let mut server = Server::new(blank_world(), "hunter2", 0, 0);
    let id = server.connect().ok().unwrap();
    let (replies, _) = server.handle_message(Message::VersionIdentifier(GAME_VERSION.to_string()), id);
    assert!(matches!(replies[..], [Message::PasswordRequest]));
    assert_eq!(state(&server, id), ConnectionState::PendingAuthentication);

    let (replies, _) = server.handle_message(Message::PasswordResponse("wrong".to_string()), id);
    assert_eq!(refusal_key(&replies[0]), Some("LegacyMultiplayer.1".to_string()));
    assert_eq!(state(&server, id), ConnectionState::PendingAuthentication);

    let (replies, _) = server.handle_message(Message::PasswordResponse("hunter2".to_string()), id);
    assert!(matches!(replies[..], [Message::ConnectionApprove(ConnectionApprove { flag: false, .. })]));
    assert_eq!(state(&server, id), ConnectionState::Authenticated);
}

#[test]
fn wrong_version_is_refused() {
    let mut server = Server::new(blank_world(), "", 0, 0);
    let id = server.connect().ok().unwrap();
    let (replies, _) = server.handle_message(Message::VersionIdentifier("Terraria230".to_string()), id);
    assert_eq!(refusal_key(&replies[0]), Some("LegacyMultiplayer.4".to_string()));
    assert_eq!(state(&server, id), ConnectionState::New);
}

#[test]
fn version_is_ignored_after_the_first() {
    let (mut server, id) = authenticated();
    let (replies, relays) = server.handle_message(Message::VersionIdentifier("other".to_string()), id);
    assert!(replies.is_empty() && relays.is_empty());
    assert_eq!(state(&server, id), ConnectionState::Authenticated);
}

#[test]
fn details_are_sanitized_kept_and_relayed() {
    let (mut server, id) = authenticated();
    let (replies, relays) = server.handle_message(Message::PlayerDetails(details("Guide")), id);
    assert!(replies.is_empty());
    assert_eq!(relays.len(), 1);
    assert_eq!(relays[0].1, Some(id));
    match &relays[0].0 {
        Message::PlayerDetails(d) => {
            assert_eq!(d.client_id, id as u8);
            assert_eq!(d.skin_variant, 11);
            assert_eq!(d.hair, 0);
            assert_eq!(d.name, "Guide");
        },
        other => panic!("unexpected relay {:?}", other),
    }
    let c = server.clients[id].as_ref().unwrap();
    assert_eq!(c.state, ConnectionState::DetailsReceived);
    assert_eq!(c.details.as_ref().unwrap().name, "Guide");
}

#[test]
fn details_before_authentication_are_refused() {
    let mut server = Server::new(blank_world(), "", 0, 0);
    let id = server.connect().ok().unwrap();
    let (replies, relays) = server.handle_message(Message::PlayerDetails(details("Guide")), id);
    assert_eq!(refusal_key(&replies[0]), Some("LegacyMultiplayer.1".to_string()));
    assert!(relays.is_empty());
    assert!(server.clients[id].as_ref().unwrap().details.is_none());
}

#[test]
fn taken_name_is_refused() {
    let (mut server, a) = authenticated();
    server.handle_message(Message::PlayerDetails(details("Guide")), a);
    let b = server.connect().ok().unwrap();
    server.handle_message(Message::VersionIdentifier(GAME_VERSION.to_string()), b);
    let (replies, _) = server.handle_message(Message::PlayerDetails(details("Guide")), b);
    assert_eq!(refusal_key(&replies[0]), Some("LegacyMultiplayer.5".to_string()));
    assert_eq!(state(&server, b), ConnectionState::Authenticated);
}

#[test]
fn long_and_empty_names_are_refused() {
    let (mut server, id) = authenticated();
    let (replies, _) = server.handle_message(Message::PlayerDetails(details("abcdefghijklmnopqrstu")), id);
    assert_eq!(refusal_key(&replies[0]), Some("Net.NameTooLong".to_string()));
    let (replies, _) = server.handle_message(Message::PlayerDetails(details("")), id);
    assert_eq!(refusal_key(&replies[0]), Some("Net.EmptyName".to_string()));
    // Twenty bytes is still allowed; ten two-byte characters are twenty bytes.
    let (replies, _) = server.handle_message(Message::PlayerDetails(details("éééééééééé")), id);
    assert!(replies.is_empty());
}

#[test]
fn multibyte_name_over_twenty_bytes_is_refused() {
    let (mut server, id) = authenticated();
    let (replies, _) = server.handle_message(Message::PlayerDetails(details("ééééééééééé")), id);
    assert_eq!(refusal_key(&replies[0]), Some("Net.NameTooLong".to_string()));
}

#[test]
fn health_is_raised_and_relayed() {
    let (mut server, id) = authenticated();
    let h = PlayerHealth { client_id: 200, current: 80, maximum: 400 };
    let (replies, relays) = server.handle_message(Message::PlayerHealth(h), id);
    assert!(replies.is_empty());
    let expected = PlayerHealth { client_id: id as u8, current: 80, maximum: 400 };
    assert!(matches!(relays[..], [(Message::PlayerHealth(r), Some(s))] if r == expected && s == id));
    assert_eq!(server.clients[id].as_ref().unwrap().health, Some(expected));
    let low = PlayerHealth { client_id: 0, current: 20, maximum: 50 };
    let (_, relays) = server.handle_message(Message::PlayerHealth(low), id);
    let raised = PlayerHealth { client_id: id as u8, current: 20, maximum: 100 };
    assert!(matches!(relays[..], [(Message::PlayerHealth(r), Some(_))] if r == raised));
}

#[test]
fn mana_is_kept_but_not_relayed() {
    let (mut server, id) = authenticated();
    let (replies, relays) = server.handle_message(Message::PlayerMana(PlayerMana { client_id: 3, current: 20, maximum: 200 }), id);
    assert!(replies.is_empty() && relays.is_empty());
    assert_eq!(server.clients[id].as_ref().unwrap().mana, Some(PlayerMana { client_id: id as u8, current: 20, maximum: 200 }));
}

#[test]
fn buffs_and_loadout_are_relayed() {
    let (mut server, id) = authenticated();
    let mut buffs = [0u16; 44];
    buffs[0] = 5;
    let (_, relays) = server.handle_message(Message::PlayerBuffs(PlayerBuffs { client_id: 9, buffs }), id);
    assert!(matches!(relays[..], [(Message::PlayerBuffs(b), Some(_))] if b.client_id == id as u8 && b.buffs[0] == 5));
    let (_, relays) = server.handle_message(Message::PlayerLoadout(PlayerLoadout { client_id: 9, index: 2, hide_accessory: 7 }), id);
    assert!(matches!(relays[..], [(Message::PlayerLoadout(l), Some(_))] if l == PlayerLoadout { client_id: id as u8, index: 2, hide_accessory: 7 }));
    assert_eq!(server.clients[id].as_ref().unwrap().loadout.unwrap().index, 2);
}

#[test]
fn inventory_slots_in_range_are_kept() {
    let (mut server, id) = authenticated();
    let slot = PlayerInventorySlot { client_id: 1, slot_id: 349, amount: 3, prefix: 0, item_id: 42 };
    let (_, relays) = server.handle_message(Message::PlayerInventorySlot(slot), id);
    assert_eq!(relays.len(), 1);
    assert_eq!(server.clients[id].as_ref().unwrap().inventory[349], Some(PlayerInventorySlot { client_id: id as u8, ..slot }));
    for bad in [350i16, -1] {
        let (replies, relays) = server.handle_message(Message::PlayerInventorySlot(PlayerInventorySlot { slot_id: bad, ..slot }), id);
        assert!(replies.is_empty() && relays.is_empty());
    }
}

#[test]
fn uuid_is_stored() {
    let (mut server, id) = authenticated();
    server.handle_message(Message::UUID("0123-abcd".to_string()), id);
    assert_eq!(server.clients[id].as_ref().unwrap().uuid.as_deref(), Some("0123-abcd"));
}

#[test]
fn world_request_gets_the_header() {
    let (mut server, id) = authenticated();
    server.surface_row = 300;
    server.rock_row = 450;
    let (replies, relays) = server.handle_message(Message::WorldRequest, id);
    assert!(relays.is_empty());
    match &replies[..] {
        [Message::WorldHeader(w)] => {
            assert_eq!(w.width, 8400);
            assert_eq!(w.height, 2400);
            assert_eq!(w.world_surface, 300);
            assert_eq!(w.rock_layer, 450);
            assert_eq!(w.name, "Test World");
            assert_eq!(w.uuid, [7u8; 16]);
        },
        other => panic!("unexpected replies {:?}", other),
    }
}

#[test]
fn other_clients_are_untouched() {
    let (mut server, a) = authenticated();
    let b = server.connect().ok().unwrap();
    server.handle_message(Message::PlayerDetails(details("Guide")), a);
    assert_eq!(state(&server, b), ConnectionState::New);
    assert!(server.clients[b].as_ref().unwrap().details.is_none());
}

#[test]
fn unknown_messages_are_ignored() {
    let (mut server, id) = authenticated();
    let (replies, relays) = server.handle_message(Message::Unknown(200, vec![1, 2, 3]), id);
    assert!(replies.is_empty() && relays.is_empty());
    assert_eq!(state(&server, id), ConnectionState::Authenticated);
}

#[test]
fn game_mode_is_kept_in_blank_world() {
    assert_eq!(blank_world().header.game_mode, GameMode::Normal);
}

#[test]
fn frame_lengths_count_their_own_two_bytes() {
    assert_eq!(body_length(0), None);
    assert_eq!(body_length(1), None);
    assert_eq!(body_length(2), Some(0));
    assert_eq!(body_length(8), Some(6));
    assert_eq!(body_length(u16::MAX), Some(65533));
}

#[test]
fn relays_skip_the_named_client() {
    assert!(relay_reaches(None, 3));
    assert!(relay_reaches(Some(2), 3));
    assert!(!relay_reaches(Some(3), 3));
}

#[test]
fn a_name_is_free_again_after_its_player_leaves() {
    let (mut server, a) = authenticated();
    server.handle_message(Message::PlayerDetails(details("Guide")), a);
    server.disconnect(a);
    let b = server.connect().ok().unwrap();
    server.handle_message(Message::VersionIdentifier(GAME_VERSION.to_string()), b);
    let (replies, _) = server.handle_message(Message::PlayerDetails(details("Guide")), b);
    assert!(replies.is_empty());
    assert_eq!(state(&server, b), ConnectionState::DetailsReceived);
}

/// A world of plain empty tiles, `width` by `height`, spawning at (400, 150), with three
/// kill counts.
fn tiled_world(width: i32, height: i32) -> World {
    let mut world = blank_world();
    world.header.width = width;
    world.header.height = height;
    world.header.spawn_tile_x = 400;
    world.header.spawn_tile_y = 150;
    world.header.npc_kill_counts = vec![5, 6, 7];
    world.format.importance = vec![false; 700];
    world.tiles = vec![vec![Tile::default(); height as usize]; width as usize];
    world
}

/// A server on `world` with one client whose details were received.
fn joined(world: World) -> (Server, usize) {
    let mut server = Server::new(world, "", 0, 0);
    let id = server.connect().ok().unwrap();
    server.handle_message(Message::VersionIdentifier(GAME_VERSION.to_string()), id);
    server.handle_message(Message::PlayerDetails(details("Guide")), id);
    assert_eq!(state(&server, id), ConnectionState::DetailsReceived);
    (server, id)
}

fn is_section(m: &Message) -> bool {
    matches!(m, Message::Unknown(10, _))
}

#[test]
fn spawn_request_before_details_is_refused() {
    let (mut server, id) = authenticated();
    let request = SpawnRequest { x: 0, y: 0 };
    assert!(server.can_serve_spawn(id, request));
    let (replies, relays) = server.handle_message(Message::SpawnRequest(request), id);
    assert_eq!(replies.len(), 1);
    assert_eq!(refusal_key(&replies[0]), Some("LegacyMultiplayer.1".to_string()));
    assert!(relays.is_empty());
    assert_eq!(state(&server, id), ConnectionState::Authenticated);
}

#[test]
fn spawn_request_sends_header_spawn_sections_and_kill_counts() {
    let (mut server, id) = joined(tiled_world(800, 300));
    let request = SpawnRequest { x: 5, y: 5 };
    assert!(server.can_serve_spawn(id, request));
    let (replies, relays) = server.handle_message(Message::SpawnRequest(request), id);
    assert!(relays.is_empty());
    assert_eq!(replies.len(), 1 + 8 + 3);
    assert!(matches!(replies[0], Message::WorldHeader(_)));
    assert!(replies[1..9].iter().all(is_section));
    assert!(matches!(replies[9], Message::KillCount(KillCount { id: 0, amount: 5 })));
    assert!(matches!(replies[10], Message::KillCount(KillCount { id: 1, amount: 6 })));
    assert!(matches!(replies[11], Message::KillCount(KillCount { id: 2, amount: 7 })));
    let client = server.clients[id].as_ref().unwrap();
    assert!(client.loaded_sections.iter().all(|column| column.iter().all(|&sent| sent)));
    assert_eq!(client.state, ConnectionState::DetailsReceived);
    // the sections already sent are not sent again
    let (replies, _) = server.handle_message(Message::SpawnRequest(request), id);
    assert_eq!(replies.len(), 1 + 3);
}

#[test]
fn spawn_request_inside_the_edges_sends_the_sections_near_it() {
    let (mut server, id) = joined(tiled_world(1600, 300));
    let request = SpawnRequest { x: 1400, y: 200 };
    assert!(server.can_serve_spawn(id, request));
    let (replies, _) = server.handle_message(Message::SpawnRequest(request), id);
    // spawn: columns 0..4, rows 0..2; request: columns 5..7, row 0
    assert_eq!(replies.len(), 1 + 8 + 2 + 3);
    assert!(replies[1..11].iter().all(is_section));
    let client = server.clients[id].as_ref().unwrap();
    assert!(client.loaded_sections[5][0] && client.loaded_sections[6][0]);
    assert!(!client.loaded_sections[5][1] && !client.loaded_sections[7][0] && !client.loaded_sections[4][0]);
}

#[test]
fn kill_counts_stop_at_290() {
    let mut world = tiled_world(800, 300);
    world.header.npc_kill_counts = (0..300).collect();
    let (mut server, id) = joined(world);
    let (replies, _) = server.handle_message(Message::SpawnRequest(SpawnRequest { x: 0, y: 0 }), id);
    assert_eq!(replies.len(), 1 + 8 + 290);
    assert!(matches!(replies[9 + 289], Message::KillCount(KillCount { id: 289, amount: 289 })));
}

#[test]
fn spawn_request_near_the_world_origin_cannot_be_served() {
    // the spawn point of the blank world lies in the first section column
    let mut server = Server::new(blank_world(), "", 0, 0);
    let id = server.connect().ok().unwrap();
    server.handle_message(Message::VersionIdentifier(GAME_VERSION.to_string()), id);
    server.handle_message(Message::PlayerDetails(details("Guide")), id);
    assert!(!server.can_serve_spawn(id, SpawnRequest { x: 0, y: 0 }));
}

#[test]
fn sections_outside_the_world_or_with_unknown_types_are_not_encodable() {
    let world = tiled_world(800, 300);
    assert!(section_is_encodable(&world, 3, 1));
    assert!(!section_is_encodable(&world, 4, 0));
    assert!(!section_is_encodable(&world, 0, 2));
    let mut odd = tiled_world(800, 300);
    odd.tiles[10][10] = Tile { id: 900, active: true, ..Tile::default() };
    assert!(!section_is_encodable(&odd, 0, 0));
    assert!(section_is_encodable(&odd, 1, 0));
    let mut chestless = tiled_world(800, 300);
    chestless.format.importance[21] = true;
    chestless.tiles[3][1] = Tile { id: 21, active: true, ..Tile::default() };
    assert!(!section_is_encodable(&chestless, 0, 0));
}
