use terraria_server::world::binary::SafeReader;
use terraria_server::world::entity::EntityInner;
use terraria_server::world::types::{FileType, GameMode, Header, Metadata, World, WorldParseError};

/// Builds world files byte by byte.
struct FileWriter {
    v: Vec<u8>,
}

impl FileWriter {
    fn u8(&mut self, b: u8) {
        self.v.push(b);
    }
    fn bool(&mut self, b: bool) {
        self.v.push(b as u8);
    }
    fn bools(&mut self, n: usize) {
        for _ in 0..n {
            self.bool(false);
        }
    }
    fn i16(&mut self, x: i16) {
        self.v.extend_from_slice(&x.to_le_bytes());
    }
    fn u16(&mut self, x: u16) {
        self.v.extend_from_slice(&x.to_le_bytes());
    }
    fn i32(&mut self, x: i32) {
        self.v.extend_from_slice(&x.to_le_bytes());
    }
    fn i32s(&mut self, n: usize) {
        for _ in 0..n {
            self.i32(0);
        }
    }
    fn u32(&mut self, x: u32) {
        self.v.extend_from_slice(&x.to_le_bytes());
    }
    fn u64(&mut self, x: u64) {
        self.v.extend_from_slice(&x.to_le_bytes());
    }
    fn f32(&mut self, x: f32) {
        self.v.extend_from_slice(&x.to_le_bytes());
    }
    fn f64(&mut self, x: f64) {
        self.v.extend_from_slice(&x.to_le_bytes());
    }
    fn string(&mut self, s: &str) {
        assert!(s.len() < 128);
        self.u8(s.len() as u8);
        self.v.extend_from_slice(s.as_bytes());
    }
    fn pos(&self) -> i32 {
        self.v.len() as i32
    }
}

const NAME: &str = "Tiny";
const ID: i32 = 4242;

fn header(w: &mut FileWriter) {
    versioned_header(w, 279);
}

/// A header as the given version writes it.
fn versioned_header(w: &mut FileWriter, v: i32) {
    w.string(NAME);
    if v >= 179 {
        if v == 179 {
            w.i32(-512);
        } else {
            w.string("seed");
        }
        w.u64(7);
    }
    if v >= 181 {
        w.v.extend_from_slice(&[9u8; 16]);
    }
    w.i32(ID);
    w.i32(0); // left
    w.i32(32); // right
    w.i32(0); // top
    w.i32(48); // bottom
    w.i32(3); // height
    w.i32(2); // width
    if v >= 209 {
        w.i32(1); // game mode
    } else {
        if v >= 112 {
            w.bool(true); // expert
        }
        if v == 208 {
            w.bool(false); // master
        }
    }
    for since in [222, 227, 238, 239, 241, 249, 266, 267] {
        if v >= since {
            w.bool(false); // seed flags
        }
    }
    if v >= 141 {
        w.u64(123); // creation time
    }
    w.u8(2); // moon type
    w.i32s(14); // tree and cave backgrounds
    w.i32s(3); // ice, jungle and hell backgrounds
    w.i32(1); // spawn x
    w.i32(1); // spawn y
    w.f64(350.0); // surface
    w.f64(480.5); // rock layer
    w.f64(13500.0); // time
    w.bool(true); // day
    w.i32(3); // moon phase
    w.bools(2); // blood moon, eclipse
    w.i32s(2); // dungeon
    w.bool(true); // crimson
    w.bools(10); // bosses
    if v >= 118 {
        w.bool(false); // slime king
    }
    w.bools(9); // saved and downed
    w.u8(0); // shadow orbs
    w.i32(0); // altars
    w.bool(false); // hard mode
    if v >= 257 {
        w.bool(false); // after party of doom
    }
    w.i32s(3); // invasion
    w.f64(0.0); // invasion x
    if v >= 118 {
        w.f64(0.0); // slime rain
    }
    if v >= 113 {
        w.u8(0); // sundial
    }
    w.bool(false); // raining
    w.i32(0); // rain time
    w.f32(0.0); // max rain
    w.i32s(3); // ore tiers
    w.v.extend_from_slice(&[1, 2, 3, 4, 5, 6, 7, 8]); // backgrounds
    w.i32(0); // cloud background
    w.i16(5); // clouds
    w.f32(0.25); // wind
    if v >= 95 {
        w.i32(1); // anglers who finished today
        w.string("Angler");
    }
    if v >= 99 {
        w.bool(false); // saved angler
    }
    if v >= 101 {
        w.i32(6); // angler quest
    }
    for since in [104, 129, 201] {
        if v >= since {
            w.bool(false); // stylist, tax collector, golfer
        }
    }
    if v >= 107 {
        w.i32(0); // invasion size start
    }
    if v >= 108 {
        w.i32(86400); // cultist delay
    }
    if v >= 109 {
        w.i16(2); // kill counts
        w.i32(10);
        w.i32(20);
    }
    if v >= 128 {
        w.bool(false); // fast forward to dawn
    }
    if v >= 131 {
        w.bools(9); // late bosses
    }
    if v >= 140 {
        w.bools(9); // pillars
    }
    if v >= 170 {
        w.bools(2); // party
        w.i32(0); // party cooldown
        w.i32(0); // celebrating npcs
    }
    if v >= 174 {
        w.bool(false); // sandstorm
        w.i32(0);
        w.f32(0.0);
        w.f32(0.0);
    }
    if v >= 178 {
        w.bools(4); // bartender and old one's army
    }
    if v >= 193 {
        w.u8(9);
    }
    if v >= 215 {
        w.u8(10);
    }
    if v >= 194 {
        w.v.extend_from_slice(&[11, 12, 13]);
    }
    if v >= 204 {
        w.bool(false); // combat book
    }
    if v >= 207 {
        w.i32(0); // lantern night
        w.bools(3);
    }
    if v >= 211 {
        w.i32(13); // tree top variations
        w.i32s(13);
    }
    if v >= 212 {
        w.bools(2); // forced seasons
    }
    if v >= 216 {
        w.i32s(4); // ore tiers
    }
    if v >= 217 {
        w.bools(3); // pets
    }
    if v >= 223 {
        w.bools(2); // empress, queen slime
    }
    if v >= 240 {
        w.bool(false); // deerclops
    }
    if v >= 251 {
        w.bools(9); // town slimes and npcs
    }
    if v >= 259 {
        w.bool(false); // combat book two
    }
    if v >= 260 {
        w.bool(false); // peddler's satchel
    }
    if v >= 261 {
        w.bools(7); // slimes
    }
    if v >= 264 {
        w.bool(false); // fast forward to dusk
        w.u8(0); // moondial
    }
}

fn read_versioned_header(v: i32) -> (Header, usize, usize) {
    let mut w = FileWriter { v: Vec::new() };
    versioned_header(&mut w, v);
    let len = w.v.len();
    let metadata = Metadata { version: v, file_type: FileType::World, revision: 0, favorite: false };
    let mut r = SafeReader::new(w.v);
    let h = World::read_header(&mut r, &metadata).unwrap();
    (h, r.get_cur(), len)
}

#[test]
fn seed_of_version_179_is_a_number() {
    let (h, cur, len) = read_versioned_header(179);
    assert_eq!(cur, len);
    assert_eq!(h.seed_text, "-512");
    assert_eq!(h.worldgen_version, 7);
    assert_eq!(h.uuid, None);
    assert_eq!(h.game_mode, GameMode::Expert);
    // before version 211 the tree top variations come from the tree styles and backgrounds
    assert_eq!(h.tree_top_variations, vec![0, 0, 0, 0, 2, 3, 4, 5, 6, 7, 8, 0, 0]);
}

#[test]
fn older_headers_default_what_they_lack() {
    let (h, cur, len) = read_versioned_header(150);
    assert_eq!(cur, len);
    assert_eq!(h.seed_text, "");
    assert_eq!(h.uuid, None);
    assert_eq!(h.ore_tier_copper, -1);
    assert_eq!(h.temp_cultist_delay, 86400);
    let (h, cur, len) = read_versioned_header(208);
    assert_eq!(cur, len);
    assert_eq!(h.game_mode, GameMode::Expert);
    assert_eq!(h.bg[9], 0);
}

/// A world of 2 by 3 tiles with a sign, a chest, an NPC and a target dummy, as
/// version 279 writes it.
fn tiny_world() -> Vec<u8> {
    let mut w = FileWriter { v: Vec::new() };
    w.i32(279);
    w.v.extend_from_slice(b"relogic");
    w.u8(2);
    w.u32(0);
    w.u64(1);
    // eleven section positions, filled in at the end
    w.i16(11);
    let positions_at = w.v.len();
    w.i32s(11);
    // importance of 64 tile types: only 55 (signs)
    w.u16(64);
    let mut bits = [0u8; 8];
    bits[55 / 8] |= 1 << (55 % 8);
    w.v.extend_from_slice(&bits);
    let mut positions = vec![w.pos()];
    header(&mut w);
    positions.push(w.pos());
    // column 0: three empty tiles; column 1: dirt, a sign, water
    w.u8(64);
    w.u8(2);
    w.u8(2);
    w.u8(0);
    w.u8(2);
    w.u8(55);
    w.i16(0);
    w.i16(0);
    w.u8(8);
    w.u8(200);
    positions.push(w.pos());
    // chests: one, with 41 slots, the first holding two of item 12
    w.i16(1);
    w.i16(41);
    w.i32(0);
    w.i32(2);
    w.string("Chest");
    w.i16(2);
    w.i32(12);
    w.u8(0);
    for _ in 1..40 {
        w.i16(0);
    }
    w.i16(0);
    positions.push(w.pos());
    // signs: one on the sign tile, one where there is none
    w.i16(2);
    w.string("hello");
    w.i32(1);
    w.i32(1);
    w.string("lost");
    w.i32(0);
    w.i32(0);
    positions.push(w.pos());
    // npcs: no shimmered ones, the guide, no updates
    w.i32(0);
    w.bool(true);
    w.i32(22);
    w.string("Andrew");
    w.f32(16.0);
    w.f32(32.0);
    w.bool(false);
    w.i32(1);
    w.i32(2);
    w.u8(1);
    w.i32(3);
    w.bool(false);
    w.bool(false);
    positions.push(w.pos());
    // entities: a target dummy
    w.i32(1);
    w.u8(0);
    w.i32(5);
    w.i16(1);
    w.i16(0);
    w.i16(-1);
    positions.push(w.pos());
    w.i32(0); // pressure plates
    positions.push(w.pos());
    w.i32(0); // rooms
    positions.push(w.pos());
    w.i32(1); // bestiary kills
    w.string("Zombie");
    w.i32(7);
    w.i32(0);
    w.i32(0);
    positions.push(w.pos());
    w.bool(true); // creative powers: freeze time, then the end
    w.i16(0);
    w.bool(true);
    w.bool(false);
    positions.push(w.pos());
    w.bool(true);
    w.string(NAME);
    w.i32(ID);
    for (k, p) in positions.iter().enumerate() {
        w.v[positions_at + 4 * k..positions_at + 4 * k + 4].copy_from_slice(&p.to_le_bytes());
    }
    w.v
}

#[test]
fn tiny_world_is_read() {
    let bytes = tiny_world();
    let mut r = SafeReader::new(bytes.clone());
    let world = World::from_reader(&mut r).unwrap();
    assert_eq!(r.get_cur(), bytes.len());
    assert_eq!(world.metadata.version, 279);
    assert_eq!(world.metadata.file_type, FileType::World);
    assert!(world.metadata.favorite);
    let h = &world.header;
    assert_eq!(h.name, NAME);
    assert_eq!(h.seed_text, "seed");
    assert_eq!(h.uuid, Some([9u8; 16]));
    assert_eq!((h.width, h.height, h.id), (2, 3, ID));
    assert_eq!(h.game_mode, GameMode::Expert);
    assert_eq!(h.creation_time, 123);
    assert_eq!(f64::from_bits(h.world_surface), 350.0);
    assert_eq!(f64::from_bits(h.rock_layer), 480.5);
    assert!(h.temp_day_time && h.has_crimson);
    assert_eq!(h.temp_moon_phase, 3);
    assert_eq!(h.bg, [1, 2, 3, 4, 5, 6, 7, 8, 9, 10, 11, 12, 13]);
    assert_eq!(h.num_clouds, 5);
    assert_eq!(h.angler_who_finished_today, vec!["Angler".to_string()]);
    assert_eq!(h.angler_quest, 6);
    assert_eq!(h.npc_kill_counts, vec![10, 20]);
    assert_eq!(h.tree_top_variations.len(), 13);

    assert_eq!(world.tiles.len(), 2);
    assert!(world.tiles[0].len() == 3 && world.tiles[0].iter().all(|t| !t.active));
    assert!(world.tiles[1][0].active && world.tiles[1][0].id == 0);
    assert_eq!((world.tiles[1][1].id, world.tiles[1][1].frame_x), (55, 0));
    assert_eq!(world.tiles[1][2].liquid, 200);

    assert_eq!(world.chests.len(), 1);
    assert_eq!(world.chests[0].name, "Chest");
    assert_eq!(world.chests[0].items.len(), 40);
    assert_eq!(world.chests[0].items[0].stack, 2);

    assert_eq!(world.signs.len(), 1);
    assert_eq!((world.signs[0].x, world.signs[0].y, world.signs[0].text.as_str()), (1, 1, "hello"));

    assert_eq!(world.npcs.len(), 1);
    assert_eq!(world.npcs[0].name, "Andrew");
    assert_eq!(world.npcs[0].variation, 3);
    assert!(!world.npcs[0].shimmer);

    assert_eq!(world.entities.len(), 1);
    assert!(matches!(world.entities[0].inner, EntityInner::Dummy { npc: -1 }));
    assert_eq!(world.bestiary.kills, vec![("Zombie".to_string(), 7)]);
    assert_eq!(world.creative_powers.len(), 1);
}

#[test]
fn wrong_footer_is_refused() {
    let mut bytes = tiny_world();
    let n = bytes.len();
    bytes[n - 1] ^= 1;
    let mut r = SafeReader::new(bytes);
    assert!(matches!(World::from_reader(&mut r), Err(WorldParseError::InvalidFooter)));
}

#[test]
fn misplaced_section_is_refused() {
    let mut bytes = tiny_world();
    // the chests' position, one byte off
    let at = 4 + 7 + 1 + 4 + 8 + 2 + 4 * 3;
    let p = i32::from_le_bytes(bytes[at..at + 4].try_into().unwrap());
    bytes[at..at + 4].copy_from_slice(&(p + 1).to_le_bytes());
    let mut r = SafeReader::new(bytes);
    match World::from_reader(&mut r) {
        Err(WorldParseError::PositionCheckFailed(s)) => assert_eq!(s, "chests"),
        other => panic!("unexpected result {:?}", other.map(|w| w.header.name)),
    }
}

#[test]
fn bad_signature_and_file_type() {
    let mut bytes = tiny_world();
    bytes[4] = b'x';
    assert!(matches!(World::from_reader(&mut SafeReader::new(bytes)), Err(WorldParseError::BadFileSignature)));
    let mut bytes = tiny_world();
    bytes[11] = 1;
    assert!(matches!(World::from_reader(&mut SafeReader::new(bytes)), Err(WorldParseError::ExpectedWorldType)));
    let mut bytes = tiny_world();
    bytes[0..4].copy_from_slice(&280i32.to_le_bytes());
    assert!(matches!(World::from_reader(&mut SafeReader::new(bytes)), Err(WorldParseError::UnsupportedVersion(280))));
}

#[test]
fn old_worlds_take_the_file_creation_time() {
    let bytes = tiny_world();
    let mut world = World::from_reader(&mut SafeReader::new(bytes)).unwrap();
    world.apply_file_creation_time(99);
    assert_eq!(world.header.creation_time, 123);
    world.metadata.version = 140;
    world.apply_file_creation_time(99);
    assert_eq!(world.header.creation_time, 99);
}
