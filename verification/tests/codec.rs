use terraria_server::binary::le::{u16_from_le, u16_to_le, u32_from_le, u32_to_le, u64_from_le, u64_to_le};
use terraria_server::binary::reader::Reader;
use terraria_server::binary::types::{Text, RGB, Vector2};
use terraria_server::binary::writer::{MessageWriter, Writer};
use terraria_server::network::messages::{
    Message, PlayerHealth, PlayerInventorySlot, PlayerLoadout, Sanitize, SpawnRequest,
};
use terraria_server::network::utils::{flags, get_section_x, get_section_y, get_sections_near, pick_in_range, rr};

#[test]
fn little_endian_round_trips() {
    assert_eq!(u16_to_le(0x1234), [0x34, 0x12]);
    assert_eq!(u16_from_le(&[0x34, 0x12]), 0x1234);
    assert_eq!(u32_to_le(0xdeadbeef), [0xef, 0xbe, 0xad, 0xde]);
    assert_eq!(u32_from_le(&[0xef, 0xbe, 0xad, 0xde]), 0xdeadbeef);
    let b = u64_to_le(0x0102030405060708);
    assert_eq!(b, [8, 7, 6, 5, 4, 3, 2, 1]);
    assert_eq!(u64_from_le(&b), 0x0102030405060708);
}

#[test]
fn lengths_are_written_in_seven_bit_groups() {
    let cases: [(usize, Vec<u8>); 4] = [
        (0, vec![0]),
        (127, vec![127]),
        (128, vec![0x80, 0x01]),
        (300, vec![0xac, 0x02]),
    ];
    for (n, bytes) in cases {
        let mut w = Writer::new(Vec::new());
        w.write_length(n);
        let out = w.into_inner();
        assert_eq!(out, bytes);
        let mut r = Reader::new(&out);
        assert_eq!(r.read_length(), n);
    }
}

#[test]
fn strings_carry_their_byte_length() {
    let mut w = Writer::new(Vec::new());
    w.write_string("héllo");
    let out = w.into_inner();
    assert_eq!(out[0], 6);
    assert_eq!(&out[1..], "héllo".as_bytes());
    let mut r = Reader::new(&out);
    assert_eq!(r.read_string(), "héllo");
}

#[test]
fn numbers_are_little_endian() {
    let mut w = Writer::new(Vec::new());
    w.write_i16(-2);
    w.write_i32(1);
    w.write_u64(5);
    w.write_bool(true);
    w.write_rgb(RGB(1, 2, 3));
    w.write_vector2(Vector2(0x3f800000, 0));
    let out = w.into_inner();
    assert_eq!(&out[0..2], &[0xfe, 0xff]);
    assert_eq!(&out[2..6], &[1, 0, 0, 0]);
    assert_eq!(&out[6..14], &[5, 0, 0, 0, 0, 0, 0, 0]);
    assert_eq!(out[14], 1);
    assert_eq!(&out[15..18], &[1, 2, 3]);
    let mut r = Reader::new(&out);
    assert_eq!(r.read_i16(), -2);
    assert_eq!(r.read_i32(), 1);
    assert_eq!(r.read_u64(), 5);
    assert!(r.read_bool());
    assert_eq!(r.read_rgb(), RGB(1, 2, 3));
    assert_eq!(r.read_vector2(), Vector2(0x3f800000, 0));
}

#[test]
fn texts_round_trip() {
    let t = Text::Key("Game.Key".to_string(), vec![Text::Literal("a".to_string()), Text::Formattable("{0}".to_string(), vec![])]);
    let mut w = Writer::new(Vec::new());
    w.write_text(&t);
    let out = w.into_inner();
    assert_eq!(out[0], 2);
    let mut r = Reader::new(&out);
    match r.read_text() {
        Text::Key(k, subs) => {
            assert_eq!(k, "Game.Key");
            assert_eq!(subs.len(), 2);
            assert!(matches!(&subs[0], Text::Literal(s) if s == "a"));
            assert!(matches!(&subs[1], Text::Formattable(f, s) if f == "{0}" && s.is_empty()));
        },
        other => panic!("unexpected text {:?}", other),
    }
}

#[test]
fn message_writer_puts_length_first() {
    let mut m = MessageWriter::new(16);
    m.inner_mut().write_byte(9);
    m.inner_mut().write_i16(300);
    assert_eq!(m.finalize(), vec![6, 0, 16, 9, 0x2c, 0x01]);
}

#[test]
fn health_message_frame() {
    let m = Message::PlayerHealth(PlayerHealth { client_id: 3, current: 250, maximum: 500 });
    let bytes = m.to_bytes().unwrap();
    assert_eq!(bytes, vec![8, 0, 16, 3, 250, 0, 0xf4, 0x01]);
    match Message::from_bytes(&bytes[2..]) {
        Message::PlayerHealth(h) => assert_eq!(h, PlayerHealth { client_id: 3, current: 250, maximum: 500 }),
        other => panic!("unexpected message {:?}", other),
    }
}

#[test]
fn messages_round_trip() {
    let msgs = vec![
        Message::PlayerInventorySlot(PlayerInventorySlot { client_id: 1, slot_id: 2, amount: 3, prefix: 4, item_id: 5 }),
        Message::PlayerLoadout(PlayerLoadout { client_id: 1, index: 2, hide_accessory: 0x0102 }),
        Message::PlayerHealth(PlayerHealth { client_id: 9, current: -5, maximum: 32000 }),
        Message::Unknown(200, vec![9, 8, 7]),
    ];
    for m in msgs {
        let bytes = m.to_bytes().unwrap();
        assert_eq!(u16_from_le(&bytes[0..2]) as usize, bytes.len());
        let back = Message::from_bytes(&bytes[2..]);
        assert_eq!(format!("{:?}", back), format!("{:?}", m));
    }
}

#[test]
fn client_messages_cannot_be_written() {
    let msgs = vec![
        Message::VersionIdentifier("Terraria279".to_string()),
        Message::WorldRequest,
        Message::SpawnRequest(SpawnRequest { x: -1, y: 42 }),
        Message::PasswordResponse("pw".to_string()),
        Message::UUID("id".to_string()),
    ];
    for m in msgs {
        assert!(m.to_bytes().is_err());
    }
}

#[test]
fn client_messages_are_read() {
    // code 1, then the version as a length-prefixed string
    let mut body = vec![1u8, 11];
    body.extend_from_slice(b"Terraria279");
    assert!(matches!(Message::from_bytes(&body), Message::VersionIdentifier(v) if v == "Terraria279"));
    assert!(matches!(Message::from_bytes(&[6]), Message::WorldRequest));
    let spawn = [8u8, 0xff, 0xff, 0xff, 0xff, 42, 0, 0, 0];
    assert!(matches!(Message::from_bytes(&spawn), Message::SpawnRequest(SpawnRequest { x: -1, y: 42 })));
}

#[test]
fn server_messages_can_be_written() {
    assert_eq!(Message::PasswordRequest.to_bytes().unwrap(), vec![3, 0, 37]);
    let refuse = Message::ConnectionRefuse(Text::Key("LegacyMultiplayer.1".to_string(), vec![]));
    let bytes = refuse.to_bytes().unwrap();
    assert_eq!(bytes[2], 2);
    assert_eq!(bytes[3], 2);
}

#[test]
fn short_unknown_code_keeps_the_body() {
    match Message::from_bytes(&[250, 1, 2]) {
        Message::Unknown(code, body) => {
            assert_eq!(code, 250);
            assert_eq!(body, vec![1, 2]);
        },
        other => panic!("unexpected message {:?}", other),
    }
}

#[test]
fn sanitize_takes_the_sender_slot() {
    let mut h = PlayerHealth { client_id: 7, current: 10, maximum: 99 };
    h.sanitize(2);
    assert_eq!(h, PlayerHealth { client_id: 2, current: 10, maximum: 100 });
    let mut h = PlayerHealth { client_id: 7, current: 10, maximum: 100 };
    h.sanitize(2);
    assert_eq!(h.maximum, 100);
    let mut h = PlayerHealth { client_id: 7, current: 10, maximum: 200 };
    h.sanitize(2);
    assert_eq!(h.maximum, 200);
}

#[test]
fn flags_put_the_first_in_the_lowest_bit() {
    assert_eq!(flags(true, false, false, false, false, false, false, false), 1);
    assert_eq!(flags(false, true, false, true, false, false, false, true), 0b1000_1010);
    assert_eq!(flags(true, true, true, true, true, true, true, true), 255);
}

#[test]
fn sections_are_two_hundred_by_one_hundred_fifty_tiles() {
    assert_eq!(get_section_x(0), 0);
    assert_eq!(get_section_x(199), 0);
    assert_eq!(get_section_x(450), 2);
    assert_eq!(get_section_y(149), 0);
    assert_eq!(get_section_y(150), 1);
    assert_eq!(get_sections_near(1000, 400, 42, 16), (3, 7, 1, 3));
    assert_eq!(get_sections_near(8300, 2300, 42, 16), (39, 42, 14, 16));
}

#[test]
fn decodable_bodies_have_all_their_fields() {
    assert!(!Message::is_decodable(&[]));
    assert!(Message::is_decodable(&[6]));
    assert!(Message::is_decodable(&[16, 1, 2, 3, 4, 5]));
    assert!(!Message::is_decodable(&[16, 1, 2, 3, 4]));
    assert!(Message::is_decodable(&[1, 2, b'o', b'k']));
    assert!(!Message::is_decodable(&[1, 3, b'o', b'k']));
    let mut buffs = vec![50u8; 90];
    assert!(Message::is_decodable(&buffs));
    buffs.pop();
    assert!(!Message::is_decodable(&buffs));
    // player details: three bytes, a name, then twenty-eight bytes
    let mut details = vec![4u8, 0, 0, 0, 1, b'x'];
    details.extend(vec![0u8; 28]);
    assert!(Message::is_decodable(&details));
    details.pop();
    assert!(!Message::is_decodable(&details));
    // unknown codes need nothing more
    assert!(Message::is_decodable(&[200]));
}

#[test]
fn random_numbers_fall_in_range() {
    assert_eq!(pick_in_range(17, 10, 14), 17 % 5 + 10);
    assert_eq!(pick_in_range(u64::MAX, 0, 9), u64::MAX % 10);
    for _ in 0..100 {
        let r = rr(3, 7);
        assert!((3..=7).contains(&r));
    }
    assert_eq!(rr(5, 5), 5);
}
