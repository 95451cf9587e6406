use peppi::character::External;
use peppi::error::Error;
use peppi::float::Single;
use peppi::game::{
    DashBack, EndMethod, PlayerType, ShieldDrop, SlippiVersion, StartV1_5, StartV2_0, Team,
    TeamColor, TeamShade,
};
use peppi::parse::game_events::{
    game_end, game_end_v2_0, game_start, game_start_v1_5, game_start_v2_0, name_tag_len, player,
    player_bytes_v1_0, player_bytes_v1_3, player_v1_0, player_v1_3, with_name_tag,
};
use peppi::stage::Stage;

fn single(v: f32) -> Single {
    Single { bits: v.to_bits() }
}

fn tag(bytes: &[u8]) -> [u8; 16] {
    let mut r = [0; 16];
    r[..bytes.len()].copy_from_slice(bytes);
    r
}

fn player_bytes(kind: u8) -> [u8; 36] {
    let mut v = [0xee; 36];
    v[0] = 2;
    v[1] = kind;
    v[2] = 4;
    v[3] = 1;
    v[7] = 6;
    v[8] = 9;
    v[9] = 3;
    v[12] = 0xc0;
    v[15] = 5;
    v[20..24].copy_from_slice(&1.0f32.to_be_bytes());
    v[24..28].copy_from_slice(&2.0f32.to_be_bytes());
    v[28..32].copy_from_slice(&3.0f32.to_be_bytes());
    v
}

fn start_payload() -> Vec<u8> {
    let mut v = vec![0xaa; 320];
    v[0..4].copy_from_slice(&[2, 0, 1, 99]);
    v[4..8].copy_from_slice(&[0x32, 0x01, 0x86, 0x4c]);
    v[12] = 1;
    v[15] = 0xff;
    v[16] = 0xfe;
    v[18..20].copy_from_slice(&[0, 31]);
    v[20..24].copy_from_slice(&480u32.to_be_bytes());
    v[39..44].copy_from_slice(&[1, 2, 3, 4, 5]);
    v[52..56].copy_from_slice(&1.5f32.to_be_bytes());
    for (port, kind) in [0u8, 1, 3, 2].iter().enumerate() {
        v[100 + 36 * port..136 + 36 * port].copy_from_slice(&player_bytes(*kind));
    }
    v[316..320].copy_from_slice(&0x1234_5678u32.to_be_bytes());
    v
}

fn start_v1_0() -> Vec<u8> {
    let mut v = Vec::new();
    for port in 0..4u32 {
        v.extend(port.to_be_bytes());
        v.extend((10 * port).to_be_bytes());
    }
    v
}

fn start_v1_3() -> Vec<u8> {
    let mut v = Vec::new();
    for name in ["ONE", "TWO", "THREE", "FOUR"] {
        v.extend(tag(name.as_bytes()));
    }
    v
}

#[test]
fn name_tags_end_at_the_first_null() {
    assert_eq!(name_tag_len(&tag(b"ABCD")), 4);
    assert_eq!(name_tag_len(&tag(b"")), 0);
    assert_eq!(name_tag_len(&[b'x'; 16]), 16);
    assert_eq!(name_tag_len(&tag(b"AB\0CD")), 2);
}

#[test]
fn name_tags_are_shift_jis() {
    assert_eq!(player_v1_3(tag(b"MANG0")).unwrap().name_tag, "MANG0");
    let katakana = [0x83, 0x65, 0x83, 0x58, 0x83, 0x67];
    assert_eq!(player_v1_3(tag(&katakana)).unwrap().name_tag, "\u{30c6}\u{30b9}\u{30c8}");
    // full-width letters, as the game writes them
    assert_eq!(player_v1_3(tag(&[0x82, 0x60, 0x82, 0x61])).unwrap().name_tag, "\u{ff21}\u{ff22}");
    // half-width katakana take one byte
    assert_eq!(player_v1_3(tag(&[0xb1])).unwrap().name_tag, "\u{ff71}");
    // what is malformed is replaced
    assert_eq!(player_v1_3(tag(&[0x83])).unwrap().name_tag, "\u{fffd}");
    assert_eq!(player_v1_3(tag(b"")).unwrap().name_tag, "");
    assert_eq!(player_v1_3([b'z'; 16]).unwrap().name_tag, "zzzzzzzzzzzzzzzz");
    assert_eq!(with_name_tag("tag".to_string()).name_tag, "tag");
}

#[test]
fn controller_fixes() {
    let on = player_v1_0([0, 0, 0, 1, 0, 0, 1, 0], None).unwrap();
    assert_eq!(on.ucf.dash_back, Some(DashBack(1)));
    assert_eq!(on.ucf.shield_drop, Some(ShieldDrop(256)));
    assert_eq!(on.v1_3, None);
    let off = player_v1_0([0; 8], Some(tag(b"T"))).unwrap();
    assert_eq!(off.ucf.dash_back, None);
    assert_eq!(off.ucf.shield_drop, None);
    assert_eq!(off.v1_3.unwrap().name_tag, "T");
}

#[test]
fn human_player() {
    let p = player(&player_bytes(0), true, None, None).unwrap().unwrap();
    assert_eq!(p.character, External(2));
    assert_eq!(p.kind, PlayerType(PlayerType::HUMAN));
    assert_eq!((p.stocks, p.costume, p.handicap, p.bitfield), (4, 1, 9, 0xc0));
    assert_eq!(p.team, Some(Team { color: TeamColor(3), shade: TeamShade(6) }));
    assert_eq!(p.cpu_level, None);
    assert_eq!(p.offense_ratio, single(1.0));
    assert_eq!(p.defense_ratio, single(2.0));
    assert_eq!(p.model_scale, single(3.0));
    assert_eq!(p.v1_0, None);
}

#[test]
fn computer_player_has_a_level() {
    let p = player(&player_bytes(1), false, Some([0; 8]), Some(tag(b"CPU"))).unwrap().unwrap();
    assert_eq!(p.cpu_level, Some(5));
    assert_eq!(p.team, None);
    assert_eq!(p.v1_0.unwrap().v1_3.unwrap().name_tag, "CPU");
}

#[test]
fn ports_without_a_player() {
    assert!(player(&player_bytes(2), false, None, None).unwrap().is_some());
    assert_eq!(player(&player_bytes(3), false, None, None).unwrap(), None);
    assert_eq!(player(&player_bytes(255), true, Some([1; 8]), None).unwrap(), None);
}

#[test]
fn bytes_of_players() {
    let bytes: Vec<u8> = (0..20).collect();
    let mut r: &[u8] = &bytes;
    assert_eq!(player_bytes_v1_0(&mut r).unwrap(), [0, 1, 2, 3, 4, 5, 6, 7]);
    assert_eq!(r.len(), 12);
    assert!(matches!(player_bytes_v1_3(&mut r), Err(Error::UnexpectedEof)));
    let mut r: &[u8] = &bytes;
    assert_eq!(player_bytes_v1_3(&mut r).unwrap()[15], 15);
    assert_eq!(r, &[16, 17, 18, 19]);
    assert!(matches!(player_bytes_v1_0(&mut r), Err(Error::UnexpectedEof)));
}

#[test]
fn start_of_the_first_version() {
    let payload = start_payload();
    let mut r: &[u8] = &payload;
    let start = game_start(&mut r).unwrap();
    assert!(r.is_empty());
    assert_eq!(start.slippi.version, SlippiVersion(2, 0, 1));
    assert_eq!(start.bitfield, [0x32, 0x01, 0x4c]);
    assert!(start.is_teams);
    assert_eq!(start.item_spawn_frequency, -1);
    assert_eq!(start.self_destruct_score, -2);
    assert_eq!(start.stage, Stage(31));
    assert_eq!(start.timer, 480);
    assert_eq!(start.item_spawn_bitfield, [1, 2, 3, 4, 5]);
    assert_eq!(start.damage_ratio, single(1.5));
    assert_eq!(start.random_seed, 0x1234_5678);
    assert_eq!(start.v1_5, None);
    let there: Vec<bool> = start.players.iter().map(|p| p.is_some()).collect();
    assert_eq!(there, [true, true, false, true]);
    let p = start.players[1].as_ref().unwrap();
    assert_eq!((p.kind, p.cpu_level), (PlayerType(1), Some(5)));
    assert_eq!(p.v1_0, None);
}

#[test]
fn start_of_later_versions() {
    let mut payload = start_payload();
    payload[12] = 0;
    payload.extend(start_v1_0());
    let start = game_start(&mut &payload[..]).unwrap();
    assert!(!start.is_teams);
    let v1_0 = start.players[3].as_ref().unwrap().v1_0.as_ref().unwrap();
    assert_eq!(v1_0.ucf.dash_back, Some(DashBack(3)));
    assert_eq!(v1_0.ucf.shield_drop, Some(ShieldDrop(30)));
    assert_eq!(v1_0.v1_3, None);
    assert_eq!(start.v1_5, None);

    payload.extend(start_v1_3());
    assert_eq!(payload.len(), 416);
    let start = game_start(&mut &payload[..]).unwrap();
    let v1_0 = start.players[1].as_ref().unwrap().v1_0.as_ref().unwrap();
    assert_eq!(v1_0.v1_3.as_ref().unwrap().name_tag, "TWO");
    assert_eq!(start.v1_5, None);

    payload.push(1);
    let start = game_start(&mut &payload[..]).unwrap();
    assert_eq!(start.v1_5, Some(StartV1_5 { is_pal: true, v2_0: None }));

    payload.push(0);
    let start = game_start(&mut &payload[..]).unwrap();
    let v2_0 = Some(StartV2_0 { is_frozen_ps: false });
    assert_eq!(start.v1_5, Some(StartV1_5 { is_pal: true, v2_0 }));

    // what is not known yet is ignored
    payload.extend([7, 7]);
    let mut r: &[u8] = &payload;
    assert_eq!(game_start(&mut r).unwrap(), start);
    assert_eq!(r, &[7, 7]);
}

#[test]
fn start_cut_short() {
    let mut payload = start_payload();
    payload.extend(start_v1_0());
    payload.extend(start_v1_3());
    for n in (0..320).chain(321..352).chain(353..416) {
        assert!(matches!(game_start(&mut &payload[..n]), Err(Error::UnexpectedEof)));
    }
}

#[test]
fn start_additions() {
    assert!(game_start_v2_0(&mut &[2][..]).unwrap().is_frozen_ps);
    assert!(matches!(game_start_v2_0(&mut &[][..]), Err(Error::UnexpectedEof)));
    let v1_5 = game_start_v1_5(&mut &[0][..]).unwrap();
    assert_eq!(v1_5, StartV1_5 { is_pal: false, v2_0: None });
    assert!(matches!(game_start_v1_5(&mut &[][..]), Err(Error::UnexpectedEof)));
}

#[test]
fn ends() {
    let end = game_end(&mut &[3][..]).unwrap();
    assert_eq!(end.method, EndMethod(3));
    assert_eq!(end.v2_0, None);
    let mut r: &[u8] = &[7, 0xff, 0x55];
    let end = game_end(&mut r).unwrap();
    assert_eq!(end.method, EndMethod(7));
    assert_eq!(end.v2_0.unwrap().lras_initiator, -1);
    assert_eq!(r, &[0x55]);
    assert_eq!(game_end_v2_0(&mut &[2][..]).unwrap().lras_initiator, 2);
    assert!(matches!(game_end(&mut &[][..]), Err(Error::UnexpectedEof)));
    assert!(matches!(game_end_v2_0(&mut &[][..]), Err(Error::UnexpectedEof)));
}
