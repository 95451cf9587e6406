use peppi::action_state::{Common, Sheik, State, Zelda};
use peppi::attack::Attack;
use peppi::buttons;
use peppi::character::Internal;
use peppi::error::Error;
use peppi::float::Single;
use peppi::frame::{
    Direction, HurtboxState, LCancel, PostV2_0, PostV2_1, PreV1_2, PreV1_4, StateFlags,
};
use peppi::parse::char_state::{initial_char_states, CharState, FrameId};
use peppi::parse::frame_events::{
    direction, flags, frame_post, frame_post_v0_2, frame_post_v2_0, frame_post_v2_1, frame_pre,
    frame_pre_v1_2, frame_pre_v1_4, read_post,
};

fn single(v: f32) -> Single {
    Single { bits: v.to_bits() }
}

fn pre_payload(port: u8, state: u16, facing: f32) -> Vec<u8> {
    let mut v = Vec::new();
    v.extend((-123i32).to_be_bytes());
    v.push(port);
    v.push(1);
    v.extend(0xdead_beefu32.to_be_bytes());
    v.extend(state.to_be_bytes());
    for x in [1.0f32, 2.0, facing, 0.25, -0.25, 0.5, -0.5, 0.75] {
        v.extend(x.to_be_bytes());
    }
    v.extend(0x0102_0304u32.to_be_bytes());
    v.extend(0x0506u16.to_be_bytes());
    for x in [0.125f32, 0.375] {
        v.extend(x.to_be_bytes());
    }
    v
}

fn post_payload(port: u8, character: u8, state: u16, facing: f32) -> Vec<u8> {
    let mut v = Vec::new();
    v.extend(7i32.to_be_bytes());
    v.push(port);
    v.push(0);
    v.push(character);
    v.extend(state.to_be_bytes());
    for x in [3.0f32, 4.0, facing, 12.5, 60.0] {
        v.extend(x.to_be_bytes());
    }
    v.extend([9, 2, 1, 4]);
    v
}

fn post_v0_2() -> Vec<u8> {
    5.5f32.to_be_bytes().to_vec()
}

fn post_v2_0() -> Vec<u8> {
    let mut v = vec![1, 2, 3, 4, 5];
    v.extend(6.5f32.to_be_bytes());
    v.extend([0x01, 0x02, 3, 0, 1]);
    v
}

#[test]
fn directions() {
    assert_eq!(direction(single(1.0)).unwrap(), Direction::RIGHT);
    assert_eq!(direction(single(-1.0)).unwrap(), Direction::LEFT);
    assert_eq!(direction(single(f32::INFINITY)).unwrap(), Direction::RIGHT);
    assert_eq!(direction(single(f32::NEG_INFINITY)).unwrap(), Direction::LEFT);
    assert!(matches!(direction(single(0.0)), Err(Error::NoDirection)));
    assert!(matches!(direction(single(-0.0)), Err(Error::NoDirection)));
    assert!(matches!(direction(single(f32::NAN)), Err(Error::NoDirection)));
}

#[test]
fn flags_are_little_endian() {
    assert_eq!(flags(&[1, 2, 3, 4, 5]), StateFlags(0x05_0403_0201));
    assert_eq!(flags(&[0xff; 5]), StateFlags(0xff_ffff_ffff));
    assert_eq!(flags(&[0; 5]), StateFlags(0));
}

#[test]
fn pre_of_the_first_version() {
    let payload = pre_payload(3, 20, -1.0);
    assert_eq!(payload.len(), 58);
    let mut r: &[u8] = &payload;
    let pre = frame_pre(&mut r, &initial_char_states()).unwrap();
    assert!(r.is_empty());
    assert_eq!(pre.id, FrameId { index: -123, port: 3, is_follower: true });
    let e = pre.event;
    assert_eq!(e.index, -123);
    assert_eq!(e.random_seed, 0xdead_beef);
    assert_eq!(e.state, State::Common(Common(20)));
    assert_eq!((e.position.x, e.position.y), (single(1.0), single(2.0)));
    assert_eq!(e.direction, Direction::LEFT);
    assert_eq!((e.joystick.x, e.joystick.y), (single(0.25), single(-0.25)));
    assert_eq!((e.cstick.x, e.cstick.y), (single(0.5), single(-0.5)));
    assert_eq!(e.triggers.logical, single(0.75));
    assert_eq!(e.triggers.physical.l, single(0.125));
    assert_eq!(e.triggers.physical.r, single(0.375));
    assert_eq!(e.buttons.logical, buttons::Logical(0x0102_0304));
    assert_eq!(e.buttons.physical, buttons::Physical(0x0506));
    assert_eq!(e.v1_2, None);
}

#[test]
fn pre_of_later_versions() {
    let states = initial_char_states();
    let mut payload = pre_payload(0, 20, 1.0);
    let base = frame_pre(&mut &payload[..], &states).unwrap().event;

    payload.push(0x42);
    let e = frame_pre(&mut &payload[..], &states).unwrap().event;
    assert_eq!(e.v1_2, Some(PreV1_2 { raw_analog_x: 0x42, v1_4: None }));
    assert_eq!(e.position, base.position);

    for byte in 99.5f32.to_be_bytes() {
        payload.push(byte);
    }
    let whole = frame_pre(&mut &payload[..], &states).unwrap();
    let v1_4 = Some(PreV1_4 { damage: single(99.5) });
    assert_eq!(whole.event.v1_2, Some(PreV1_2 { raw_analog_x: 0x42, v1_4 }));

    // what is not known yet is ignored
    payload.extend([1, 2, 3]);
    let mut r: &[u8] = &payload;
    assert_eq!(frame_pre(&mut r, &states).unwrap(), whole);
    assert_eq!(r, &[1, 2, 3]);
}

#[test]
fn pre_cut_short() {
    let states = initial_char_states();
    let mut payload = pre_payload(0, 20, 1.0);
    for n in 0..58 {
        assert!(matches!(frame_pre(&mut &payload[..n], &states), Err(Error::UnexpectedEof)));
    }
    payload.extend([0, 1, 2, 3]);
    for n in 60..63 {
        assert!(matches!(frame_pre(&mut &payload[..n], &states), Err(Error::UnexpectedEof)));
    }
}

#[test]
fn pre_without_a_direction() {
    let states = initial_char_states();
    let payload = pre_payload(0, 20, 0.0);
    let mut r: &[u8] = &payload;
    assert!(matches!(frame_pre(&mut r, &states), Err(Error::NoDirection)));
    assert_eq!(r, &payload[24..]);
    assert!(matches!(frame_pre(&mut &payload[..24], &states), Err(Error::NoDirection)));
    assert!(matches!(frame_pre(&mut &payload[..23], &states), Err(Error::UnexpectedEof)));
}

#[test]
fn pre_reads_the_state_of_the_predicted_character() {
    let mut states = initial_char_states();
    let transforming = State::Zelda(Zelda(Zelda::TRANSFORM_AIR));
    states[1] = CharState { character: Internal(19), state: transforming, age: 42 };
    let payload = pre_payload(1, 350, 1.0);
    let e = frame_pre(&mut &payload[..], &states).unwrap().event;
    assert_eq!(e.state, State::Zelda(Zelda(350)));
    states[1].age = 43;
    let e = frame_pre(&mut &payload[..], &states).unwrap().event;
    assert_eq!(e.state, State::Sheik(Sheik(350)));
}

#[test]
fn pre_additions() {
    assert_eq!(frame_pre_v1_4(&mut &1.5f32.to_be_bytes()[..]).unwrap().damage, single(1.5));
    assert_eq!(frame_pre_v1_2(&mut &[8][..]).unwrap(), PreV1_2 { raw_analog_x: 8, v1_4: None });
    assert!(matches!(frame_pre_v1_2(&mut &[][..]), Err(Error::UnexpectedEof)));
    assert!(matches!(frame_pre_v1_2(&mut &[8, 1][..]), Err(Error::UnexpectedEof)));
}

#[test]
fn post_of_the_first_version() {
    let payload = post_payload(2, 19, 355, 1.0);
    assert_eq!(payload.len(), 33);
    let mut states = initial_char_states();
    let mut r: &[u8] = &payload;
    let post = frame_post(&mut r, &mut states).unwrap();
    assert!(r.is_empty());
    assert_eq!(post.id, FrameId { index: 7, port: 2, is_follower: false });
    let e = post.event;
    assert_eq!(e.index, 7);
    assert_eq!(e.character, Internal(19));
    assert_eq!(e.state, State::Zelda(Zelda(355)));
    assert_eq!((e.position.x, e.position.y), (single(3.0), single(4.0)));
    assert_eq!(e.direction, Direction::RIGHT);
    assert_eq!(e.damage, single(12.5));
    assert_eq!(e.shield, single(60.0));
    assert_eq!(e.last_attack_landed, Some(Attack(9)));
    assert_eq!((e.combo_count, e.last_hit_by, e.stocks), (2, 1, 4));
    assert_eq!(e.v0_2, None);
    let state = State::Zelda(Zelda(355));
    assert_eq!(states[2], CharState { character: Internal(19), state, age: 0 });
    frame_post(&mut &payload[..], &mut states).unwrap();
    assert_eq!(states[2].age, 1);
}

#[test]
fn post_of_later_versions() {
    let mut payload = post_payload(0, 1, 20, -1.0);
    payload[29] = 0;
    payload.extend(post_v0_2());
    let e = read_post(&mut &payload[..]).unwrap().event;
    assert_eq!(e.last_attack_landed, None);
    assert_eq!(e.v0_2.unwrap().state_age, single(5.5));
    assert_eq!(e.v0_2.unwrap().v2_0, None);

    payload.extend(post_v2_0());
    assert_eq!(payload.len(), 51);
    let v2_0 = read_post(&mut &payload[..]).unwrap().event.v0_2.unwrap().v2_0.unwrap();
    let expected = PostV2_0 {
        flags: StateFlags(0x05_0403_0201),
        misc_as: single(6.5),
        ground: 0x0102,
        jumps: 3,
        l_cancel: None,
        airborne: true,
        v2_1: None,
    };
    assert_eq!(v2_0, expected);

    payload.push(2);
    let whole = read_post(&mut &payload[..]).unwrap();
    let v2_1 = Some(PostV2_1 { hurtbox_state: HurtboxState(2) });
    assert_eq!(whole.event.v0_2.unwrap().v2_0.unwrap(), PostV2_0 { v2_1, ..expected });

    // what is not known yet is ignored
    payload.push(9);
    let mut r: &[u8] = &payload;
    assert_eq!(read_post(&mut r).unwrap(), whole);
    assert_eq!(r, &[9]);
}

#[test]
fn post_cut_short_changes_nothing() {
    let mut payload = post_payload(0, 1, 20, 1.0);
    payload.extend(post_v0_2());
    payload.extend(post_v2_0());
    for n in (0..33).chain(34..37).chain(38..51) {
        let mut states = initial_char_states();
        let res = frame_post(&mut &payload[..n], &mut states);
        assert!(matches!(res, Err(Error::UnexpectedEof)));
        assert_eq!(states, initial_char_states());
    }
}

#[test]
fn post_without_a_direction_changes_nothing() {
    let payload = post_payload(0, 1, 20, f32::NAN);
    let mut states = initial_char_states();
    let mut r: &[u8] = &payload;
    assert!(matches!(frame_post(&mut r, &mut states), Err(Error::NoDirection)));
    assert_eq!(r, &payload[21..]);
    assert!(matches!(read_post(&mut &payload[..21]), Err(Error::NoDirection)));
    assert_eq!(states, initial_char_states());
}

#[test]
fn post_additions() {
    assert_eq!(frame_post_v2_1(&mut &[4][..]).unwrap().hurtbox_state, HurtboxState(4));
    assert!(matches!(frame_post_v2_1(&mut &[][..]), Err(Error::UnexpectedEof)));
    let mut v = post_v2_0();
    v[12] = 2;
    v[13] = 0;
    let v2_0 = frame_post_v2_0(&mut &v[..]).unwrap();
    assert_eq!(v2_0.l_cancel, Some(LCancel(2)));
    assert!(!v2_0.airborne);
    assert_eq!(frame_post_v0_2(&mut &post_v0_2()[..]).unwrap().v2_0, None);
}
