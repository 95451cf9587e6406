use peppi::action_state::{Common, Sheik, State, Zelda};
use peppi::character::Internal;
use peppi::parse::char_state::{
    has_room, initial_char_states, predict_character, update_last_char_state, CharState, FrameId,
};

const ZELDA: Internal = Internal(Internal::ZELDA);
const SHEIK: Internal = Internal(Internal::SHEIK);
const ZELDA_GROUND: State = State::Zelda(Zelda(Zelda::TRANSFORM_GROUND));
const ZELDA_AIR: State = State::Zelda(Zelda(Zelda::TRANSFORM_AIR));
const SHEIK_GROUND: State = State::Sheik(Sheik(Sheik::TRANSFORM_GROUND));
const SHEIK_AIR: State = State::Sheik(Sheik(Sheik::TRANSFORM_AIR));

fn id(port: u8) -> FrameId {
    FrameId { index: 0, port, is_follower: false }
}

fn after(states: &[(State, usize)], character: Internal) -> (u32, Internal) {
    let mut last = initial_char_states();
    for (state, times) in states {
        for _ in 0..*times {
            update_last_char_state(id(2), character, *state, &mut last);
        }
    }
    (last[2].age, predict_character(id(2), &last))
}

#[test]
fn states_depend_on_the_character_above_the_common_ones() {
    assert_eq!(State::from(14, ZELDA), State::Common(Common(14)));
    assert_eq!(State::from(340, SHEIK), State::Common(Common(340)));
    assert_eq!(State::from(341, ZELDA), State::Zelda(Zelda(341)));
    assert_eq!(State::from(355, ZELDA), ZELDA_GROUND);
    assert_eq!(State::from(363, SHEIK), SHEIK_AIR);
    assert_eq!(State::from(355, Internal(1)), State::Other(Internal(1), 355));
}

#[test]
fn nothing_is_known_at_first() {
    let last = initial_char_states();
    assert_eq!(last.len(), 4);
    for port in 0..4 {
        assert_eq!(predict_character(id(port), &last), Internal(255));
        assert_eq!(last[port as usize].age, 0);
    }
}

#[test]
fn age_counts_frames_in_one_state() {
    let wait = State::Common(Common(Common::WAIT));
    let run = State::Common(Common(20));
    assert_eq!(after(&[(run, 1)], Internal(3)), (0, Internal(3)));
    assert_eq!(after(&[(run, 7)], Internal(3)), (6, Internal(3)));
    assert_eq!(after(&[(run, 7), (wait, 1)], Internal(3)), (0, Internal(3)));
    // every fighter waits before the first frame
    assert_eq!(after(&[(wait, 1)], Internal(3)), (1, Internal(3)));
}

#[test]
fn zelda_turns_into_sheik() {
    assert_eq!(after(&[(ZELDA_GROUND, 43)], ZELDA), (42, ZELDA));
    assert_eq!(after(&[(ZELDA_GROUND, 44)], ZELDA), (43, SHEIK));
    assert_eq!(after(&[(ZELDA_AIR, 44)], ZELDA), (43, SHEIK));
}

#[test]
fn sheik_turns_into_zelda() {
    assert_eq!(after(&[(SHEIK_AIR, 36)], SHEIK), (35, SHEIK));
    assert_eq!(after(&[(SHEIK_AIR, 37)], SHEIK), (36, ZELDA));
    assert_eq!(after(&[(SHEIK_GROUND, 37)], SHEIK), (36, ZELDA));
}

#[test]
fn a_transformation_goes_on_between_ground_and_air() {
    assert_eq!(after(&[(ZELDA_AIR, 10), (ZELDA_GROUND, 10)], ZELDA), (19, ZELDA));
    assert_eq!(after(&[(ZELDA_AIR, 10), (ZELDA_GROUND, 33)], ZELDA), (42, ZELDA));
    assert_eq!(after(&[(ZELDA_AIR, 10), (ZELDA_GROUND, 34)], ZELDA), (43, SHEIK));
    assert_eq!(after(&[(SHEIK_GROUND, 10), (SHEIK_AIR, 27)], SHEIK), (36, ZELDA));
}

#[test]
fn landing_in_the_last_frame_puts_the_end_off() {
    assert_eq!(after(&[(ZELDA_AIR, 43), (ZELDA_GROUND, 1)], ZELDA), (42, ZELDA));
    assert_eq!(after(&[(ZELDA_AIR, 43), (ZELDA_GROUND, 2)], ZELDA), (43, SHEIK));
    assert_eq!(after(&[(ZELDA_GROUND, 60), (ZELDA_AIR, 1)], ZELDA), (42, ZELDA));
    assert_eq!(after(&[(ZELDA_GROUND, 60), (ZELDA_AIR, 2)], ZELDA), (43, SHEIK));
    assert_eq!(after(&[(ZELDA_GROUND, 60)], ZELDA), (59, SHEIK));
    assert_eq!(after(&[(ZELDA_AIR, 43), (ZELDA_GROUND, 1), (ZELDA_AIR, 1)], ZELDA), (42, ZELDA));
    assert_eq!(after(&[(SHEIK_AIR, 36), (SHEIK_GROUND, 1)], SHEIK), (35, SHEIK));
    assert_eq!(after(&[(SHEIK_AIR, 36), (SHEIK_GROUND, 2)], SHEIK), (36, ZELDA));
    assert_eq!(after(&[(SHEIK_GROUND, 36), (SHEIK_AIR, 1)], SHEIK), (35, SHEIK));
}

#[test]
fn the_two_transformations_are_not_one() {
    assert_eq!(after(&[(ZELDA_AIR, 20), (SHEIK_AIR, 1)], SHEIK), (0, SHEIK));
    assert_eq!(after(&[(SHEIK_GROUND, 20), (ZELDA_GROUND, 1)], ZELDA), (0, ZELDA));
    assert_eq!(after(&[(ZELDA_AIR, 20), (State::Zelda(Zelda(356)), 1)], ZELDA), (0, ZELDA));
}

#[test]
fn ports_are_apart() {
    let mut last = initial_char_states();
    let before = last;
    update_last_char_state(id(1), ZELDA, ZELDA_AIR, &mut last);
    assert_eq!(last[1], CharState { character: ZELDA, state: ZELDA_AIR, age: 0 });
    for port in [0, 2, 3] {
        assert_eq!(last[port], before[port]);
    }
}

#[test]
fn ages_run_out_of_room() {
    let old = CharState { character: ZELDA, state: ZELDA_AIR, age: u32::MAX };
    assert!(!has_room(old, ZELDA_AIR));
    assert!(!has_room(old, ZELDA_GROUND));
    assert!(has_room(old, SHEIK_GROUND));
    assert!(has_room(CharState { age: u32::MAX - 1, ..old }, ZELDA_AIR));
}
