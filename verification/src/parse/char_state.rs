//! Following each fighter from frame to frame, to know when Zelda and Sheik turn into each other.
//!
//! A number above [`Common::LAST`](crate::action_state::Common::LAST) cannot be read without the
//! character, and a `Pre` event does not name it. It is the one of the last `Post` event at that
//! port, unless a transformation ends in between.
use vstd::prelude::*;

use crate::action_state::{Common, Sheik, State, Zelda};
use crate::character::Internal;
use crate::game::NUM_PORTS;

verus! {

/// The frame of Zelda's transformation after which she is Sheik.
pub const ZELDA_TRANSFORM_FRAME: u32 = 43;

/// The frame of Sheik's transformation after which she is Zelda.
pub const SHEIK_TRANSFORM_FRAME: u32 = 36;

/// Which fighter, in which frame, an event is about.
#[derive(Copy, Clone, Debug, PartialEq, Eq, Structural)]
pub struct FrameId {
    pub index: i32,
    pub port: u8,
    pub is_follower: bool,
}

/// What is known of a fighter after a frame.
#[derive(Copy, Clone, Debug, PartialEq, Eq, Structural)]
pub struct CharState {
    pub character: Internal,
    pub state: State,
    /// For how many frames before this one the fighter was in `state`.
    pub age: u32,
}

/// A fighter of which nothing is known yet. A transformation takes longer than one frame, so any
/// character does here.
pub open spec fn unknown_char_state() -> CharState {
    CharState { character: Internal(255), state: State::Common(Common(Common::WAIT)), age: 0 }
}

/// The fighters before the first frame.
pub fn initial_char_states() -> (states: [CharState; NUM_PORTS])
    ensures
        forall|port: int| 0 <= port < NUM_PORTS ==> states@[port] == unknown_char_state(),
{
    [CharState {
        character: Internal(255),
        state: State::Common(Common(Common::WAIT)),
        age: 0,
    };NUM_PORTS]
}

/// Where `state` is part of a transformation, on the ground or in the air: the age at which the
/// transformation is over.
pub open spec fn transform_frame(state: State) -> Option<u32> {
    match state {
        State::Zelda(s) => if s.0 == Zelda::TRANSFORM_GROUND || s.0 == Zelda::TRANSFORM_AIR {
            Some(ZELDA_TRANSFORM_FRAME)
        } else {
            None
        },
        State::Sheik(s) => if s.0 == Sheik::TRANSFORM_GROUND || s.0 == Sheik::TRANSFORM_AIR {
            Some(SHEIK_TRANSFORM_FRAME)
        } else {
            None
        },
        _ => None,
    }
}

/// The transformation that `prev` is in has come to its end.
pub open spec fn transform_over(prev: CharState) -> bool {
    transform_frame(prev.state) matches Some(frame) && prev.age >= frame
}

/// The character to expect in the frame after `prev`.
pub open spec fn predicted(prev: CharState) -> Internal {
    if !transform_over(prev) {
        prev.character
    } else if prev.state is Zelda {
        Internal(Internal::SHEIK)
    } else {
        Internal(Internal::ZELDA)
    }
}

/// Both states are part of one transformation, which can move between the ground and the air.
pub open spec fn same_transform(a: State, b: State) -> bool {
    transform_frame(a) is Some && transform_frame(a) == transform_frame(b)
}

/// The age of `state` in the frame after `prev`. A transformation that moves between the ground
/// and the air goes on, but does not come to its end in that frame.
pub open spec fn next_age(prev: CharState, state: State) -> int {
    if state == prev.state {
        prev.age + 1
    } else if same_transform(prev.state, state) {
        vstd::math::min(transform_frame(state)->0 - 1, prev.age + 1)
    } else {
        0
    }
}

/// An age that goes on from `prev` has room to grow.
pub open spec fn age_fits(prev: CharState, state: State) -> bool {
    state == prev.state || same_transform(prev.state, state) ==> prev.age < u32::MAX
}

/// What is known of a fighter after a `Post` event, `prev` being what was known before it.
pub open spec fn next_char_state(prev: CharState, character: Internal, state: State) -> CharState {
    CharState { character, state, age: next_age(prev, state) as u32 }
}

fn transforms_zelda(state: State) -> (res: bool)
    ensures
        res == (state is Zelda && transform_frame(state) is Some),
{
    match state {
        State::Zelda(s) => s.0 == Zelda::TRANSFORM_GROUND || s.0 == Zelda::TRANSFORM_AIR,
        _ => false,
    }
}

fn transforms_sheik(state: State) -> (res: bool)
    ensures
        res == (state is Sheik && transform_frame(state) is Some),
{
    match state {
        State::Sheik(s) => s.0 == Sheik::TRANSFORM_GROUND || s.0 == Sheik::TRANSFORM_AIR,
        _ => false,
    }
}

/// Whether an age that goes on from `prev` has room to grow.
pub fn has_room(prev: CharState, state: State) -> (res: bool)
    ensures
        res == age_fits(prev, state),
{
    prev.age < u32::MAX || !(state == prev.state || (transforms_zelda(state) && transforms_zelda(
        prev.state,
    )) || (transforms_sheik(state) && transforms_sheik(prev.state)))
}

/// The character to read a `Pre` event with.
pub fn predict_character(id: FrameId, last_char_states: &[CharState; NUM_PORTS]) -> (character:
    Internal)
    requires
        id.port < NUM_PORTS,
    ensures
        character == predicted(last_char_states@[id.port as int]),
{
    let prev = last_char_states[id.port as usize];
    if transforms_zelda(prev.state) && prev.age >= ZELDA_TRANSFORM_FRAME {
        Internal(Internal::SHEIK)
    } else if transforms_sheik(prev.state) && prev.age >= SHEIK_TRANSFORM_FRAME {
        Internal(Internal::ZELDA)
    } else {
        prev.character
    }
}

fn smaller(a: u32, b: u32) -> (res: u32)
    ensures
        res == if a < b { a } else { b },
{
    if a < b {
        a
    } else {
        b
    }
}

/// Takes in what a `Post` event says of a fighter.
pub fn update_last_char_state(
    id: FrameId,
    character: Internal,
    state: State,
    last_char_states: &mut [CharState; NUM_PORTS],
)
    requires
        id.port < NUM_PORTS,
        age_fits(old(last_char_states)@[id.port as int], state),
    ensures
        final(last_char_states)@ == old(last_char_states)@.update(
            id.port as int,
            next_char_state(old(last_char_states)@[id.port as int], character, state),
        ),
{
    let prev = last_char_states[id.port as usize];
    let age: u32 = if state == prev.state {
        prev.age + 1
    } else if transforms_zelda(state) && transforms_zelda(prev.state) {
        // Landing in the very frame in which the transformation in the air would end puts it off
        // by one frame, so the age stays below the one at which `predict_character` sees the end.
        smaller(ZELDA_TRANSFORM_FRAME - 1, prev.age + 1)
    } else if transforms_sheik(state) && transforms_sheik(prev.state) {
        smaller(SHEIK_TRANSFORM_FRAME - 1, prev.age + 1)
    } else {
        0
    };
    last_char_states[id.port as usize] = CharState { character, state, age };
}

/// A transformation that moves between the ground and the air has not ended in that frame: the
/// fighter is expected to be the same in the next one.
pub proof fn law_switch_ends_nothing(prev: CharState, character: Internal, state: State)
    requires
        same_transform(prev.state, state),
        state != prev.state,
    ensures
        !transform_over(next_char_state(prev, character, state)),
        predicted(next_char_state(prev, character, state)) == character,
{
}

/// A state that is no part of the transformation that `prev` may be in, and is not the one of
/// `prev`, starts anew, and ends no transformation.
pub proof fn law_new_state_starts_anew(prev: CharState, character: Internal, state: State)
    requires
        !same_transform(prev.state, state),
        state != prev.state,
    ensures
        next_char_state(prev, character, state).age == 0,
        predicted(next_char_state(prev, character, state)) == character,
{
}

/// What is known of a fighter that was `prev`, after one `Post` event with each of `states`.
pub open spec fn follow(prev: CharState, character: Internal, states: Seq<State>) -> CharState
    decreases states.len(),
{
    if states.len() == 0 {
        prev
    } else {
        next_char_state(follow(prev, character, states.drop_last()), character, states.last())
    }
}

/// `states` are one transformation from its start, `prev` being no part of it.
pub open spec fn transforms_from(prev: CharState, states: Seq<State>) -> bool {
    &&& states.len() > 0
    &&& transform_frame(states[0]) is Some
    &&& !same_transform(prev.state, states[0])
    &&& forall|i: int| 0 <= i < states.len() ==> same_transform(states[0], #[trigger] states[i])
}

/// Up to its end, the age of a transformation is the number of frames that it has gone on for,
/// however often it moves between the ground and the air, and its end is not expected.
pub proof fn law_transform_age(prev: CharState, character: Internal, states: Seq<State>)
    requires
        transforms_from(prev, states),
        states.len() <= transform_frame(states[0])->0,
    ensures
        follow(prev, character, states) == (CharState {
            character,
            state: states.last(),
            age: (states.len() - 1) as u32,
        }),
        predicted(follow(prev, character, states)) == character,
    decreases states.len(),
{
    let before = states.drop_last();
    if before.len() == 0 {
        assert(follow(prev, character, before) == prev);
    } else {
        law_transform_age(prev, character, before);
    }
}

/// Once a transformation has gone on long enough to end, it stays one frame short of its end at
/// the least.
proof fn lemma_transform_age_after(prev: CharState, character: Internal, states: Seq<State>)
    requires
        transforms_from(prev, states),
        transform_frame(states[0])->0 <= states.len() <= u32::MAX + 1,
    ensures
        ({
            let last = follow(prev, character, states);
            &&& last.character == character
            &&& last.state == states.last()
            &&& transform_frame(states[0])->0 - 1 <= last.age <= states.len() - 1
        }),
    decreases states.len(),
{
    if states.len() == transform_frame(states[0])->0 {
        law_transform_age(prev, character, states);
    } else {
        lemma_transform_age_after(prev, character, states.drop_last());
        assert(same_transform(states[0], states[states.len() - 2]));
        assert(same_transform(states[0], states.last()));
    }
}

/// From the next frame on the end of a transformation is expected in every frame but those in
/// which it moves between the ground and the air: such a move puts the end off by one frame. There
/// are at most as many frames as an age can count.
pub proof fn law_transform_end(prev: CharState, character: Internal, states: Seq<State>)
    requires
        transforms_from(prev, states),
        transform_frame(states[0])->0 < states.len() <= u32::MAX + 1,
    ensures
        predicted(follow(prev, character, states)) == if states.last() != states[states.len() - 2] {
            character
        } else if states[0] is Zelda {
            Internal(Internal::SHEIK)
        } else {
            Internal(Internal::ZELDA)
        },
{
    lemma_transform_age_after(prev, character, states.drop_last());
    assert(same_transform(states[0], states[states.len() - 2]));
    assert(same_transform(states[0], states.last()));
}

/// Nothing is expected to change before the first frame.
pub proof fn law_no_prediction_at_first()
    ensures
        predicted(unknown_char_state()) == unknown_char_state().character,
{
}

/// No change of character is expected of a fighter that is in none of the four states of a
/// transformation, however long it has been in its state.
pub proof fn law_only_transforms_change(prev: CharState)
    requires
        prev.state != State::Zelda(Zelda(355)),
        prev.state != State::Zelda(Zelda(357)),
        prev.state != State::Sheik(Sheik(361)),
        prev.state != State::Sheik(Sheik(363)),
    ensures
        predicted(prev) == prev.character,
{
}

/// Zelda turns into Sheik once she has been transforming for 43 frames, and Sheik into Zelda after
/// 36. Before that neither is expected to change.
pub proof fn law_transforms_change(prev: CharState)
    ensures
        prev.state == State::Zelda(Zelda(355)) || prev.state == State::Zelda(Zelda(357))
            ==> predicted(prev) == if prev.age >= 43 {
            Internal(7)
        } else {
            prev.character
        },
        prev.state == State::Sheik(Sheik(361)) || prev.state == State::Sheik(Sheik(363))
            ==> predicted(prev) == if prev.age >= 36 {
            Internal(19)
        } else {
            prev.character
        },
{
}

/// The age of a state that goes on grows by one.
pub proof fn law_held_state_ages(prev: CharState, character: Internal)
    requires
        prev.age < u32::MAX,
    ensures
        age_fits(prev, prev.state),
        next_char_state(prev, character, prev.state) == (CharState {
            character,
            state: prev.state,
            age: (prev.age + 1) as u32,
        }),
{
}

/// A transformation that moves between the ground and the air grows older by one frame, but no
/// older than the frame before its end.
pub proof fn law_moved_transform_ages(prev: CharState, character: Internal, state: State)
    requires
        prev.age < u32::MAX,
        prev.state != state,
    ensures
        ({
            let next = next_char_state(prev, character, state);
            let zelda = |s: State| s == State::Zelda(Zelda(355)) || s == State::Zelda(Zelda(357));
            let sheik = |s: State| s == State::Sheik(Sheik(361)) || s == State::Sheik(Sheik(363));
            &&& age_fits(prev, state)
            &&& next.character == character
            &&& next.state == state
            &&& zelda(prev.state) && zelda(state) ==> next.age == if prev.age < 42 {
                prev.age + 1
            } else {
                42
            }
            &&& sheik(prev.state) && sheik(state) ==> next.age == if prev.age < 35 {
                prev.age + 1
            } else {
                35
            }
            &&& !(zelda(prev.state) && zelda(state)) && !(sheik(prev.state) && sheik(state))
                ==> next.age == 0
        }),
{
}

/// A full counter leaves room for a state that starts anew, and for no other.
pub proof fn law_full_age(prev: CharState, character: Internal, state: State)
    requires
        prev.age == u32::MAX,
    ensures
        ({
            let zelda = |s: State| s == State::Zelda(Zelda(355)) || s == State::Zelda(Zelda(357));
            let sheik = |s: State| s == State::Sheik(Sheik(361)) || s == State::Sheik(Sheik(363));
            let goes_on = prev.state == state || (zelda(prev.state) && zelda(state)) || (sheik(
                prev.state,
            ) && sheik(state));
            &&& age_fits(prev, state) <==> !goes_on
            &&& !goes_on ==> next_char_state(prev, character, state) == (CharState {
                character,
                state,
                age: 0,
            })
        }),
{
}

/// Before the first frame every fighter waits, and is of no character that there is.
pub proof fn law_unknown_waits()
    ensures
        unknown_char_state() == (CharState {
            character: Internal(255),
            state: State::Common(Common(14)),
            age: 0,
        }),
{
}

} // verus!
