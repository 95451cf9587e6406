//! The events of a frame. The models give each field by its offset in the payload.
use vstd::math::min;
use vstd::prelude::*;

use crate::action_state::{state_of, State};
use crate::attack::Attack;
use crate::buttons;
use crate::bytes::{
    be_i32, be_u16, be_u32, read_exact, read_i32, read_u16, read_u32, read_u8, took,
};
use crate::character::Internal;
use crate::error::{agrees, Error, Failure};
use crate::float::{read_single, single, Single};
use crate::frame::{
    Buttons, Direction, HurtboxState, LCancel, Position, Post, PostV0_2, PostV2_0, PostV2_1, Pre,
    PreV1_2, PreV1_4, StateFlags, Triggers,
};
use crate::game::NUM_PORTS;
use crate::parse::char_state::{
    age_fits, next_char_state, predict_character, predicted, transform_over,
    update_last_char_state, CharState, FrameId,
};
use crate::triggers;

verus! {

/// An event with the fighter and the frame that it is about.
#[derive(Debug, PartialEq, Eq)]
pub struct FrameEvent<F> {
    pub id: FrameId,
    pub event: F,
}

/// The two numbers from offset `at` on.
pub open spec fn position_model(s: Seq<u8>, at: int) -> Position {
    Position { x: single(s, at), y: single(s, at + 4) }
}

/// A payload of either kind starts with these six bytes.
pub open spec fn id_model(s: Seq<u8>) -> FrameId {
    FrameId { index: be_i32(s, 0), port: s[4], is_follower: s[5] != 0 }
}

/// Takes the next two numbers.
fn read_position(r: &mut &[u8]) -> (res: Result<Position, Error>)
    ensures
        took(res, 8, position_model(old(r)@, 0), old(r)@, final(r)@),
{
    broadcast use vstd::seq_lib::lemma_seq_skip_of_skip;

    Ok(Position { x: read_single(r)?, y: read_single(r)? })
}

/// Takes the six bytes that say which fighter, in which frame.
fn read_id(r: &mut &[u8]) -> (res: Result<FrameId, Error>)
    ensures
        took(res, 6, id_model(old(r)@), old(r)@, final(r)@),
{
    broadcast use vstd::seq_lib::lemma_seq_skip_of_skip;

    Ok(FrameId { index: read_i32(r)?, port: read_u8(r)?, is_follower: read_u8(r)? != 0 })
}

/// A number below zero faces left, and one above it right. Zero and NaN face nowhere.
pub open spec fn direction_model(value: Single) -> Result<Direction, Failure> {
    if value.negative() {
        Ok(Direction::LEFT)
    } else if value.positive() {
        Ok(Direction::RIGHT)
    } else {
        Err(Failure::NoDirection)
    }
}

/// The way that a fighter with this number faces.
pub fn direction(value: Single) -> (res: Result<Direction, Error>)
    ensures
        agrees(res, direction_model(value)),
{
    if value.is_negative() {
        Ok(Direction::LEFT)
    } else if value.is_positive() {
        Ok(Direction::RIGHT)
    } else {
        Err(Error::NoDirection)
    }
}

/// What version 1.4 added to a `Pre` event.
pub open spec fn pre_v1_4_model(s: Seq<u8>) -> Result<PreV1_4, Failure> {
    if s.len() < 4 {
        Err(Failure::UnexpectedEof)
    } else {
        Ok(PreV1_4 { damage: single(s, 0) })
    }
}

/// Takes what version 1.4 added to a `Pre` event.
pub fn frame_pre_v1_4(r: &mut &[u8]) -> (res: Result<PreV1_4, Error>)
    ensures
        agrees(res, pre_v1_4_model(old(r)@)),
        res is Ok ==> final(r)@ == old(r)@.skip(4),
{
    Ok(PreV1_4 { damage: read_single(r)? })
}

/// What version 1.2 and later ones added to a `Pre` event.
pub open spec fn pre_v1_2_model(s: Seq<u8>) -> Result<PreV1_2, Failure> {
    if s.len() < 1 || 1 < s.len() < 5 {
        Err(Failure::UnexpectedEof)
    } else {
        Ok(
            PreV1_2 {
                raw_analog_x: s[0],
                v1_4: if s.len() == 1 {
                    None
                } else {
                    Some(PreV1_4 { damage: single(s, 1) })
                },
            },
        )
    }
}

/// Takes what version 1.2 and later ones added to a `Pre` event.
pub fn frame_pre_v1_2(r: &mut &[u8]) -> (res: Result<PreV1_2, Error>)
    ensures
        agrees(res, pre_v1_2_model(old(r)@)),
        res is Ok ==> final(r)@ == old(r)@.skip(min(old(r)@.len() as int, 5)),
{
    Ok(
        PreV1_2 {
            raw_analog_x: read_u8(r)?,
            v1_4: if r.is_empty() {
                None
            } else {
                Some(frame_pre_v1_4(r)?)
            },
        },
    )
}

/// The `Pre` event in the payload `s`, where the fighters were in `states` after their last frame.
pub open spec fn frame_pre_model(s: Seq<u8>, states: Seq<CharState>) -> Result<
    FrameEvent<Pre>,
    Failure,
> {
    if s.len() < 24 {
        Err(Failure::UnexpectedEof)
    } else if direction_model(single(s, 20)) is Err {
        Err(Failure::NoDirection)
    } else if s.len() < 58 || (s.len() > 58 && pre_v1_2_model(s.skip(58)) is Err) {
        Err(Failure::UnexpectedEof)
    } else {
        Ok(
            FrameEvent {
                id: id_model(s),
                event: Pre {
                    index: be_i32(s, 0),
                    random_seed: be_u32(s, 6),
                    state: state_of(be_u16(s, 10), predicted(states[s[4] as int])),
                    position: position_model(s, 12),
                    direction: direction_model(single(s, 20))->Ok_0,
                    joystick: position_model(s, 24),
                    cstick: position_model(s, 32),
                    triggers: Triggers {
                        logical: single(s, 40),
                        physical: triggers::Physical { l: single(s, 50), r: single(s, 54) },
                    },
                    buttons: Buttons {
                        logical: buttons::Logical(be_u32(s, 44)),
                        physical: buttons::Physical(be_u16(s, 48)),
                    },
                    v1_2: if s.len() == 58 {
                        None
                    } else {
                        Some(pre_v1_2_model(s.skip(58))->Ok_0)
                    },
                },
            },
        )
    }
}

/// The port in the payload, where the payload is long enough to hold one, exists.
pub open spec fn pre_in_range(s: Seq<u8>) -> bool {
    s.len() >= 6 ==> s[4] < NUM_PORTS
}

/// Takes a `Pre` event. Its state is read for the character that is expected at its port.
pub fn frame_pre(r: &mut &[u8], last_char_states: &[CharState; NUM_PORTS]) -> (res: Result<
    FrameEvent<Pre>,
    Error,
>)
    requires
        pre_in_range(old(r)@),
    ensures
        agrees(res, frame_pre_model(old(r)@, last_char_states@)),
        match res {
            Ok(_) => final(r)@ == old(r)@.skip(min(old(r)@.len() as int, 63)),
            Err(e) => e is NoDirection ==> final(r)@ == old(r)@.skip(24),
        },
{
    let id = read_id(r)?;

    // The character is needed to tell the state, and whether Zelda or Sheik transformed in this
    // frame is not known before the `Post` event.
    let character = predict_character(id, last_char_states);

    let random_seed = read_u32(r)?;
    let state = State::from(read_u16(r)?, character);
    let position = read_position(r)?;
    let direction = direction(read_single(r)?)?;
    let joystick = read_position(r)?;
    let cstick = read_position(r)?;
    let trigger_logical = read_single(r)?;
    let buttons = Buttons {
        logical: buttons::Logical(read_u32(r)?),
        physical: buttons::Physical(read_u16(r)?),
    };
    let triggers = Triggers {
        logical: trigger_logical,
        physical: triggers::Physical { l: read_single(r)?, r: read_single(r)? },
    };
    let v1_2 = if r.is_empty() {
        None
    } else {
        Some(frame_pre_v1_2(r)?)
    };
    Ok(
        FrameEvent {
            id,
            event: Pre {
                index: id.index,
                random_seed,
                state,
                position,
                direction,
                joystick,
                cstick,
                triggers,
                buttons,
                v1_2,
            },
        },
    )
}

/// The five bytes as one number, the lowest first.
pub open spec fn flags_model(buf: Seq<u8>) -> StateFlags {
    StateFlags(
        (buf[0] + buf[1] * 0x100 + buf[2] * 0x1_0000 + buf[3] * 0x100_0000 + buf[4]
            * 0x1_0000_0000) as u64,
    )
}

/// The flags in five bytes.
pub fn flags(buf: &[u8; 5]) -> (res: StateFlags)
    ensures
        res == flags_model(buf@),
{
    let b0 = buf[0] as u64;
    let b1 = buf[1] as u64;
    let b2 = buf[2] as u64;
    let b3 = buf[3] as u64;
    let b4 = buf[4] as u64;
    assert(b0 << 0 == b0) by (bit_vector);
    assert(b1 < 0x100 ==> b1 << 8 == b1 * 0x100) by (bit_vector);
    assert(b2 < 0x100 ==> b2 << 16 == b2 * 0x1_0000) by (bit_vector);
    assert(b3 < 0x100 ==> b3 << 24 == b3 * 0x100_0000) by (bit_vector);
    assert(b4 < 0x100 ==> b4 << 32 == b4 * 0x1_0000_0000) by (bit_vector);
    StateFlags((b0 << 0) + (b1 << 8) + (b2 << 16) + (b3 << 24) + (b4 << 32))
}

/// What version 2.1 added to a `Post` event.
pub open spec fn post_v2_1_model(s: Seq<u8>) -> Result<PostV2_1, Failure> {
    if s.len() < 1 {
        Err(Failure::UnexpectedEof)
    } else {
        Ok(PostV2_1 { hurtbox_state: HurtboxState(s[0]) })
    }
}

/// Takes what version 2.1 added to a `Post` event.
pub fn frame_post_v2_1(r: &mut &[u8]) -> (res: Result<PostV2_1, Error>)
    ensures
        agrees(res, post_v2_1_model(old(r)@)),
        res is Ok ==> final(r)@ == old(r)@.skip(1),
{
    Ok(PostV2_1 { hurtbox_state: HurtboxState(read_u8(r)?) })
}

/// What version 2.0 and later ones added to a `Post` event.
pub open spec fn post_v2_0_model(s: Seq<u8>) -> Result<PostV2_0, Failure> {
    if s.len() < 14 {
        Err(Failure::UnexpectedEof)
    } else {
        Ok(
            PostV2_0 {
                flags: flags_model(s),
                misc_as: single(s, 5),
                ground: be_u16(s, 9),
                jumps: s[11],
                l_cancel: if s[12] == 0 {
                    None
                } else {
                    Some(LCancel(s[12]))
                },
                airborne: s[13] != 0,
                v2_1: if s.len() == 14 {
                    None
                } else {
                    Some(PostV2_1 { hurtbox_state: HurtboxState(s[14]) })
                },
            },
        )
    }
}

/// Takes what version 2.0 and later ones added to a `Post` event.
pub fn frame_post_v2_0(r: &mut &[u8]) -> (res: Result<PostV2_0, Error>)
    ensures
        agrees(res, post_v2_0_model(old(r)@)),
        res is Ok ==> final(r)@ == old(r)@.skip(min(old(r)@.len() as int, 15)),
{
    Ok(
        PostV2_0 {
            flags: {
                let mut buf = [0u8; 5];
                read_exact(r, &mut buf)?;
                flags(&buf)
            },
            misc_as: read_single(r)?,
            ground: read_u16(r)?,
            jumps: read_u8(r)?,
            l_cancel: match read_u8(r)? {
                0 => None,
                l_cancel => Some(LCancel(l_cancel)),
            },
            airborne: read_u8(r)? != 0,
            v2_1: if r.is_empty() {
                None
            } else {
                Some(frame_post_v2_1(r)?)
            },
        },
    )
}

/// What version 0.2 and later ones added to a `Post` event.
pub open spec fn post_v0_2_model(s: Seq<u8>) -> Result<PostV0_2, Failure> {
    if s.len() < 4 || (s.len() > 4 && post_v2_0_model(s.skip(4)) is Err) {
        Err(Failure::UnexpectedEof)
    } else {
        Ok(
            PostV0_2 {
                state_age: single(s, 0),
                v2_0: if s.len() == 4 {
                    None
                } else {
                    Some(post_v2_0_model(s.skip(4))->Ok_0)
                },
            },
        )
    }
}

/// Takes what version 0.2 and later ones added to a `Post` event.
pub fn frame_post_v0_2(r: &mut &[u8]) -> (res: Result<PostV0_2, Error>)
    ensures
        agrees(res, post_v0_2_model(old(r)@)),
        res is Ok ==> final(r)@ == old(r)@.skip(min(old(r)@.len() as int, 19)),
{
    Ok(
        PostV0_2 {
            state_age: read_single(r)?,
            v2_0: if r.is_empty() {
                None
            } else {
                Some(frame_post_v2_0(r)?)
            },
        },
    )
}

/// The `Post` event in the payload `s`.
pub open spec fn frame_post_model(s: Seq<u8>) -> Result<FrameEvent<Post>, Failure> {
    if s.len() < 21 {
        Err(Failure::UnexpectedEof)
    } else if direction_model(single(s, 17)) is Err {
        Err(Failure::NoDirection)
    } else if s.len() < 33 || (s.len() > 33 && post_v0_2_model(s.skip(33)) is Err) {
        Err(Failure::UnexpectedEof)
    } else {
        Ok(
            FrameEvent {
                id: id_model(s),
                event: Post {
                    index: be_i32(s, 0),
                    character: Internal(s[6]),
                    state: state_of(be_u16(s, 7), Internal(s[6])),
                    position: position_model(s, 9),
                    direction: direction_model(single(s, 17))->Ok_0,
                    damage: single(s, 21),
                    shield: single(s, 25),
                    last_attack_landed: if s[29] == 0 {
                        None
                    } else {
                        Some(Attack(s[29]))
                    },
                    combo_count: s[30],
                    last_hit_by: s[31],
                    stocks: s[32],
                    v0_2: if s.len() == 33 {
                        None
                    } else {
                        Some(post_v0_2_model(s.skip(33))->Ok_0)
                    },
                },
            },
        )
    }
}

/// What is known of the fighters after the `Post` event in the payload `s`.
pub open spec fn states_after_post(s: Seq<u8>, states: Seq<CharState>) -> Seq<CharState> {
    match frame_post_model(s) {
        Ok(post) => states.update(
            post.id.port as int,
            next_char_state(
                states[post.id.port as int],
                post.event.character,
                post.event.state,
            ),
        ),
        Err(_) => states,
    }
}

/// Where there is an event in the payload, its port exists, and the age of its state has room to
/// grow.
pub open spec fn post_in_range(s: Seq<u8>, states: Seq<CharState>) -> bool {
    frame_post_model(s) matches Ok(post) ==> post.id.port < NUM_PORTS && age_fits(
        states[post.id.port as int],
        post.event.state,
    )
}

/// Takes a `Post` event and leaves what is known of the fighters alone.
pub fn read_post(r: &mut &[u8]) -> (res: Result<FrameEvent<Post>, Error>)
    ensures
        agrees(res, frame_post_model(old(r)@)),
        match res {
            Ok(_) => final(r)@ == old(r)@.skip(min(old(r)@.len() as int, 52)),
            Err(e) => e is NoDirection ==> final(r)@ == old(r)@.skip(21),
        },
{
    let id = read_id(r)?;
    let character = Internal(read_u8(r)?);
    let state = State::from(read_u16(r)?, character);
    let position = read_position(r)?;
    let direction = direction(read_single(r)?)?;
    let damage = read_single(r)?;
    let shield = read_single(r)?;
    let last_attack_landed = match read_u8(r)? {
        0 => None,
        attack => Some(Attack(attack)),
    };
    let combo_count = read_u8(r)?;
    let last_hit_by = read_u8(r)?;
    let stocks = read_u8(r)?;
    let v0_2 = if r.is_empty() {
        None
    } else {
        Some(frame_post_v0_2(r)?)
    };
    Ok(
        FrameEvent {
            id,
            event: Post {
                index: id.index,
                character,
                state,
                position,
                direction,
                damage,
                shield,
                last_attack_landed,
                combo_count,
                last_hit_by,
                stocks,
                v0_2,
            },
        },
    )
}

/// Takes a `Post` event, and takes in what it says of its fighter.
pub fn frame_post(r: &mut &[u8], last_char_states: &mut [CharState; NUM_PORTS]) -> (res: Result<
    FrameEvent<Post>,
    Error,
>)
    requires
        post_in_range(old(r)@, old(last_char_states)@),
    ensures
        agrees(res, frame_post_model(old(r)@)),
        match res {
            Ok(_) => final(r)@ == old(r)@.skip(min(old(r)@.len() as int, 52)),
            Err(e) => e is NoDirection ==> final(r)@ == old(r)@.skip(21),
        },
        final(last_char_states)@ == states_after_post(old(r)@, old(last_char_states)@),
{
    let post = read_post(r)?;
    update_last_char_state(post.id, post.event.character, post.event.state, last_char_states);
    Ok(post)
}

/// The flags keep each of the five bytes: they are the digits of the number, the lowest first.
pub proof fn law_flags_keep_bytes(buf: Seq<u8>)
    ensures
        flags_model(buf).0 < 0x100_0000_0000,
        flags_model(buf).0 % 0x100 == buf[0],
        flags_model(buf).0 / 0x100 % 0x100 == buf[1],
        flags_model(buf).0 / 0x1_0000 % 0x100 == buf[2],
        flags_model(buf).0 / 0x100_0000 % 0x100 == buf[3],
        flags_model(buf).0 / 0x1_0000_0000 == buf[4],
{
    let flags = flags_model(buf).0;
    let (b0, b1, b2, b3, b4) = (buf[0], buf[1], buf[2], buf[3], buf[4]);
    assert(flags == b0 + b1 * 0x100 + b2 * 0x1_0000 + b3 * 0x100_0000 + b4 * 0x1_0000_0000);
    assert({
        &&& flags < 0x100_0000_0000
        &&& flags % 0x100 == b0
        &&& flags / 0x100 % 0x100 == b1
        &&& flags / 0x1_0000 % 0x100 == b2
        &&& flags / 0x100_0000 % 0x100 == b3
        &&& flags / 0x1_0000_0000 == b4
    }) by (bit_vector)
        requires
            flags == b0 + b1 * 0x100 + b2 * 0x1_0000 + b3 * 0x100_0000 + b4 * 0x1_0000_0000,
    ;
}

/// A `Pre` event reads the same where a later version of the format adds bytes: what was there
/// before stays, and what comes after all that is known is ignored.
pub proof fn law_pre_extends(s: Seq<u8>, more: Seq<u8>, states: Seq<CharState>)
    requires
        frame_pre_model(s, states) is Ok,
    ensures
        s.len() >= 63 ==> frame_pre_model(s + more, states) == frame_pre_model(s, states),
        frame_pre_model(s + more, states) matches Ok(long) ==> {
            let short = frame_pre_model(s, states)->Ok_0;
            &&& long.id == short.id
            &&& long.event == (Pre { v1_2: long.event.v1_2, ..short.event })
        },
{
    let long = s + more;
    assert(forall|i: int| 0 <= i < s.len() ==> long[i] == s[i]);
}

/// A `Post` event reads the same where a later version of the format adds bytes: what was there
/// before stays, and what comes after all that is known is ignored.
pub proof fn law_post_extends(s: Seq<u8>, more: Seq<u8>)
    requires
        frame_post_model(s) is Ok,
    ensures
        s.len() >= 52 ==> frame_post_model(s + more) == frame_post_model(s),
        frame_post_model(s + more) matches Ok(long) ==> {
            let short = frame_post_model(s)->Ok_0;
            &&& long.id == short.id
            &&& long.event == (Post { v0_2: long.event.v0_2, ..short.event })
        },
{
    let long = s + more;
    assert(forall|i: int| 0 <= i < s.len() ==> long[i] == s[i]);
}

/// A `Post` event changes what is known of the fighter at its port, and of no other.
pub proof fn law_post_leaves_other_ports(s: Seq<u8>, states: Seq<CharState>, port: int)
    requires
        states.len() == NUM_PORTS,
        post_in_range(s, states),
        0 <= port < NUM_PORTS,
        frame_post_model(s) matches Ok(post) ==> post.id.port != port,
    ensures
        states_after_post(s, states)[port] == states[port],
        states_after_post(s, states).len() == states.len(),
{
}

/// A `Pre` event that comes after a `Post` event of the same fighter reads its state for the
/// character of that `Post` event, and where a transformation has come to its end, for the one that
/// it is into.
pub proof fn law_pre_follows_post(post: Seq<u8>, pre: Seq<u8>, states: Seq<CharState>)
    requires
        states.len() == NUM_PORTS,
        frame_post_model(post) is Ok,
        post_in_range(post, states),
        frame_pre_model(pre, states_after_post(post, states)) is Ok,
        pre[4] == post[4],
    ensures
        ({
            let last = frame_post_model(post)->Ok_0.event;
            let next = frame_pre_model(pre, states_after_post(post, states))->Ok_0.event;
            next.state == state_of(
                be_u16(pre, 10),
                if !transform_over(states_after_post(post, states)[post[4] as int]) {
                    last.character
                } else if last.state is Zelda {
                    Internal(Internal::SHEIK)
                } else {
                    Internal(Internal::ZELDA)
                },
            )
        }),
{
}

} // verus!
