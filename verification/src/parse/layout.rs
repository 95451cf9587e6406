//! Where each field of an event stands in its payload, and which payloads are read.
//!
//! Every number of a payload is big-endian. A field is named here by its offset, so that what is
//! read of a payload can be told from its bytes alone.
use vstd::prelude::*;

use crate::action_state::{law_states, state_of};
use crate::attack::Attack;
use crate::bytes::{be_i32, be_i8, be_u16, be_u32, law_big_endian, law_twos_complement};
use crate::character::Internal;
use crate::error::Failure;
use crate::float::Single;
use crate::frame::{Direction, LCancel};
use crate::game::{DashBack, ShieldDrop};
use crate::outside::{ascii_text, is_ascii, shift_jis_text};
use crate::parse::char_state::{age_fits, next_char_state, predicted, CharState};
use crate::parse::frame_events::{
    direction_model, frame_post_model, frame_pre_model, law_flags_keep_bytes, post_in_range,
    post_v0_2_model, post_v2_0_model, post_v2_1_model, pre_in_range, pre_v1_2_model,
    pre_v1_4_model, states_after_post,
};
use crate::parse::game_events::{
    array_bytes, end_v2_0_model, game_end_model, game_start_model, name_tag_bytes, player_model,
    player_v1_0_model, player_v1_3_model, start_v1_5_model, start_v2_0_model,
};

verus! {

/// A number below zero faces left and one above it right, infinities among them. Zeros and NaNs
/// face nowhere.
pub proof fn law_directions(value: Single)
    ensures
        direction_model(value) == Ok::<Direction, Failure>(Direction::LEFT) <==> 0x8000_0001
            <= value.bits <= 0xff80_0000,
        direction_model(value) == Ok::<Direction, Failure>(Direction::RIGHT) <==> 0x0000_0001
            <= value.bits <= 0x7f80_0000,
        direction_model(value) is Err ==> direction_model(value)->Err_0 is NoDirection,
{
}

/// A `Pre` event is read exactly where there are 58 bytes, 59, or 63 and more, and the number at
/// offset 20 has a sign. It is refused for the number where the bytes come so far, and for its
/// length otherwise.
pub proof fn law_pre_lengths(s: Seq<u8>, states: Seq<CharState>)
    ensures
        ({
            let model = frame_pre_model(s, states);
            let facing = be_u32(s, 20);
            let faces = 0x0000_0001 <= facing <= 0x7f80_0000 || 0x8000_0001 <= facing
                <= 0xff80_0000;
            let length = s.len() == 58 || s.len() == 59 || s.len() >= 63;
            &&& model is Ok <==> length && faces
            &&& s.len() >= 24 && !faces ==> model is Err && model->Err_0 is NoDirection
            &&& s.len() < 24 || (faces && !length) ==> model is Err
                && model->Err_0 is UnexpectedEof
        }),
{
}

/// Which fighter, in which frame, a `Pre` event is about, and the fields of its first version.
pub proof fn law_pre_fields(s: Seq<u8>, states: Seq<CharState>)
    requires
        frame_pre_model(s, states) is Ok,
    ensures
        ({
            let pre = frame_pre_model(s, states)->Ok_0;
            &&& pre.id.index == be_i32(s, 0)
            &&& pre.id.port == s[4]
            &&& pre.id.is_follower <==> s[5] != 0
            &&& pre.event.index == be_i32(s, 0)
            &&& pre.event.random_seed == be_u32(s, 6)
            &&& pre.event.state == state_of(be_u16(s, 10), predicted(states[s[4] as int]))
            &&& pre.event.position.x.bits == be_u32(s, 12)
            &&& pre.event.position.y.bits == be_u32(s, 16)
            &&& pre.event.direction == Direction::LEFT <==> 0x8000_0001 <= be_u32(s, 20)
                <= 0xff80_0000
            &&& pre.event.direction == Direction::RIGHT <==> 0x0000_0001 <= be_u32(s, 20)
                <= 0x7f80_0000
            &&& pre.event.joystick.x.bits == be_u32(s, 24)
            &&& pre.event.joystick.y.bits == be_u32(s, 28)
            &&& pre.event.cstick.x.bits == be_u32(s, 32)
            &&& pre.event.cstick.y.bits == be_u32(s, 36)
            &&& pre.event.triggers.logical.bits == be_u32(s, 40)
            &&& pre.event.buttons.logical.0 == be_u32(s, 44)
            &&& pre.event.buttons.physical.0 == be_u16(s, 48)
            &&& pre.event.triggers.physical.l.bits == be_u32(s, 50)
            &&& pre.event.triggers.physical.r.bits == be_u32(s, 54)
        }),
{
}

/// The fields of a `Pre` event that came with versions 1.2 and 1.4. They are there exactly where
/// there are bytes for them.
pub proof fn law_pre_additions(s: Seq<u8>, states: Seq<CharState>)
    requires
        frame_pre_model(s, states) is Ok,
    ensures
        ({
            let v1_2 = frame_pre_model(s, states)->Ok_0.event.v1_2;
            &&& v1_2 is Some <==> s.len() > 58
            &&& v1_2 is Some ==> v1_2->0.raw_analog_x == s[58]
            &&& v1_2 is Some ==> (v1_2->0.v1_4 is Some <==> s.len() > 59)
            &&& v1_2 is Some && v1_2->0.v1_4 is Some ==> v1_2->0.v1_4->0.damage.bits == be_u32(s, 59)
        }),
{
}

/// The additions to a `Pre` event by themselves.
pub proof fn law_pre_additions_alone(s: Seq<u8>)
    ensures
        pre_v1_4_model(s) is Ok <==> s.len() >= 4,
        pre_v1_4_model(s) is Ok ==> pre_v1_4_model(s)->Ok_0.damage.bits == be_u32(s, 0),
        pre_v1_4_model(s) is Err ==> pre_v1_4_model(s)->Err_0 is UnexpectedEof,
        pre_v1_2_model(s) is Ok <==> s.len() == 1 || s.len() >= 5,
        pre_v1_2_model(s) is Ok ==> {
            let v1_2 = pre_v1_2_model(s)->Ok_0;
            &&& v1_2.raw_analog_x == s[0]
            &&& v1_2.v1_4 is Some <==> s.len() > 1
            &&& v1_2.v1_4 is Some ==> v1_2.v1_4->0.damage.bits == be_u32(s, 1)
        },
        pre_v1_2_model(s) is Err ==> pre_v1_2_model(s)->Err_0 is UnexpectedEof,
{
}

/// The port of a `Pre` event stands at offset 4, and is looked at where six bytes are there.
pub proof fn law_pre_ports(s: Seq<u8>)
    ensures
        pre_in_range(s) <==> s.len() < 6 || s[4] < 4,
{
}

/// A `Post` event is read exactly where there are 33 bytes, 37, or 51 and more, and the number at
/// offset 17 has a sign. It is refused for the number where the bytes come so far, and for its
/// length otherwise.
pub proof fn law_post_lengths(s: Seq<u8>)
    ensures
        ({
            let model = frame_post_model(s);
            let facing = be_u32(s, 17);
            let faces = 0x0000_0001 <= facing <= 0x7f80_0000 || 0x8000_0001 <= facing
                <= 0xff80_0000;
            let length = s.len() == 33 || s.len() == 37 || s.len() >= 51;
            &&& model is Ok <==> length && faces
            &&& s.len() >= 21 && !faces ==> model is Err && model->Err_0 is NoDirection
            &&& s.len() < 21 || (faces && !length) ==> model is Err
                && model->Err_0 is UnexpectedEof
        }),
{
}

/// Which fighter, in which frame, a `Post` event is about, and the fields of its first version.
pub proof fn law_post_fields(s: Seq<u8>)
    requires
        frame_post_model(s) is Ok,
    ensures
        ({
            let post = frame_post_model(s)->Ok_0;
            &&& post.id.index == be_i32(s, 0)
            &&& post.id.port == s[4]
            &&& post.id.is_follower <==> s[5] != 0
            &&& post.event.index == be_i32(s, 0)
            &&& post.event.character.0 == s[6]
            &&& post.event.state == state_of(be_u16(s, 7), post.event.character)
            &&& post.event.position.x.bits == be_u32(s, 9)
            &&& post.event.position.y.bits == be_u32(s, 13)
            &&& post.event.direction == Direction::LEFT <==> 0x8000_0001 <= be_u32(s, 17)
                <= 0xff80_0000
            &&& post.event.direction == Direction::RIGHT <==> 0x0000_0001 <= be_u32(s, 17)
                <= 0x7f80_0000
            &&& post.event.damage.bits == be_u32(s, 21)
            &&& post.event.shield.bits == be_u32(s, 25)
            &&& post.event.last_attack_landed == if s[29] == 0 {
                None
            } else {
                Some(Attack(s[29]))
            }
            &&& post.event.combo_count == s[30]
            &&& post.event.last_hit_by == s[31]
            &&& post.event.stocks == s[32]
        }),
{
}

/// The fields of a `Post` event that came with versions 0.2, 2.0 and 2.1. They are there exactly
/// where there are bytes for them.
pub proof fn law_post_additions(s: Seq<u8>)
    requires
        frame_post_model(s) is Ok,
    ensures
        ({
            let v0_2 = frame_post_model(s)->Ok_0.event.v0_2;
            let v2_0 = v0_2->0.v2_0;
            &&& v0_2 is Some <==> s.len() > 33
            &&& v0_2 is Some ==> v0_2->0.state_age.bits == be_u32(s, 33)
            &&& v0_2 is Some ==> (v2_0 is Some <==> s.len() > 37)
            &&& v0_2 is Some && v2_0 is Some ==> {
                &&& v2_0->0.flags.0 < 0x100_0000_0000
                &&& v2_0->0.flags.0 % 0x100 == s[37]
                &&& v2_0->0.flags.0 / 0x100 % 0x100 == s[38]
                &&& v2_0->0.flags.0 / 0x1_0000 % 0x100 == s[39]
                &&& v2_0->0.flags.0 / 0x100_0000 % 0x100 == s[40]
                &&& v2_0->0.flags.0 / 0x1_0000_0000 == s[41]
                &&& v2_0->0.misc_as.bits == be_u32(s, 42)
                &&& v2_0->0.ground == be_u16(s, 46)
                &&& v2_0->0.jumps == s[48]
                &&& v2_0->0.l_cancel == if s[49] == 0 {
                    None
                } else {
                    Some(LCancel(s[49]))
                }
                &&& v2_0->0.airborne <==> s[50] != 0
                &&& v2_0->0.v2_1 is Some <==> s.len() > 51
                &&& v2_0->0.v2_1 is Some ==> v2_0->0.v2_1->0.hurtbox_state.0 == s[51]
            }
        }),
{
    if s.len() > 37 {
        let t = s.skip(33).skip(4);
        assert(t[0] == s[37] && t[1] == s[38] && t[2] == s[39] && t[3] == s[40] && t[4] == s[41]);
        law_flags_keep_bytes(t);
    }
}

/// The additions to a `Post` event by themselves.
pub proof fn law_post_additions_alone(s: Seq<u8>)
    ensures
        post_v2_1_model(s) is Ok <==> s.len() >= 1,
        post_v2_1_model(s) is Ok ==> post_v2_1_model(s)->Ok_0.hurtbox_state.0 == s[0],
        post_v2_1_model(s) is Err ==> post_v2_1_model(s)->Err_0 is UnexpectedEof,
        post_v2_0_model(s) is Ok <==> s.len() >= 14,
        post_v2_0_model(s) is Ok ==> {
            let v2_0 = post_v2_0_model(s)->Ok_0;
            &&& v2_0.flags.0 < 0x100_0000_0000
            &&& v2_0.flags.0 % 0x100 == s[0]
            &&& v2_0.flags.0 / 0x100 % 0x100 == s[1]
            &&& v2_0.flags.0 / 0x1_0000 % 0x100 == s[2]
            &&& v2_0.flags.0 / 0x100_0000 % 0x100 == s[3]
            &&& v2_0.flags.0 / 0x1_0000_0000 == s[4]
            &&& v2_0.misc_as.bits == be_u32(s, 5)
            &&& v2_0.ground == be_u16(s, 9)
            &&& v2_0.jumps == s[11]
            &&& v2_0.l_cancel == if s[12] == 0 {
                None
            } else {
                Some(LCancel(s[12]))
            }
            &&& v2_0.airborne <==> s[13] != 0
            &&& v2_0.v2_1 is Some <==> s.len() > 14
            &&& v2_0.v2_1 is Some ==> v2_0.v2_1->0.hurtbox_state.0 == s[14]
        },
        post_v2_0_model(s) is Err ==> post_v2_0_model(s)->Err_0 is UnexpectedEof,
        post_v0_2_model(s) is Ok <==> s.len() == 4 || s.len() >= 18,
        post_v0_2_model(s) is Ok ==> {
            let v0_2 = post_v0_2_model(s)->Ok_0;
            &&& v0_2.state_age.bits == be_u32(s, 0)
            &&& v0_2.v2_0 is Some <==> s.len() > 4
            &&& v0_2.v2_0 is Some ==> post_v2_0_model(s.skip(4)) is Ok && v0_2.v2_0->0
                == post_v2_0_model(s.skip(4))->Ok_0
        },
        post_v0_2_model(s) is Err ==> post_v0_2_model(s)->Err_0 is UnexpectedEof,
{
    law_flags_keep_bytes(s);
}

/// A `Post` event is out of range where it can be read and names a port from 4 up, or lets the age
/// of its fighter's state outgrow its counter.
pub proof fn law_post_ports(s: Seq<u8>, states: Seq<CharState>)
    ensures
        frame_post_model(s) is Err ==> post_in_range(s, states),
        frame_post_model(s) is Ok ==> (post_in_range(s, states) <==> s[4] < 4 && age_fits(
            states[s[4] as int],
            state_of(be_u16(s, 7), frame_post_model(s)->Ok_0.event.character),
        )),
{
}

/// A `Post` event is taken in for the fighter at its port, and one that is refused for none.
pub proof fn law_post_taken_in(s: Seq<u8>, states: Seq<CharState>)
    requires
        states.len() == 4,
        post_in_range(s, states),
    ensures
        frame_post_model(s) is Err ==> states_after_post(s, states) == states,
        frame_post_model(s) is Ok ==> {
            let after = states_after_post(s, states);
            let post = frame_post_model(s)->Ok_0.event;
            &&& after.len() == 4
            &&& after[s[4] as int].character.0 == s[6]
            &&& after[s[4] as int] == next_char_state(
                states[s[4] as int],
                post.character,
                post.state,
            )
            &&& forall|port: int|
                0 <= port < 4 && port != s[4] ==> #[trigger] after[port] == states[port]
        },
{
}

/// The start of a game is read exactly where there are 320 bytes, 352, or 416 and more.
pub proof fn law_start_lengths(s: Seq<u8>)
    ensures
        game_start_model(s) is Ok <==> s.len() == 320 || s.len() == 352 || s.len() >= 416,
        game_start_model(s) is Err ==> game_start_model(s)->Err_0 is UnexpectedEof,
{
}

/// The settings of a game.
pub proof fn law_start_fields(s: Seq<u8>)
    requires
        game_start_model(s) is Ok,
    ensures
        ({
            let start = game_start_model(s)->Ok_0;
            &&& start.slippi.version.0 == s[0]
            &&& start.slippi.version.1 == s[1]
            &&& start.slippi.version.2 == s[2]
            &&& start.bitfield.len() == 3
            &&& start.bitfield[0] == s[4]
            &&& start.bitfield[1] == s[5]
            &&& start.bitfield[2] == s[7]
            &&& start.is_teams <==> s[12] != 0
            &&& start.item_spawn_frequency == be_i8(s, 15)
            &&& start.self_destruct_score == be_i8(s, 16)
            &&& start.stage.0 == be_u16(s, 18)
            &&& start.timer == be_u32(s, 20)
            &&& start.item_spawn_bitfield.len() == 5
            &&& forall|i: int|
                0 <= i < 5 ==> #[trigger] start.item_spawn_bitfield[i] == s[39 + i]
            &&& start.damage_ratio.bits == be_u32(s, 52)
            &&& start.players.len() == 4
            &&& start.random_seed == be_u32(s, 316)
            &&& start.v1_5 is Some <==> s.len() > 416
            &&& start.v1_5 is Some ==> (start.v1_5->0.is_pal <==> s[416] != 0)
            &&& start.v1_5 is Some ==> (start.v1_5->0.v2_0 is Some <==> s.len() > 417)
            &&& start.v1_5 is Some && start.v1_5->0.v2_0 is Some ==> (
            start.v1_5->0.v2_0->0.is_frozen_ps <==> s[417] != 0)
        }),
{
}

/// The player at each port: there is one exactly where a human, the computer or the demo plays,
/// and what is said of it stands in the 36 bytes of that port, from offset 100 on.
pub proof fn law_start_players(s: Seq<u8>, port: int)
    requires
        game_start_model(s) is Ok,
        0 <= port < 4,
    ensures
        ({
            let player = game_start_model(s)->Ok_0.players[port];
            let at = 100 + 36 * port;
            &&& player is Some <==> s[at + 1] == 0 || s[at + 1] == 1 || s[at + 1] == 2
            &&& player is Some ==> {
                &&& player->0.character.0 == s[at]
                &&& player->0.kind.0 == s[at + 1]
                &&& player->0.stocks == s[at + 2]
                &&& player->0.costume == s[at + 3]
                &&& player->0.team is Some <==> s[12] != 0
                &&& player->0.team is Some ==> player->0.team->0.shade.0 == s[at + 7]
                    && player->0.team->0.color.0 == s[at + 9]
                &&& player->0.handicap == s[at + 8]
                &&& player->0.bitfield == s[at + 12]
                &&& player->0.cpu_level is Some <==> s[at + 1] == 1
                &&& player->0.cpu_level is Some ==> player->0.cpu_level->0 == s[at + 15]
                &&& player->0.offense_ratio.bits == be_u32(s, at + 20)
                &&& player->0.defense_ratio.bits == be_u32(s, at + 24)
                &&& player->0.model_scale.bits == be_u32(s, at + 28)
            }
        }),
{
}

/// What versions 1.0 and 1.3 added of the player at each port: the controller fixes stand in its
/// eight bytes from offset 320 on, and are off where they are zero. The name tag stands in its
/// sixteen bytes from offset 352 on, and is the Shift_JIS text of the `n` bytes before the first
/// null.
pub proof fn law_start_player_additions(s: Seq<u8>, port: int, n: int)
    requires
        game_start_model(s) is Ok,
        0 <= port < 4,
        game_start_model(s)->Ok_0.players[port] is Some,
        0 <= n <= 16,
        s.len() > 352 ==> forall|i: int| 0 <= i < n ==> #[trigger] s[352 + 16 * port + i] != 0,
        s.len() > 352 && n < 16 ==> s[352 + 16 * port + n] == 0,
    ensures
        ({
            let v1_0 = game_start_model(s)->Ok_0.players[port]->0.v1_0;
            let fixes = 320 + 8 * port;
            let tag = 352 + 16 * port;
            &&& v1_0 is Some <==> s.len() > 320
            &&& v1_0 is Some ==> {
                &&& v1_0->0.ucf.dash_back == if be_u32(s, fixes) == 0 {
                    None
                } else {
                    Some(DashBack(be_u32(s, fixes)))
                }
                &&& v1_0->0.ucf.shield_drop == if be_u32(s, fixes + 4) == 0 {
                    None
                } else {
                    Some(ShieldDrop(be_u32(s, fixes + 4)))
                }
                &&& v1_0->0.v1_3 is Some <==> s.len() > 352
                &&& v1_0->0.v1_3 is Some ==> v1_0->0.v1_3->0.name_tag == shift_jis_text(
                    s.subrange(tag, tag + n),
                )
            }
        }),
{
    if s.len() > 352 {
        let tag = s.subrange(352 + 16 * port, 368 + 16 * port);
        assert forall|i: int| 0 <= i < n implies #[trigger] tag[i] != 0 by {
            assert(s[352 + 16 * port + i] != 0);
        }
        law_name_tags(tag, n);
        assert(tag.take(n) =~= s.subrange(352 + 16 * port, 352 + 16 * port + n));
    }
}

/// The name tag in sixteen bytes is the text of those before the first null, or of all of them.
pub proof fn law_name_tags(s: Seq<u8>, n: int)
    requires
        s.len() == 16,
        0 <= n <= 16,
        forall|i: int| 0 <= i < n ==> #[trigger] s[i] != 0,
        n < 16 ==> s[n] == 0,
    ensures
        name_tag_bytes(s) == s.take(n),
        player_v1_3_model(s).name_tag == shift_jis_text(s.take(n)),
{
    s.index_of_first_ensures(0u8);
    if n < 16 {
        assert(s.contains(0u8)) by {
            assert(s[n] == 0u8);
        }
    } else {
        assert(!s.contains(0u8));
        assert(s.take(16) =~= s);
    }
}

/// ASCII bytes as text keep their number and their codes.
pub proof fn law_ascii(s: Seq<u8>)
    ensures
        is_ascii(s) <==> (forall|i: int| 0 <= i < s.len() ==> #[trigger] s[i] < 0x80),
        ascii_text(s).len() == s.len(),
        forall|i: int| 0 <= i < s.len() ==> #[trigger] ascii_text(s)[i] == s[i] as char,
{
}

/// The player in the bytes of one port.
pub proof fn law_player_bytes(
    s: Seq<u8>,
    is_teams: bool,
    v1_0: Option<Seq<u8>>,
    v1_3: Option<Seq<u8>>,
)
    ensures
        ({
            let player = player_model(s, is_teams, v1_0, v1_3);
            &&& player is Some <==> s[1] == 0 || s[1] == 1 || s[1] == 2
            &&& player is Some ==> {
                &&& player->0.character.0 == s[0]
                &&& player->0.kind.0 == s[1]
                &&& player->0.stocks == s[2]
                &&& player->0.costume == s[3]
                &&& player->0.team is Some <==> is_teams
                &&& player->0.team is Some ==> player->0.team->0.shade.0 == s[7]
                    && player->0.team->0.color.0 == s[9]
                &&& player->0.handicap == s[8]
                &&& player->0.bitfield == s[12]
                &&& player->0.cpu_level is Some <==> s[1] == 1
                &&& player->0.cpu_level is Some ==> player->0.cpu_level->0 == s[15]
                &&& player->0.offense_ratio.bits == be_u32(s, 20)
                &&& player->0.defense_ratio.bits == be_u32(s, 24)
                &&& player->0.model_scale.bits == be_u32(s, 28)
                &&& player->0.v1_0 is Some <==> v1_0 is Some
                &&& v1_0 is Some ==> player->0.v1_0->0 == player_v1_0_model(v1_0->0, v1_3)
            }
        }),
{
}

/// The additions of version 1.0 in the eight bytes of one port, with those of version 1.3.
pub proof fn law_player_fixes(s: Seq<u8>, v1_3: Option<Seq<u8>>)
    ensures
        ({
            let v1_0 = player_v1_0_model(s, v1_3);
            &&& v1_0.ucf.dash_back is Some <==> be_u32(s, 0) != 0
            &&& v1_0.ucf.dash_back is Some ==> v1_0.ucf.dash_back == Some(DashBack(be_u32(s, 0)))
            &&& v1_0.ucf.shield_drop is Some <==> be_u32(s, 4) != 0
            &&& v1_0.ucf.shield_drop is Some ==> v1_0.ucf.shield_drop == Some(
                ShieldDrop(be_u32(s, 4)),
            )
            &&& v1_0.v1_3 is Some <==> v1_3 is Some
            &&& v1_3 is Some ==> v1_0.v1_3->0 == player_v1_3_model(v1_3->0)
        }),
{
}

/// The additions to the start of a game by themselves.
pub proof fn law_start_additions_alone(s: Seq<u8>)
    ensures
        start_v2_0_model(s) is Ok <==> s.len() >= 1,
        start_v2_0_model(s) is Ok ==> (start_v2_0_model(s)->Ok_0.is_frozen_ps <==> s[0] != 0),
        start_v2_0_model(s) is Err ==> start_v2_0_model(s)->Err_0 is UnexpectedEof,
        start_v1_5_model(s) is Ok <==> s.len() >= 1,
        start_v1_5_model(s) is Ok ==> {
            let v1_5 = start_v1_5_model(s)->Ok_0;
            &&& v1_5.is_pal <==> s[0] != 0
            &&& v1_5.v2_0 is Some <==> s.len() > 1
            &&& v1_5.v2_0 is Some ==> (v1_5.v2_0->0.is_frozen_ps <==> s[1] != 0)
        },
        start_v1_5_model(s) is Err ==> start_v1_5_model(s)->Err_0 is UnexpectedEof,
{
}

/// The end of a game: how it ended and, where there is a second byte, who left it.
pub proof fn law_end_fields(s: Seq<u8>)
    ensures
        game_end_model(s) is Ok <==> s.len() >= 1,
        game_end_model(s) is Ok ==> {
            let end = game_end_model(s)->Ok_0;
            &&& end.method.0 == s[0]
            &&& end.v2_0 is Some <==> s.len() > 1
            &&& end.v2_0 is Some ==> end.v2_0->0.lras_initiator == be_i8(s, 1)
        },
        game_end_model(s) is Err ==> game_end_model(s)->Err_0 is UnexpectedEof,
        end_v2_0_model(s) is Ok <==> s.len() >= 1,
        end_v2_0_model(s) is Ok ==> end_v2_0_model(s)->Ok_0.lras_initiator == be_i8(s, 0),
        end_v2_0_model(s) is Err ==> end_v2_0_model(s)->Err_0 is UnexpectedEof,
{
}

/// An array is seen as its bytes.
pub proof fn law_array_bytes<const N: usize>(bytes: Option<[u8; N]>)
    ensures
        array_bytes(bytes) is Some <==> bytes is Some,
        bytes is Some ==> array_bytes(bytes)->0 == bytes->0@,
{
}

/// Bytes of which the same numbers are read are the same bytes.
proof fn lemma_same_bytes(s: Seq<u8>, t: Seq<u8>, at: int)
    ensures
        be_u16(s, at) == be_u16(t, at) ==> s[at] == t[at] && s[at + 1] == t[at + 1],
        be_u32(s, at) == be_u32(t, at) ==> s[at] == t[at] && s[at + 1] == t[at + 1] && s[at + 2]
            == t[at + 2] && s[at + 3] == t[at + 3],
        be_i32(s, at) == be_i32(t, at) ==> be_u32(s, at) == be_u32(t, at),
{
    law_big_endian(s, at);
    law_big_endian(t, at);
    law_twos_complement(s, at);
    law_twos_complement(t, at);
}

/// A `Pre` event keeps the bytes of its payload: two payloads of one length that read as one event
/// have the same bytes, up to what is not read. The byte at offset 5 counts for zero or not, and
/// the number at offset 20 for its sign.
pub proof fn law_pre_keeps_bytes(s: Seq<u8>, t: Seq<u8>, states: Seq<CharState>)
    requires
        s.len() == t.len(),
        frame_pre_model(s, states) is Ok,
        frame_pre_model(t, states) == frame_pre_model(s, states),
    ensures
        s[5] == 0 <==> t[5] == 0,
        be_u32(s, 20) >= 0x8000_0000 <==> be_u32(t, 20) >= 0x8000_0000,
        forall|i: int|
            0 <= i < s.len() && i < 63 && i != 5 && !(20 <= i < 24) ==> #[trigger] s[i] == t[i],
{
    law_pre_lengths(s, states);
    law_pre_fields(s, states);
    law_pre_fields(t, states);
    law_pre_additions(s, states);
    law_pre_additions(t, states);
    lemma_same_bytes(s, t, 0);
    lemma_same_bytes(s, t, 6);
    law_states(be_u16(s, 10), predicted(states[s[4] as int]));
    law_states(be_u16(t, 10), predicted(states[t[4] as int]));
    lemma_same_bytes(s, t, 10);
    lemma_same_bytes(s, t, 12);
    lemma_same_bytes(s, t, 16);
    lemma_same_bytes(s, t, 24);
    lemma_same_bytes(s, t, 28);
    lemma_same_bytes(s, t, 32);
    lemma_same_bytes(s, t, 36);
    lemma_same_bytes(s, t, 40);
    lemma_same_bytes(s, t, 44);
    lemma_same_bytes(s, t, 48);
    lemma_same_bytes(s, t, 50);
    lemma_same_bytes(s, t, 54);
    lemma_same_bytes(s, t, 59);
}

/// A `Post` event keeps the bytes of its payload: two payloads of one length that read as one event
/// have the same bytes, up to what is not read. The bytes at offsets 5 and 50 count for zero or
/// not, and the number at offset 17 for its sign.
pub proof fn law_post_keeps_bytes(s: Seq<u8>, t: Seq<u8>)
    requires
        s.len() == t.len(),
        frame_post_model(s) is Ok,
        frame_post_model(t) == frame_post_model(s),
    ensures
        s[5] == 0 <==> t[5] == 0,
        s.len() > 50 ==> (s[50] == 0 <==> t[50] == 0),
        be_u32(s, 17) >= 0x8000_0000 <==> be_u32(t, 17) >= 0x8000_0000,
        forall|i: int|
            0 <= i < s.len() && i < 52 && i != 5 && i != 50 && !(17 <= i < 21) ==> #[trigger] s[i]
                == t[i],
{
    law_post_lengths(s);
    law_post_fields(s);
    law_post_fields(t);
    law_post_additions(s);
    law_post_additions(t);
    law_states(be_u16(s, 7), Internal(s[6]));
    law_states(be_u16(t, 7), Internal(t[6]));
    lemma_same_bytes(s, t, 0);
    lemma_same_bytes(s, t, 7);
    lemma_same_bytes(s, t, 9);
    lemma_same_bytes(s, t, 13);
    lemma_same_bytes(s, t, 21);
    lemma_same_bytes(s, t, 25);
    lemma_same_bytes(s, t, 33);
    lemma_same_bytes(s, t, 42);
    lemma_same_bytes(s, t, 46);
}

} // verus!
