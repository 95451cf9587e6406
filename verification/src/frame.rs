//! What a replay records of one fighter in one frame: a `Pre` event before the game computes the
//! frame, and a `Post` event after it. Fields that came with a later version of the format stand
//! in a struct named by that version.
use vstd::prelude::*;

use crate::action_state::State;
use crate::attack::Attack;
use crate::buttons;
use crate::character::Internal;
use crate::float::Single;
use crate::triggers;

verus! {

#[derive(Copy, Clone, Debug, PartialEq, Eq, Structural)]
pub struct Position {
    pub x: Single,
    pub y: Single,
}

/// The way a fighter faces.
#[derive(Copy, Clone, Debug, PartialEq, Eq, Structural)]
pub enum Direction {
    LEFT,
    RIGHT,
}

#[derive(Copy, Clone, Debug, PartialEq, Eq, Structural)]
pub struct Buttons {
    pub logical: buttons::Logical,
    pub physical: buttons::Physical,
}

#[derive(Copy, Clone, Debug, PartialEq, Eq, Structural)]
pub struct Triggers {
    pub logical: Single,
    pub physical: triggers::Physical,
}

#[derive(Copy, Clone, Debug, PartialEq, Eq, Structural)]
pub struct PreV1_4 {
    pub damage: Single,
}

#[derive(Copy, Clone, Debug, PartialEq, Eq)]
pub struct PreV1_2 {
    pub raw_analog_x: u8,
    pub v1_4: Option<PreV1_4>,
}

#[derive(Copy, Clone, Debug, PartialEq, Eq)]
pub struct Pre {
    pub index: i32,
    pub random_seed: u32,
    pub state: State,
    pub position: Position,
    pub direction: Direction,
    pub joystick: Position,
    pub cstick: Position,
    pub triggers: Triggers,
    pub buttons: Buttons,
    pub v1_2: Option<PreV1_2>,
}

/// Forty bits that say more about a state.
#[derive(Copy, Clone, Debug, PartialEq, Eq, Structural)]
pub struct StateFlags(pub u64);

#[derive(Copy, Clone, Debug, PartialEq, Eq, Structural)]
pub struct LCancel(pub u8);

#[derive(Copy, Clone, Debug, PartialEq, Eq, Structural)]
pub struct HurtboxState(pub u8);

#[derive(Copy, Clone, Debug, PartialEq, Eq, Structural)]
pub struct PostV2_1 {
    pub hurtbox_state: HurtboxState,
}

#[derive(Copy, Clone, Debug, PartialEq, Eq)]
pub struct PostV2_0 {
    pub flags: StateFlags,
    pub misc_as: Single,
    pub ground: u16,
    pub jumps: u8,
    pub l_cancel: Option<LCancel>,
    pub airborne: bool,
    pub v2_1: Option<PostV2_1>,
}

#[derive(Copy, Clone, Debug, PartialEq, Eq)]
pub struct PostV0_2 {
    pub state_age: Single,
    pub v2_0: Option<PostV2_0>,
}

#[derive(Copy, Clone, Debug, PartialEq, Eq)]
pub struct Post {
    pub index: i32,
    pub character: Internal,
    pub state: State,
    pub position: Position,
    pub direction: Direction,
    pub damage: Single,
    pub shield: Single,
    pub last_attack_landed: Option<Attack>,
    pub combo_count: u8,
    pub last_hit_by: u8,
    pub stocks: u8,
    pub v0_2: Option<PostV0_2>,
}

} // verus!
