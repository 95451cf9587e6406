//! What a replay records of a whole game, at its start and at its end. Fields that came with a
//! later version of the format stand in a struct named by that version.
//!
//! The name tags are text, so the types that hold one have a view with the text as a sequence of
//! characters.
use vstd::prelude::*;

use crate::character::External;
use crate::float::Single;
use crate::stage::Stage;

verus! {

pub const NUM_PORTS: usize = 4;

#[derive(Copy, Clone, Debug, PartialEq, Eq, Structural)]
pub struct SlippiVersion(pub u8, pub u8, pub u8);

#[derive(Copy, Clone, Debug, PartialEq, Eq, Structural)]
pub struct Slippi {
    pub version: SlippiVersion,
}

/// Who plays at a port.
#[derive(Copy, Clone, Debug, PartialEq, Eq, Structural)]
pub struct PlayerType(pub u8);

impl PlayerType {
    pub const HUMAN: u8 = 0;

    pub const CPU: u8 = 1;

    pub const DEMO: u8 = 2;
}

#[derive(Copy, Clone, Debug, PartialEq, Eq, Structural)]
pub struct TeamColor(pub u8);

#[derive(Copy, Clone, Debug, PartialEq, Eq, Structural)]
pub struct TeamShade(pub u8);

#[derive(Copy, Clone, Debug, PartialEq, Eq, Structural)]
pub struct Team {
    pub color: TeamColor,
    pub shade: TeamShade,
}

#[derive(Copy, Clone, Debug, PartialEq, Eq, Structural)]
pub struct DashBack(pub u32);

#[derive(Copy, Clone, Debug, PartialEq, Eq, Structural)]
pub struct ShieldDrop(pub u32);

/// The fixes of the Universal Controller Fix that a player has on.
#[derive(Copy, Clone, Debug, PartialEq, Eq)]
pub struct Ucf {
    pub dash_back: Option<DashBack>,
    pub shield_drop: Option<ShieldDrop>,
}

#[derive(Debug, PartialEq, Eq)]
pub struct PlayerV1_3 {
    pub name_tag: String,
}

#[derive(Debug, PartialEq, Eq)]
pub struct PlayerV1_0 {
    pub ucf: Ucf,
    pub v1_3: Option<PlayerV1_3>,
}

#[derive(Debug, PartialEq, Eq)]
pub struct Player {
    pub character: External,
    pub kind: PlayerType,
    pub stocks: u8,
    pub costume: u8,
    pub team: Option<Team>,
    pub handicap: u8,
    pub bitfield: u8,
    pub cpu_level: Option<u8>,
    pub offense_ratio: Single,
    pub defense_ratio: Single,
    pub model_scale: Single,
    pub v1_0: Option<PlayerV1_0>,
}

#[derive(Copy, Clone, Debug, PartialEq, Eq, Structural)]
pub struct StartV2_0 {
    pub is_frozen_ps: bool,
}

#[derive(Copy, Clone, Debug, PartialEq, Eq)]
pub struct StartV1_5 {
    pub is_pal: bool,
    pub v2_0: Option<StartV2_0>,
}

#[derive(Debug, PartialEq, Eq)]
pub struct Start {
    pub slippi: Slippi,
    pub bitfield: [u8; 3],
    pub is_teams: bool,
    pub item_spawn_frequency: i8,
    pub self_destruct_score: i8,
    pub stage: Stage,
    pub timer: u32,
    pub item_spawn_bitfield: [u8; 5],
    pub damage_ratio: Single,
    pub players: [Option<Player>; NUM_PORTS],
    pub random_seed: u32,
    pub v1_5: Option<StartV1_5>,
}

#[derive(Copy, Clone, Debug, PartialEq, Eq, Structural)]
pub struct EndMethod(pub u8);

#[derive(Copy, Clone, Debug, PartialEq, Eq, Structural)]
pub struct EndV2_0 {
    pub lras_initiator: i8,
}

#[derive(Copy, Clone, Debug, PartialEq, Eq)]
pub struct End {
    pub method: EndMethod,
    pub v2_0: Option<EndV2_0>,
}

/// A [`PlayerV1_3`] with its text as a sequence.
pub struct PlayerV1_3View {
    pub name_tag: Seq<char>,
}

impl View for PlayerV1_3 {
    type V = PlayerV1_3View;

    open spec fn view(&self) -> PlayerV1_3View {
        PlayerV1_3View { name_tag: self.name_tag@ }
    }
}

/// A [`PlayerV1_0`] with its text as a sequence.
pub struct PlayerV1_0View {
    pub ucf: Ucf,
    pub v1_3: Option<PlayerV1_3View>,
}

impl View for PlayerV1_0 {
    type V = PlayerV1_0View;

    open spec fn view(&self) -> PlayerV1_0View {
        PlayerV1_0View {
            ucf: self.ucf,
            v1_3: match self.v1_3 {
                Some(v1_3) => Some(v1_3@),
                None => None,
            },
        }
    }
}

/// A [`Player`] with its text as a sequence.
pub struct PlayerView {
    pub character: External,
    pub kind: PlayerType,
    pub stocks: u8,
    pub costume: u8,
    pub team: Option<Team>,
    pub handicap: u8,
    pub bitfield: u8,
    pub cpu_level: Option<u8>,
    pub offense_ratio: Single,
    pub defense_ratio: Single,
    pub model_scale: Single,
    pub v1_0: Option<PlayerV1_0View>,
}

impl View for Player {
    type V = PlayerView;

    open spec fn view(&self) -> PlayerView {
        PlayerView {
            character: self.character,
            kind: self.kind,
            stocks: self.stocks,
            costume: self.costume,
            team: self.team,
            handicap: self.handicap,
            bitfield: self.bitfield,
            cpu_level: self.cpu_level,
            offense_ratio: self.offense_ratio,
            defense_ratio: self.defense_ratio,
            model_scale: self.model_scale,
            v1_0: match self.v1_0 {
                Some(v1_0) => Some(v1_0@),
                None => None,
            },
        }
    }
}

/// The view of the player at a port, where there is one.
pub open spec fn player_view(player: Option<Player>) -> Option<PlayerView> {
    match player {
        Some(player) => Some(player@),
        None => None,
    }
}

/// A [`Start`] with its text as sequences.
#[verifier::ext_equal]
pub struct StartView {
    pub slippi: Slippi,
    pub bitfield: Seq<u8>,
    pub is_teams: bool,
    pub item_spawn_frequency: i8,
    pub self_destruct_score: i8,
    pub stage: Stage,
    pub timer: u32,
    pub item_spawn_bitfield: Seq<u8>,
    pub damage_ratio: Single,
    pub players: Seq<Option<PlayerView>>,
    pub random_seed: u32,
    pub v1_5: Option<StartV1_5>,
}

impl View for Start {
    type V = StartView;

    open spec fn view(&self) -> StartView {
        StartView {
            slippi: self.slippi,
            bitfield: self.bitfield@,
            is_teams: self.is_teams,
            item_spawn_frequency: self.item_spawn_frequency,
            self_destruct_score: self.self_destruct_score,
            stage: self.stage,
            timer: self.timer,
            item_spawn_bitfield: self.item_spawn_bitfield@,
            damage_ratio: self.damage_ratio,
            players: Seq::new(
                NUM_PORTS as nat,
                |port: int| player_view(self.players@[port]),
            ),
            random_seed: self.random_seed,
            v1_5: self.v1_5,
        }
    }
}

/// The view of a player has all that the player has.
pub proof fn law_player_view(player: Player)
    ensures
        player@.character == player.character,
        player@.kind == player.kind,
        player@.stocks == player.stocks,
        player@.costume == player.costume,
        player@.team == player.team,
        player@.handicap == player.handicap,
        player@.bitfield == player.bitfield,
        player@.cpu_level == player.cpu_level,
        player@.offense_ratio == player.offense_ratio,
        player@.defense_ratio == player.defense_ratio,
        player@.model_scale == player.model_scale,
        player@.v1_0 is Some <==> player.v1_0 is Some,
        player.v1_0 is Some ==> player@.v1_0->0 == player.v1_0->0@,
{
}

/// The view of what versions 1.0 and 1.3 added has all of it, the name tag as its characters.
pub proof fn law_player_additions_view(v1_0: PlayerV1_0, v1_3: PlayerV1_3)
    ensures
        v1_3@.name_tag == v1_3.name_tag@,
        v1_0@.ucf == v1_0.ucf,
        v1_0@.v1_3 is Some <==> v1_0.v1_3 is Some,
        v1_0.v1_3 is Some ==> v1_0@.v1_3->0.name_tag == v1_0.v1_3->0.name_tag@,
{
}

/// The view of a port has a player exactly where the port has one, and it is that player.
pub proof fn law_port_view(player: Option<Player>)
    ensures
        player_view(player) is Some <==> player is Some,
        player is Some ==> player_view(player)->0 == player->0@,
{
}

/// The view of a game's start has all that the start has, and each player at its own port.
pub proof fn law_start_view(start: Start)
    ensures
        start@.slippi == start.slippi,
        start@.bitfield == start.bitfield@,
        start@.is_teams == start.is_teams,
        start@.item_spawn_frequency == start.item_spawn_frequency,
        start@.self_destruct_score == start.self_destruct_score,
        start@.stage == start.stage,
        start@.timer == start.timer,
        start@.item_spawn_bitfield == start.item_spawn_bitfield@,
        start@.damage_ratio == start.damage_ratio,
        start@.players.len() == 4,
        forall|port: int|
            0 <= port < 4 ==> {
                &&& #[trigger] start@.players[port] is Some <==> start.players@[port] is Some
                &&& start.players@[port] is Some ==> start@.players[port]->0
                    == start.players@[port]->0@
            },
        start@.random_seed == start.random_seed,
        start@.v1_5 == start.v1_5,
{
}

} // verus!
