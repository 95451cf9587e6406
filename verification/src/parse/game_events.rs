//! The events at the start and at the end of a game. The models give each field by its offset in
//! the payload.
use vstd::math::min;
use vstd::prelude::*;

use crate::bytes::{
    be_i8, be_u16, be_u32, read_exact, read_i8, read_u16, read_u32, read_u64, read_u8, took,
};
use crate::character::External;
use crate::error::{agrees, Error, Failure};
use crate::float::{read_single, single, Single};
use crate::game::{
    player_view, DashBack, End, EndMethod, EndV2_0, Player, PlayerType, PlayerV1_0,
    PlayerV1_0View, PlayerV1_3, PlayerV1_3View, PlayerView, ShieldDrop, Slippi, SlippiVersion,
    Start, StartV1_5, StartV2_0, StartView, Team, TeamColor, TeamShade, Ucf, NUM_PORTS,
};
use crate::outside::{ascii_text, decode_shift_jis, is_ascii, shift_jis_text};
use crate::stage::Stage;

verus! {

/// The bytes of a name tag: those before the first null.
pub open spec fn name_tag_bytes(s: Seq<u8>) -> Seq<u8> {
    match s.index_of_first(0u8) {
        Some(len) => s.take(len),
        None => s,
    }
}

/// The length of the name tag in `r`.
pub fn name_tag_len(r: &[u8; 16]) -> (len: usize)
    ensures
        len <= 16,
        r@.take(len as int) == name_tag_bytes(r@),
{
    let mut len: usize = 0;
    while len < 16 && r[len] != 0
        invariant
            len <= 16,
            forall|i: int| 0 <= i < len ==> r@[i] != 0,
        decreases 16 - len,
    {
        len += 1;
    }
    proof {
        r@.index_of_first_ensures(0u8);
        if len == 16 {
            assert(r@.take(16) == r@);
        }
    }
    len
}

/// The additions of version 1.3, once the name tag is text.
pub fn with_name_tag(name_tag: String) -> (res: PlayerV1_3)
    ensures
        res@.name_tag == name_tag@,
{
    PlayerV1_3 { name_tag }
}

/// The additions of version 1.3 in the sixteen bytes `s`.
pub open spec fn player_v1_3_model(s: Seq<u8>) -> PlayerV1_3View {
    PlayerV1_3View { name_tag: shift_jis_text(name_tag_bytes(s)) }
}

/// What version 1.3 added of a player: the name tag.
pub fn player_v1_3(r: [u8; 16]) -> (res: Result<PlayerV1_3, Error>)
    ensures
        res is Ok,
        res->Ok_0@ == player_v1_3_model(r@),
        is_ascii(name_tag_bytes(r@)) ==> res->Ok_0@.name_tag == ascii_text(name_tag_bytes(r@)),
{
    let len = name_tag_len(&r);
    Ok(with_name_tag(decode_shift_jis(&r[0..len])))
}

/// The additions of version 1.0 in the eight bytes `s`, and those of version 1.3, where there are
/// any.
pub open spec fn player_v1_0_model(s: Seq<u8>, v1_3: Option<Seq<u8>>) -> PlayerV1_0View {
    PlayerV1_0View {
        ucf: Ucf {
            dash_back: if be_u32(s, 0) == 0 {
                None
            } else {
                Some(DashBack(be_u32(s, 0)))
            },
            shield_drop: if be_u32(s, 4) == 0 {
                None
            } else {
                Some(ShieldDrop(be_u32(s, 4)))
            },
        },
        v1_3: match v1_3 {
            Some(v1_3) => Some(player_v1_3_model(v1_3)),
            None => None,
        },
    }
}

/// The bytes of an array, where there is one.
pub open spec fn array_bytes<const N: usize>(bytes: Option<[u8; N]>) -> Option<Seq<u8>> {
    match bytes {
        Some(bytes) => Some(bytes@),
        None => None,
    }
}

/// What version 1.0 and later ones added of a player.
pub fn player_v1_0(r: [u8; 8], v1_3: Option<[u8; 16]>) -> (res: Result<PlayerV1_0, Error>)
    ensures
        res is Ok,
        res->Ok_0@ == player_v1_0_model(r@, array_bytes(v1_3)),
{
    let mut r: &[u8] = &r;
    let ucf = Ucf {
        dash_back: match read_u32(&mut r)? {
            0 => None,
            db => Some(DashBack(db)),
        },
        shield_drop: match read_u32(&mut r)? {
            0 => None,
            sd => Some(ShieldDrop(sd)),
        },
    };
    Ok(
        PlayerV1_0 {
            ucf,
            v1_3: match v1_3 {
                Some(v1_3) => Some(player_v1_3(v1_3)?),
                None => None,
            },
        },
    )
}

/// What the thirty-six bytes `s` say of a player.
pub open spec fn player_v0_model(s: Seq<u8>, is_teams: bool) -> PlayerView {
    PlayerView {
        character: External(s[0]),
        kind: PlayerType(s[1]),
        stocks: s[2],
        costume: s[3],
        team: if is_teams {
            Some(Team { color: TeamColor(s[9]), shade: TeamShade(s[7]) })
        } else {
            None
        },
        handicap: s[8],
        bitfield: s[12],
        cpu_level: if s[1] == PlayerType::CPU {
            Some(s[15])
        } else {
            None
        },
        offense_ratio: single(s, 20),
        defense_ratio: single(s, 24),
        model_scale: single(s, 28),
        v1_0: None,
    }
}

/// The player that the thirty-six bytes `s` describe, where someone plays at that port.
pub open spec fn player_model(
    s: Seq<u8>,
    is_teams: bool,
    v1_0: Option<Seq<u8>>,
    v1_3: Option<Seq<u8>>,
) -> Option<PlayerView> {
    if s[1] == PlayerType::HUMAN || s[1] == PlayerType::CPU || s[1] == PlayerType::DEMO {
        Some(
            PlayerView {
                v1_0: match v1_0 {
                    Some(v1_0) => Some(player_v1_0_model(v1_0, v1_3)),
                    None => None,
                },
                ..player_v0_model(s, is_teams)
            },
        )
    } else {
        None
    }
}

/// Takes what every version has of a player.
fn read_player_v0(r: &mut &[u8], is_teams: bool) -> (res: Result<Player, Error>)
    ensures
        match res {
            Ok(player) => player@ == player_v0_model(old(r)@, is_teams) && player.v1_0 is None,
            Err(_) => old(r)@.len() < 36,
        },
{
    let character = External(read_u8(r)?);
    let kind = PlayerType(read_u8(r)?);
    let stocks = read_u8(r)?;
    let costume = read_u8(r)?;
    let mut unknown = [0u8; 3];
    read_exact(r, &mut unknown)?;
    let team_shade = read_u8(r)?;
    let handicap = read_u8(r)?;
    let team_color = read_u8(r)?;
    let team = if is_teams {
        Some(Team { color: TeamColor(team_color), shade: TeamShade(team_shade) })
    } else {
        None
    };
    read_u16(r)?;  // unknown
    let bitfield = read_u8(r)?;
    read_u16(r)?;  // unknown
    let cpu_level = read_u8(r)?;
    let cpu_level = if kind.0 == PlayerType::CPU {
        Some(cpu_level)
    } else {
        None
    };
    read_u32(r)?;  // unknown
    let offense_ratio = read_single(r)?;
    let defense_ratio = read_single(r)?;
    let model_scale = read_single(r)?;
    read_u32(r)?;  // unknown
    Ok(
        Player {
            character,
            kind,
            stocks,
            costume,
            team,
            handicap,
            bitfield,
            cpu_level,
            offense_ratio,
            defense_ratio,
            model_scale,
            v1_0: None,
        },
    )
}

/// The player that the bytes describe, where someone plays at that port.
pub fn player(
    v0: &[u8; 36],
    is_teams: bool,
    v1_0: Option<[u8; 8]>,
    v1_3: Option<[u8; 16]>,
) -> (res: Result<Option<Player>, Error>)
    ensures
        res is Ok,
        player_view(res->Ok_0) == player_model(
            v0@,
            is_teams,
            array_bytes(v1_0),
            array_bytes(v1_3),
        ),
{
    let mut r: &[u8] = v0;
    let mut player = read_player_v0(&mut r, is_teams)?;
    player.v1_0 =
    match v1_0 {
        Some(v1_0) => Some(player_v1_0(v1_0, v1_3)?),
        None => None,
    };
    let kind = player.kind.0;
    if kind == PlayerType::HUMAN || kind == PlayerType::CPU || kind == PlayerType::DEMO {
        Ok(Some(player))
    } else {
        Ok(None)
    }
}

/// Takes the bytes that version 1.3 added of a player.
pub fn player_bytes_v1_3(r: &mut &[u8]) -> (res: Result<[u8; 16], Error>)
    ensures
        match res {
            Ok(bytes) => old(r)@.len() >= 16 && bytes@ == old(r)@.take(16) && final(r)@ == old(
                r,
            )@.skip(16),
            Err(e) => old(r)@.len() < 16 && e == Error::UnexpectedEof,
        },
{
    let mut buf = [0u8; 16];
    read_exact(r, &mut buf)?;
    Ok(buf)
}

/// Takes the bytes that version 1.0 added of a player.
pub fn player_bytes_v1_0(r: &mut &[u8]) -> (res: Result<[u8; 8], Error>)
    ensures
        match res {
            Ok(bytes) => old(r)@.len() >= 8 && bytes@ == old(r)@.take(8) && final(r)@ == old(
                r,
            )@.skip(8),
            Err(e) => old(r)@.len() < 8 && e == Error::UnexpectedEof,
        },
{
    let mut buf = [0u8; 8];
    read_exact(r, &mut buf)?;
    Ok(buf)
}

/// Takes the bytes that every version has of a player.
fn player_bytes_v0(r: &mut &[u8]) -> (res: Result<[u8; 36], Error>)
    ensures
        match res {
            Ok(bytes) => old(r)@.len() >= 36 && bytes@ == old(r)@.take(36) && final(r)@ == old(
                r,
            )@.skip(36),
            Err(e) => old(r)@.len() < 36 && e == Error::UnexpectedEof,
        },
{
    let mut buf = [0u8; 36];
    read_exact(r, &mut buf)?;
    Ok(buf)
}

/// What version 2.0 added to the start of a game.
pub open spec fn start_v2_0_model(s: Seq<u8>) -> Result<StartV2_0, Failure> {
    if s.len() < 1 {
        Err(Failure::UnexpectedEof)
    } else {
        Ok(StartV2_0 { is_frozen_ps: s[0] != 0 })
    }
}

/// Takes what version 2.0 added to the start of a game.
pub fn game_start_v2_0(r: &mut &[u8]) -> (res: Result<StartV2_0, Error>)
    ensures
        agrees(res, start_v2_0_model(old(r)@)),
        res is Ok ==> final(r)@ == old(r)@.skip(1),
{
    Ok(StartV2_0 { is_frozen_ps: read_u8(r)? != 0 })
}

/// What version 1.5 and later ones added to the start of a game.
pub open spec fn start_v1_5_model(s: Seq<u8>) -> Result<StartV1_5, Failure> {
    if s.len() < 1 {
        Err(Failure::UnexpectedEof)
    } else {
        Ok(
            StartV1_5 {
                is_pal: s[0] != 0,
                v2_0: if s.len() == 1 {
                    None
                } else {
                    Some(StartV2_0 { is_frozen_ps: s[1] != 0 })
                },
            },
        )
    }
}

/// Takes what version 1.5 and later ones added to the start of a game.
pub fn game_start_v1_5(r: &mut &[u8]) -> (res: Result<StartV1_5, Error>)
    ensures
        agrees(res, start_v1_5_model(old(r)@)),
        res is Ok ==> final(r)@ == old(r)@.skip(min(old(r)@.len() as int, 2)),
{
    Ok(
        StartV1_5 {
            is_pal: read_u8(r)? != 0,
            v2_0: if r.is_empty() {
                None
            } else {
                Some(game_start_v2_0(r)?)
            },
        },
    )
}

/// The bytes of the player at `port` that every version has.
pub open spec fn port_bytes_v0(s: Seq<u8>, port: int) -> Seq<u8> {
    s.subrange(100 + 36 * port, 136 + 36 * port)
}

/// The bytes of the player at `port` that version 1.0 added, where the payload has them.
pub open spec fn port_bytes_v1_0(s: Seq<u8>, port: int) -> Option<Seq<u8>> {
    if s.len() <= 320 {
        None
    } else {
        Some(s.subrange(320 + 8 * port, 328 + 8 * port))
    }
}

/// The bytes of the player at `port` that version 1.3 added, where the payload has them.
pub open spec fn port_bytes_v1_3(s: Seq<u8>, port: int) -> Option<Seq<u8>> {
    if s.len() <= 352 {
        None
    } else {
        Some(s.subrange(352 + 16 * port, 368 + 16 * port))
    }
}

/// The player at `port` in the payload `s`.
pub open spec fn port_model(s: Seq<u8>, port: int) -> Option<PlayerView> {
    player_model(
        port_bytes_v0(s, port),
        s[12] != 0,
        port_bytes_v1_0(s, port),
        port_bytes_v1_3(s, port),
    )
}

/// The start of a game in the payload `s`. What a version added is there as a whole or not at all.
pub open spec fn game_start_model(s: Seq<u8>) -> Result<StartView, Failure> {
    if s.len() < 320 || 320 < s.len() < 352 || 352 < s.len() < 416 {
        Err(Failure::UnexpectedEof)
    } else {
        Ok(
            StartView {
                slippi: Slippi { version: SlippiVersion(s[0], s[1], s[2]) },
                bitfield: seq![s[4], s[5], s[7]],
                is_teams: s[12] != 0,
                item_spawn_frequency: be_i8(s, 15),
                self_destruct_score: be_i8(s, 16),
                stage: Stage(be_u16(s, 18)),
                timer: be_u32(s, 20),
                item_spawn_bitfield: s.subrange(39, 44),
                damage_ratio: single(s, 52),
                players: Seq::new(NUM_PORTS as nat, |port: int| port_model(s, port)),
                random_seed: be_u32(s, 316),
                v1_5: if s.len() <= 416 {
                    None
                } else {
                    Some(start_v1_5_model(s.skip(416))->Ok_0)
                },
            },
        )
    }
}

/// What stands before the players in the payload of a game's start.
struct Settings {
    slippi: Slippi,
    bitfield: [u8; 3],
    is_teams: bool,
    item_spawn_frequency: i8,
    self_destruct_score: i8,
    stage: Stage,
    timer: u32,
    item_spawn_bitfield: [u8; 5],
    damage_ratio: Single,
}

/// `settings` is what stands in the first hundred bytes of `s`.
spec fn settings_match(settings: Settings, s: Seq<u8>) -> bool {
    &&& settings.slippi == (Slippi { version: SlippiVersion(s[0], s[1], s[2]) })
    &&& settings.bitfield@ == seq![s[4], s[5], s[7]]
    &&& settings.is_teams == (s[12] != 0)
    &&& settings.item_spawn_frequency == be_i8(s, 15)
    &&& settings.self_destruct_score == be_i8(s, 16)
    &&& settings.stage == Stage(be_u16(s, 18))
    &&& settings.timer == be_u32(s, 20)
    &&& settings.item_spawn_bitfield@ == s.subrange(39, 44)
    &&& settings.damage_ratio == single(s, 52)
}

/// Takes the version of the format, and the build number after it.
fn read_slippi(r: &mut &[u8]) -> (res: Result<Slippi, Error>)
    ensures
        took(
            res,
            4,
            (Slippi { version: SlippiVersion(old(r)@[0], old(r)@[1], old(r)@[2]) }),
            old(r)@,
            final(r)@,
        ),
{
    let ghost s = r@;
    let slippi = Slippi { version: SlippiVersion(read_u8(r)?, read_u8(r)?, read_u8(r)?) };
    read_u8(r)?;  // build number
    assert(r@ =~= s.skip(4));
    Ok(slippi)
}

/// Takes the three bytes of flags, and the one of unknown meaning between them.
fn read_bitfield(r: &mut &[u8]) -> (res: Result<[u8; 3], Error>)
    ensures
        match res {
            Ok(bitfield) => old(r)@.len() >= 4 && bitfield@ == seq![
                old(r)@[0],
                old(r)@[1],
                old(r)@[3],
            ] && final(r)@ == old(r)@.skip(4),
            Err(e) => old(r)@.len() < 4 && e == Error::UnexpectedEof,
        },
{
    let bitfield_1 = read_u8(r)?;
    let bitfield_2 = read_u8(r)?;
    read_u8(r)?;  // unknown
    let bitfield_3 = read_u8(r)?;
    let bitfield = [bitfield_1, bitfield_2, bitfield_3];
    assert(bitfield@ =~= seq![bitfield_1, bitfield_2, bitfield_3]);
    Ok(bitfield)
}

/// Takes the ten bytes that say how the game is scored: whether there are teams, how often items
/// appear, and what a self-destruct counts.
fn read_rules(r: &mut &[u8]) -> (res: Result<(bool, i8, i8), Error>)
    ensures
        took(
            res,
            10,
            (old(r)@[4] != 0, be_i8(old(r)@, 7), be_i8(old(r)@, 8)),
            old(r)@,
            final(r)@,
        ),
{
    let ghost s = r@;
    read_u32(r)?;  // unknown
    let is_teams = read_u8(r)? != 0;
    read_u16(r)?;  // unknown
    let item_spawn_frequency = read_i8(r)?;
    let self_destruct_score = read_i8(r)?;
    read_u8(r)?;  // unknown
    assert(r@ =~= s.skip(10));
    Ok((is_teams, item_spawn_frequency, self_destruct_score))
}

/// Takes what stands before the players.
fn read_settings(r: &mut &[u8]) -> (res: Result<Settings, Error>)
    ensures
        match res {
            Ok(settings) => old(r)@.len() >= 100 && settings_match(settings, old(r)@) && final(r)@
                == old(r)@.skip(100),
            Err(e) => old(r)@.len() < 100 && e == Error::UnexpectedEof,
        },
{
    let ghost s = r@;
    let slippi = read_slippi(r)?;
    let bitfield = read_bitfield(r)?;
    assert(bitfield@ =~= seq![s[4], s[5], s[7]]);
    let (is_teams, item_spawn_frequency, self_destruct_score) = read_rules(r)?;
    let stage = Stage(read_u16(r)?);
    let timer = read_u32(r)?;
    let mut unknown = [0u8; 15];
    read_exact(r, &mut unknown)?;
    let mut item_spawn_bitfield = [0u8; 5];
    read_exact(r, &mut item_spawn_bitfield)?;
    assert(item_spawn_bitfield@ =~= s.subrange(39, 44));
    read_u64(r)?;  // unknown
    let damage_ratio = read_single(r)?;
    let mut unknown = [0u8; 44];
    read_exact(r, &mut unknown)?;
    Ok(
        Settings {
            slippi,
            bitfield,
            is_teams,
            item_spawn_frequency,
            self_destruct_score,
            stage,
            timer,
            item_spawn_bitfield,
            damage_ratio,
        },
    )
}

/// The `width` bytes of the player at `port`, where those of port 0 come first in `s`.
spec fn nth_bytes(s: Seq<u8>, width: int, port: int) -> Seq<u8> {
    s.subrange(width * port, width * port + width)
}

/// Takes the bytes of all players that every version has.
fn players_bytes_v0(r: &mut &[u8]) -> (res: Result<[[u8; 36]; NUM_PORTS], Error>)
    ensures
        match res {
            Ok(bytes) => old(r)@.len() >= 144 && final(r)@ == old(r)@.skip(144) && (forall|
                port: int,
            |
                0 <= port < NUM_PORTS ==> (#[trigger] bytes@[port])@ == nth_bytes(
                    old(r)@,
                    36,
                    port,
                )),
            Err(e) => old(r)@.len() < 144 && e == Error::UnexpectedEof,
        },
{
    Ok([player_bytes_v0(r)?, player_bytes_v0(r)?, player_bytes_v0(r)?, player_bytes_v0(r)?])
}

/// Takes the bytes of all players that version 1.0 added, unless the payload is at its end.
fn players_bytes_v1_0(r: &mut &[u8]) -> (res: Result<[Option<[u8; 8]>; NUM_PORTS], Error>)
    ensures
        match res {
            Ok(bytes) => if old(r)@.len() == 0 {
                final(r)@ == old(r)@ && (forall|port: int|
                    0 <= port < NUM_PORTS ==> #[trigger] bytes@[port] is None)
            } else {
                old(r)@.len() >= 32 && final(r)@ == old(r)@.skip(32) && (forall|port: int|
                    0 <= port < NUM_PORTS ==> array_bytes(#[trigger] bytes@[port]) == Some(
                        nth_bytes(old(r)@, 8, port),
                    ))
            },
            Err(e) => 0 < old(r)@.len() < 32 && e == Error::UnexpectedEof,
        },
{
    if r.is_empty() {
        Ok([None, None, None, None])
    } else {
        Ok(
            [
                Some(player_bytes_v1_0(r)?),
                Some(player_bytes_v1_0(r)?),
                Some(player_bytes_v1_0(r)?),
                Some(player_bytes_v1_0(r)?),
            ],
        )
    }
}

/// Takes the bytes of all players that version 1.3 added, unless the payload is at its end.
fn players_bytes_v1_3(r: &mut &[u8]) -> (res: Result<[Option<[u8; 16]>; NUM_PORTS], Error>)
    ensures
        match res {
            Ok(bytes) => if old(r)@.len() == 0 {
                final(r)@ == old(r)@ && (forall|port: int|
                    0 <= port < NUM_PORTS ==> #[trigger] bytes@[port] is None)
            } else {
                old(r)@.len() >= 64 && final(r)@ == old(r)@.skip(64) && (forall|port: int|
                    0 <= port < NUM_PORTS ==> array_bytes(#[trigger] bytes@[port]) == Some(
                        nth_bytes(old(r)@, 16, port),
                    ))
            },
            Err(e) => 0 < old(r)@.len() < 64 && e == Error::UnexpectedEof,
        },
{
    if r.is_empty() {
        Ok([None, None, None, None])
    } else {
        Ok(
            [
                Some(player_bytes_v1_3(r)?),
                Some(player_bytes_v1_3(r)?),
                Some(player_bytes_v1_3(r)?),
                Some(player_bytes_v1_3(r)?),
            ],
        )
    }
}

/// Reads the players, each out of the bytes of its port.
fn read_players(
    v0: &[[u8; 36]; NUM_PORTS],
    is_teams: bool,
    v1_0: &[Option<[u8; 8]>; NUM_PORTS],
    v1_3: &[Option<[u8; 16]>; NUM_PORTS],
) -> (res: Result<[Option<Player>; NUM_PORTS], Error>)
    ensures
        res is Ok,
        forall|port: int|
            0 <= port < NUM_PORTS ==> player_view(#[trigger] res->Ok_0@[port]) == player_model(
                v0@[port]@,
                is_teams,
                array_bytes(v1_0@[port]),
                array_bytes(v1_3@[port]),
            ),
{
    Ok(
        [
            player(&v0[0], is_teams, v1_0[0], v1_3[0])?,
            player(&v0[1], is_teams, v1_0[1], v1_3[1])?,
            player(&v0[2], is_teams, v1_0[2], v1_3[2])?,
            player(&v0[3], is_teams, v1_0[3], v1_3[3])?,
        ],
    )
}

/// Takes the start of a game.
pub fn game_start(r: &mut &[u8]) -> (res: Result<Start, Error>)
    ensures
        match res {
            Ok(start) => game_start_model(old(r)@) == Ok::<StartView, Failure>(start@),
            Err(e) => game_start_model(old(r)@) == Err::<StartView, Failure>(e@),
        },
        res is Ok ==> final(r)@ == old(r)@.skip(min(old(r)@.len() as int, 418)),
{
    let ghost s = r@;
    let settings = read_settings(r)?;
    let v0 = players_bytes_v0(r)?;
    let mut unknown = [0u8; 72];
    read_exact(r, &mut unknown)?;
    let random_seed = read_u32(r)?;
    let v1_0 = players_bytes_v1_0(r)?;
    let v1_3 = players_bytes_v1_3(r)?;
    let is_teams = settings.is_teams;
    proof {
        assert forall|port: int| 0 <= port < NUM_PORTS implies {
            &&& (#[trigger] v0@[port])@ == port_bytes_v0(s, port)
            &&& array_bytes(v1_0@[port]) == port_bytes_v1_0(s, port)
            &&& array_bytes(v1_3@[port]) == port_bytes_v1_3(s, port)
        } by {
            assert(nth_bytes(s.skip(100), 36, port) =~= port_bytes_v0(s, port));
            assert(v1_0@[port] == v1_0@[port]);
            assert(v1_3@[port] == v1_3@[port]);
            if s.len() > 320 {
                assert(nth_bytes(s.skip(320), 8, port) =~= port_bytes_v1_0(s, port)->0);
            }
            if s.len() > 352 {
                assert(nth_bytes(s.skip(352), 16, port) =~= port_bytes_v1_3(s, port)->0);
            }
        }
    }
    let players = read_players(&v0, is_teams, &v1_0, &v1_3)?;
    let v1_5 = if r.is_empty() {
        None
    } else {
        Some(game_start_v1_5(r)?)
    };
    let start = Start {
        slippi: settings.slippi,
        bitfield: settings.bitfield,
        is_teams,
        item_spawn_frequency: settings.item_spawn_frequency,
        self_destruct_score: settings.self_destruct_score,
        stage: settings.stage,
        timer: settings.timer,
        item_spawn_bitfield: settings.item_spawn_bitfield,
        damage_ratio: settings.damage_ratio,
        players,
        random_seed,
        v1_5,
    };
    assert(start@ =~= game_start_model(s)->Ok_0);
    Ok(start)
}

/// What version 2.0 added to the end of a game.
pub open spec fn end_v2_0_model(s: Seq<u8>) -> Result<EndV2_0, Failure> {
    if s.len() < 1 {
        Err(Failure::UnexpectedEof)
    } else {
        Ok(EndV2_0 { lras_initiator: be_i8(s, 0) })
    }
}

/// Takes what version 2.0 added to the end of a game.
pub fn game_end_v2_0(r: &mut &[u8]) -> (res: Result<EndV2_0, Error>)
    ensures
        agrees(res, end_v2_0_model(old(r)@)),
        res is Ok ==> final(r)@ == old(r)@.skip(1),
{
    Ok(EndV2_0 { lras_initiator: read_i8(r)? })
}

/// The end of a game in the payload `s`.
pub open spec fn game_end_model(s: Seq<u8>) -> Result<End, Failure> {
    if s.len() < 1 {
        Err(Failure::UnexpectedEof)
    } else {
        Ok(
            End {
                method: EndMethod(s[0]),
                v2_0: if s.len() == 1 {
                    None
                } else {
                    Some(EndV2_0 { lras_initiator: be_i8(s, 1) })
                },
            },
        )
    }
}

/// Takes the end of a game.
pub fn game_end(r: &mut &[u8]) -> (res: Result<End, Error>)
    ensures
        agrees(res, game_end_model(old(r)@)),
        res is Ok ==> final(r)@ == old(r)@.skip(min(old(r)@.len() as int, 2)),
{
    Ok(
        End {
            method: EndMethod(read_u8(r)?),
            v2_0: if r.is_empty() {
                None
            } else {
                Some(game_end_v2_0(r)?)
            },
        },
    )
}

/// There is a player exactly where a human, the computer or the demo plays. A level is known of
/// the computer alone, and a team exactly where there are teams.
pub proof fn law_player_fields(
    s: Seq<u8>,
    is_teams: bool,
    v1_0: Option<Seq<u8>>,
    v1_3: Option<Seq<u8>>,
)
    ensures
        player_model(s, is_teams, v1_0, v1_3) is Some <==> s[1] == PlayerType::HUMAN || s[1]
            == PlayerType::CPU || s[1] == PlayerType::DEMO,
        player_model(s, is_teams, v1_0, v1_3) matches Some(player) ==> {
            &&& player.cpu_level is Some <==> player.kind.0 == PlayerType::CPU
            &&& player.team is Some <==> is_teams
            &&& player.v1_0 is Some <==> v1_0 is Some
        },
{
}

/// The start of a game reads the same where a later version of the format adds bytes: what was
/// there before stays, and what comes after all that is known is ignored.
pub proof fn law_start_extends(s: Seq<u8>, more: Seq<u8>)
    requires
        game_start_model(s) is Ok,
    ensures
        s.len() >= 418 ==> game_start_model(s + more) == game_start_model(s),
        game_start_model(s + more) matches Ok(long) ==> {
            let short = game_start_model(s)->Ok_0;
            &&& long == (StartView { players: long.players, v1_5: long.v1_5, ..short })
            &&& forall|port: int|
                0 <= port < NUM_PORTS ==> match (#[trigger] short.players[port], long.players[port]) {
                    (Some(a), Some(b)) => b == (PlayerView { v1_0: b.v1_0, ..a }),
                    (None, None) => true,
                    _ => false,
                }
            &&& s.len() >= 416 ==> long.players == short.players
        },
{
    let long = s + more;
    assert(forall|i: int| 0 <= i < s.len() ==> long[i] == s[i]);
    assert(long.subrange(39, 44) =~= s.subrange(39, 44));
    assert forall|port: int| 0 <= port < NUM_PORTS implies {
        &&& #[trigger] port_bytes_v0(long, port) == port_bytes_v0(s, port)
        &&& s.len() >= 416 ==> port_model(long, port) == port_model(s, port)
    } by {
        assert(port_bytes_v0(long, port) =~= port_bytes_v0(s, port));
        if s.len() >= 416 {
            assert(port_bytes_v1_0(long, port)->0 =~= port_bytes_v1_0(s, port)->0);
            assert(port_bytes_v1_3(long, port)->0 =~= port_bytes_v1_3(s, port)->0);
        }
    }
    if s.len() >= 416 {
        assert(game_start_model(long)->Ok_0.players =~= game_start_model(s)->Ok_0.players);
    }
}

/// The end of a game reads the same where a later version of the format adds bytes.
pub proof fn law_end_extends(s: Seq<u8>, more: Seq<u8>)
    requires
        game_end_model(s) is Ok,
    ensures
        game_end_model(s + more) is Ok,
        game_end_model(s + more)->Ok_0.method == game_end_model(s)->Ok_0.method,
        s.len() >= 2 ==> game_end_model(s + more) == game_end_model(s),
{
}

} // verus!
