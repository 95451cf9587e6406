//! What a fighter is doing. The numbers up to [`Common::LAST`] mean the same for every fighter;
//! those above it mean what they mean for the fighter at hand.
use vstd::prelude::*;

use crate::character::Internal;

verus! {

/// A state that every fighter has.
#[derive(Copy, Clone, Debug, PartialEq, Eq, Structural)]
pub struct Common(pub u16);

impl Common {
    pub const WAIT: u16 = 14;

    pub const LAST: u16 = 340;
}

/// A state of Zelda alone.
#[derive(Copy, Clone, Debug, PartialEq, Eq, Structural)]
pub struct Zelda(pub u16);

impl Zelda {
    pub const TRANSFORM_GROUND: u16 = 355;

    pub const TRANSFORM_AIR: u16 = 357;
}

/// A state of Sheik alone.
#[derive(Copy, Clone, Debug, PartialEq, Eq, Structural)]
pub struct Sheik(pub u16);

impl Sheik {
    pub const TRANSFORM_GROUND: u16 = 361;

    pub const TRANSFORM_AIR: u16 = 363;
}

#[derive(Copy, Clone, Debug, PartialEq, Eq, Structural)]
pub enum State {
    Common(Common),
    Zelda(Zelda),
    Sheik(Sheik),
    /// A state of another fighter alone.
    Other(Internal, u16),
}

/// The state that the number `value` means for `character`.
pub open spec fn state_of(value: u16, character: Internal) -> State {
    if value <= Common::LAST {
        State::Common(Common(value))
    } else if character.0 == Internal::ZELDA {
        State::Zelda(Zelda(value))
    } else if character.0 == Internal::SHEIK {
        State::Sheik(Sheik(value))
    } else {
        State::Other(character, value)
    }
}

impl State {
    pub fn from(value: u16, character: Internal) -> (state: State)
        ensures
            state == state_of(value, character),
    {
        if value <= Common::LAST {
            State::Common(Common(value))
        } else if character.0 == Internal::ZELDA {
            State::Zelda(Zelda(value))
        } else if character.0 == Internal::SHEIK {
            State::Sheik(Sheik(value))
        } else {
            State::Other(character, value)
        }
    }
}

/// A state keeps its number. Up to 340 it is one of every fighter, and above that one of Zelda, of
/// Sheik, or of the fighter that it is read for.
pub proof fn law_states(value: u16, character: Internal)
    ensures
        value <= 340 ==> state_of(value, character) == State::Common(Common(value)),
        value > 340 && character.0 == 19 ==> state_of(value, character) == State::Zelda(
            Zelda(value),
        ),
        value > 340 && character.0 == 7 ==> state_of(value, character) == State::Sheik(
            Sheik(value),
        ),
        value > 340 && character.0 != 19 && character.0 != 7 ==> state_of(value, character)
            == State::Other(character, value),
{
}

} // verus!
