use vstd::prelude::*;

verus! {

/// A character as the game tells fighters apart while they play: Zelda and Sheik are two.
#[derive(Copy, Clone, Debug, PartialEq, Eq, Structural)]
pub struct Internal(pub u8);

impl Internal {
    pub const SHEIK: u8 = 7;

    pub const ZELDA: u8 = 19;
}

/// A character as players pick it.
#[derive(Copy, Clone, Debug, PartialEq, Eq, Structural)]
pub struct External(pub u8);

} // verus!
