use vstd::prelude::*;

verus! {

/// The buttons as the game takes them, one bit each.
#[derive(Copy, Clone, Debug, PartialEq, Eq, Structural)]
pub struct Logical(pub u32);

/// The buttons as they are pressed on the controller, one bit each.
#[derive(Copy, Clone, Debug, PartialEq, Eq, Structural)]
pub struct Physical(pub u16);

} // verus!
