use vstd::prelude::*;

verus! {

/// The number of an attack.
#[derive(Copy, Clone, Debug, PartialEq, Eq, Structural)]
pub struct Attack(pub u8);

} // verus!
