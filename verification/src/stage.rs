use vstd::prelude::*;

verus! {

/// The number of a stage.
#[derive(Copy, Clone, Debug, PartialEq, Eq, Structural)]
pub struct Stage(pub u16);

} // verus!
