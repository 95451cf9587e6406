use vstd::prelude::*;

use crate::float::Single;

verus! {

/// The two triggers as they are pressed on the controller.
#[derive(Copy, Clone, Debug, PartialEq, Eq, Structural)]
pub struct Physical {
    pub l: Single,
    pub r: Single,
}

} // verus!
