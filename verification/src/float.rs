use vstd::prelude::*;

use crate::bytes::{be_u32, law_big_endian, read_u32, took};
use crate::error::Error;

verus! {

/// A single-precision number of IEEE 754, held by its bits.
#[derive(Copy, Clone, Debug, PartialEq, Eq, Structural)]
pub struct Single {
    pub bits: u32,
}

/// The bits of positive infinity. The bits of a positive number are those from 1 up to these.
pub const INFINITY_BITS: u32 = 0x7f80_0000;

/// The bits of negative zero. The bits of a negative number are these plus those of a positive one.
pub const SIGN_BIT: u32 = 0x8000_0000;

impl Single {
    /// The number is above zero. A NaN is not.
    pub open spec fn positive(self) -> bool {
        0 < self.bits <= INFINITY_BITS
    }

    /// The number is below zero. Neither negative zero nor a NaN is.
    pub open spec fn negative(self) -> bool {
        SIGN_BIT < self.bits <= SIGN_BIT + INFINITY_BITS
    }

    pub fn is_positive(self) -> (res: bool)
        ensures
            res == self.positive(),
    {
        0 < self.bits && self.bits <= INFINITY_BITS
    }

    pub fn is_negative(self) -> (res: bool)
        ensures
            res == self.negative(),
    {
        SIGN_BIT < self.bits && self.bits - SIGN_BIT <= INFINITY_BITS
    }
}

/// The number whose bits stand at offset `at`.
pub open spec fn single(s: Seq<u8>, at: int) -> Single {
    Single { bits: be_u32(s, at) }
}

/// Takes the next number.
pub fn read_single(r: &mut &[u8]) -> (res: Result<Single, Error>)
    ensures
        took(res, 4, single(old(r)@, 0), old(r)@, final(r)@),
{
    Ok(Single { bits: read_u32(r)? })
}

/// A number is above zero where its sign bit is clear, it is not zero, and it is no NaN; and below
/// zero where the sign bit is set and the number without it is above zero.
pub proof fn law_sign(number: Single)
    ensures
        number.positive() <==> 0x0000_0001 <= number.bits <= 0x7f80_0000,
        number.negative() <==> 0x8000_0001 <= number.bits <= 0xff80_0000,
{
}

/// A number keeps its four bytes, the highest first.
pub proof fn law_single_keeps_bytes(s: Seq<u8>, at: int)
    ensures
        single(s, at).bits / 0x100_0000 == s[at],
        single(s, at).bits / 0x1_0000 % 0x100 == s[at + 1],
        single(s, at).bits / 0x100 % 0x100 == s[at + 2],
        single(s, at).bits % 0x100 == s[at + 3],
{
    law_big_endian(s, at);
}

} // verus!
