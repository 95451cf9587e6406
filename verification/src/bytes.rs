//! Reading big-endian numbers and runs of bytes off the front of a slice.
//!
//! After a failure nothing is said of the slice: what reads a replay gives up then.
use vstd::prelude::*;

use crate::error::Error;
use crate::outside::{
    slice_read_exact, slice_read_i32, slice_read_i8, slice_read_u16, slice_read_u32,
    slice_read_u64, slice_read_u8,
};

verus! {

/// The big-endian `u16` at offset `at`.
pub open spec fn be_u16(s: Seq<u8>, at: int) -> u16 {
    (s[at] * 0x100 + s[at + 1]) as u16
}

/// The big-endian `u32` at offset `at`.
pub open spec fn be_u32(s: Seq<u8>, at: int) -> u32 {
    (s[at] * 0x100_0000 + s[at + 1] * 0x1_0000 + s[at + 2] * 0x100 + s[at + 3]) as u32
}

/// The big-endian `u64` at offset `at`.
pub open spec fn be_u64(s: Seq<u8>, at: int) -> u64 {
    (be_u32(s, at) * 0x1_0000_0000 + be_u32(s, at + 4)) as u64
}

/// The byte at offset `at`, in two's complement.
pub open spec fn be_i8(s: Seq<u8>, at: int) -> i8 {
    if s[at] < 0x80 {
        s[at] as i8
    } else {
        (s[at] - 0x100) as i8
    }
}

/// The big-endian `i32` at offset `at`, in two's complement.
pub open spec fn be_i32(s: Seq<u8>, at: int) -> i32 {
    if be_u32(s, at) < 0x8000_0000 {
        be_u32(s, at) as i32
    } else {
        (be_u32(s, at) - 0x1_0000_0000) as i32
    }
}

/// A read of `n` bytes off the front of `before` gave `res`, which is `value` where there are
/// enough, and left `after`.
pub open spec fn took<T>(
    res: Result<T, Error>,
    n: nat,
    value: T,
    before: Seq<u8>,
    after: Seq<u8>,
) -> bool {
    match res {
        Ok(v) => before.len() >= n && v == value && after == before.skip(n as int),
        Err(e) => before.len() < n && e == Error::UnexpectedEof,
    }
}

/// Takes the next `u8`.
pub fn read_u8(r: &mut &[u8]) -> (res: Result<u8, Error>)
    ensures
        took(res, 1, old(r)@[0], old(r)@, final(r)@),
{
    match slice_read_u8(r) {
        Ok(v) => Ok(v),
        Err(_) => Err(Error::UnexpectedEof),
    }
}

/// Takes the next `i8`.
pub fn read_i8(r: &mut &[u8]) -> (res: Result<i8, Error>)
    ensures
        took(res, 1, be_i8(old(r)@, 0), old(r)@, final(r)@),
{
    match slice_read_i8(r) {
        Ok(v) => Ok(v),
        Err(_) => Err(Error::UnexpectedEof),
    }
}

/// Takes the next `u16`.
pub fn read_u16(r: &mut &[u8]) -> (res: Result<u16, Error>)
    ensures
        took(res, 2, be_u16(old(r)@, 0), old(r)@, final(r)@),
{
    match slice_read_u16(r) {
        Ok(v) => Ok(v),
        Err(_) => Err(Error::UnexpectedEof),
    }
}

/// Takes the next `u32`.
pub fn read_u32(r: &mut &[u8]) -> (res: Result<u32, Error>)
    ensures
        took(res, 4, be_u32(old(r)@, 0), old(r)@, final(r)@),
{
    match slice_read_u32(r) {
        Ok(v) => Ok(v),
        Err(_) => Err(Error::UnexpectedEof),
    }
}

/// Takes the next `i32`.
pub fn read_i32(r: &mut &[u8]) -> (res: Result<i32, Error>)
    ensures
        took(res, 4, be_i32(old(r)@, 0), old(r)@, final(r)@),
{
    match slice_read_i32(r) {
        Ok(v) => Ok(v),
        Err(_) => Err(Error::UnexpectedEof),
    }
}

/// Takes the next `u64`.
pub fn read_u64(r: &mut &[u8]) -> (res: Result<u64, Error>)
    ensures
        took(res, 8, be_u64(old(r)@, 0), old(r)@, final(r)@),
{
    match slice_read_u64(r) {
        Ok(v) => Ok(v),
        Err(_) => Err(Error::UnexpectedEof),
    }
}

/// Takes as many bytes as `buf` holds, and puts them there.
pub fn read_exact(r: &mut &[u8], buf: &mut [u8]) -> (res: Result<(), Error>)
    ensures
        final(buf)@.len() == old(buf)@.len(),
        took(res, old(buf)@.len(), (), old(r)@, final(r)@),
        res is Ok ==> final(buf)@ == old(r)@.take(old(buf)@.len() as int),
{
    match slice_read_exact(r, buf) {
        Ok(()) => Ok(()),
        Err(_) => Err(Error::UnexpectedEof),
    }
}

proof fn lemma_digits(number: u32, a: u8, b: u8, c: u8, d: u8)
    by (bit_vector)
    requires
        number == a * 0x100_0000 + b * 0x1_0000 + c * 0x100 + d,
    ensures
        number / 0x100_0000 == a,
        number / 0x1_0000 % 0x100 == b,
        number / 0x100 % 0x100 == c,
        number % 0x100 == d,
{
}

/// The bytes of a number are its digits, the highest first.
pub proof fn law_big_endian(s: Seq<u8>, at: int)
    ensures
        be_u16(s, at) / 0x100 == s[at],
        be_u16(s, at) % 0x100 == s[at + 1],
        be_u32(s, at) / 0x100_0000 == s[at],
        be_u32(s, at) / 0x1_0000 % 0x100 == s[at + 1],
        be_u32(s, at) / 0x100 % 0x100 == s[at + 2],
        be_u32(s, at) % 0x100 == s[at + 3],
        be_u64(s, at) / 0x1_0000_0000 == be_u32(s, at),
        be_u64(s, at) % 0x1_0000_0000 == be_u32(s, at + 4),
{
    lemma_digits(be_u32(s, at), s[at], s[at + 1], s[at + 2], s[at + 3]);
}

/// A signed number and the unsigned one in the same bytes differ by a multiple of what the bytes
/// can count to.
pub proof fn law_twos_complement(s: Seq<u8>, at: int)
    ensures
        (be_i8(s, at) as int) % 0x100 == s[at],
        (be_i32(s, at) as int) % 0x1_0000_0000 == be_u32(s, at),
{
}

/// A read succeeds exactly where there are enough bytes, gives the value then and leaves what comes
/// after it, and otherwise says that the input ended.
pub proof fn law_took<T>(
    res: Result<T, Error>,
    n: nat,
    value: T,
    before: Seq<u8>,
    after: Seq<u8>,
)
    requires
        took(res, n, value, before, after),
    ensures
        res is Ok <==> before.len() >= n,
        res is Ok ==> res->Ok_0 == value && before == before.take(n as int) + after,
        res is Err ==> res->Err_0 is UnexpectedEof,
{
    if res is Ok {
        assert(before =~= before.take(n as int) + before.skip(n as int));
    }
}

} // verus!
