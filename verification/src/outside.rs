//! The functions of other crates, and of `std`, that the library calls, each with what the
//! library takes it to do.
use byteorder::{BigEndian, ReadBytesExt};
use encoding_rs::SHIFT_JIS;
use std::io::Read;
use vstd::prelude::*;

use crate::bytes::{be_i32, be_i8, be_u16, be_u32, be_u64};

verus! {

/// The error type of `std::io`. Nothing is claimed of its values.
#[verifier::external_type_specification]
#[verifier::external_body]
pub struct ExIoError(std::io::Error);

/// The error type of `String::from_utf8`. Nothing is claimed of its values.
#[verifier::external_type_specification]
#[verifier::external_body]
pub struct ExFromUtf8Error(std::string::FromUtf8Error);

/// `byteorder::ReadBytesExt::read_u8` on a slice: it takes one byte off the front, and fails
/// exactly where there is none. Nothing is said of the slice after a failure.
#[verifier::external_body]
pub(crate) fn slice_read_u8(r: &mut &[u8]) -> (res: Result<u8, std::io::Error>)
    ensures
        res is Ok <==> old(r)@.len() >= 1,
        res matches Ok(v) ==> v == old(r)@[0] && final(r)@ == old(r)@.skip(1),
{
    r.read_u8()
}

/// `byteorder::ReadBytesExt::read_i8` on a slice: it takes one byte off the front, as a two's
/// complement number, and fails exactly where there is none. Nothing is said of the slice after
/// a failure.
#[verifier::external_body]
pub(crate) fn slice_read_i8(r: &mut &[u8]) -> (res: Result<i8, std::io::Error>)
    ensures
        res is Ok <==> old(r)@.len() >= 1,
        res matches Ok(v) ==> v == be_i8(old(r)@, 0) && final(r)@ == old(r)@.skip(1),
{
    r.read_i8()
}

/// `byteorder::ReadBytesExt::read_u16::<BigEndian>` on a slice: it takes two bytes off the front,
/// the high one first, and fails exactly where there are fewer. Nothing is said of the slice
/// after a failure.
#[verifier::external_body]
pub(crate) fn slice_read_u16(r: &mut &[u8]) -> (res: Result<u16, std::io::Error>)
    ensures
        res is Ok <==> old(r)@.len() >= 2,
        res matches Ok(v) ==> v == be_u16(old(r)@, 0) && final(r)@ == old(r)@.skip(2),
{
    r.read_u16::<BigEndian>()
}

/// `byteorder::ReadBytesExt::read_u32::<BigEndian>` on a slice: it takes four bytes off the front,
/// the highest one first, and fails exactly where there are fewer. Nothing is said of the slice
/// after a failure.
#[verifier::external_body]
pub(crate) fn slice_read_u32(r: &mut &[u8]) -> (res: Result<u32, std::io::Error>)
    ensures
        res is Ok <==> old(r)@.len() >= 4,
        res matches Ok(v) ==> v == be_u32(old(r)@, 0) && final(r)@ == old(r)@.skip(4),
{
    r.read_u32::<BigEndian>()
}

/// `byteorder::ReadBytesExt::read_i32::<BigEndian>` on a slice: it takes four bytes off the front,
/// the highest one first, as a two's complement number, and fails exactly where there are fewer.
/// Nothing is said of the slice after a failure.
#[verifier::external_body]
pub(crate) fn slice_read_i32(r: &mut &[u8]) -> (res: Result<i32, std::io::Error>)
    ensures
        res is Ok <==> old(r)@.len() >= 4,
        res matches Ok(v) ==> v == be_i32(old(r)@, 0) && final(r)@ == old(r)@.skip(4),
{
    r.read_i32::<BigEndian>()
}

/// `byteorder::ReadBytesExt::read_u64::<BigEndian>` on a slice: it takes eight bytes off the
/// front, the highest one first, and fails exactly where there are fewer. Nothing is said of the
/// slice after a failure.
#[verifier::external_body]
pub(crate) fn slice_read_u64(r: &mut &[u8]) -> (res: Result<u64, std::io::Error>)
    ensures
        res is Ok <==> old(r)@.len() >= 8,
        res matches Ok(v) ==> v == be_u64(old(r)@, 0) && final(r)@ == old(r)@.skip(8),
{
    r.read_u64::<BigEndian>()
}

/// `std::io::Read::read_exact` on a slice: it takes as many bytes off the front as `buf` holds and
/// puts them there, and fails exactly where there are fewer. Nothing is said of the slice, or of
/// the bytes in `buf`, after a failure.
#[verifier::external_body]
pub(crate) fn slice_read_exact(r: &mut &[u8], buf: &mut [u8]) -> (res: Result<(), std::io::Error>)
    ensures
        final(buf)@.len() == old(buf)@.len(),
        res is Ok <==> old(r)@.len() >= old(buf)@.len(),
        res is Ok ==> final(buf)@ == old(r)@.take(old(buf)@.len() as int)
            && final(r)@ == old(r)@.skip(old(buf)@.len() as int),
{
    r.read_exact(buf)
}

/// The text that `encoding_rs` reads in `bytes` when it takes them for Shift_JIS, with no byte
/// order mark looked for and U+FFFD in the place of what is malformed.
pub uninterp spec fn shift_jis_text(bytes: Seq<u8>) -> Seq<char>;

/// Every byte is ASCII.
pub open spec fn is_ascii(bytes: Seq<u8>) -> bool {
    forall|i: int| 0 <= i < bytes.len() ==> bytes[i] < 0x80
}

/// ASCII bytes as text, each byte a character.
pub open spec fn ascii_text(bytes: Seq<u8>) -> Seq<char> {
    Seq::new(bytes.len(), |i: int| bytes[i] as char)
}

/// `encoding_rs::Encoding::decode_without_bom_handling` of `encoding_rs::SHIFT_JIS`: the text is
/// named, and for ASCII bytes it is those bytes. The bound on the length keeps clear of the
/// overflow of a buffer size, on which the outside function panics.
#[verifier::external_body]
pub(crate) fn decode_shift_jis(bytes: &[u8]) -> (res: String)
    requires
        bytes@.len() <= 0xffff,
    ensures
        res@ == shift_jis_text(bytes@),
        is_ascii(bytes@) ==> res@ == ascii_text(bytes@),
{
    let (text, _) = SHIFT_JIS.decode_without_bom_handling(bytes);
    text.to_string()
}

/// `String::from_utf8` accepts exactly the bytes that are valid UTF-8, and gives the text that
/// they encode.
pub assume_specification[ String::from_utf8 ](vec: Vec<u8>) -> (res: Result<
    String,
    std::string::FromUtf8Error,
>)
    ensures
        res is Ok <==> vstd::utf8::valid_utf8(vec@),
        res matches Ok(text) ==> text@ == vstd::utf8::decode_utf8(vec@),
;

} // verus!
