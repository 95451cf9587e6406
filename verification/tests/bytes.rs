use peppi::bytes::{read_exact, read_i32, read_i8, read_u16, read_u32, read_u64, read_u8};
use peppi::error::Error;
use peppi::float::{read_single, Single};

#[test]
fn numbers_are_big_endian() {
    let bytes = [
        0x07, 0xfe, 0x01, 0x02, 0x01, 0x02, 0x03, 0x04, 0xff, 0xff, 0xff, 0xfd, 0x01, 0x02, 0x03,
        0x04, 0x05, 0x06, 0x07, 0x08, 0xaa,
    ];
    let mut r: &[u8] = &bytes;
    assert_eq!(read_u8(&mut r).unwrap(), 7);
    assert_eq!(read_i8(&mut r).unwrap(), -2);
    assert_eq!(read_u16(&mut r).unwrap(), 0x0102);
    assert_eq!(read_u32(&mut r).unwrap(), 0x01020304);
    assert_eq!(read_i32(&mut r).unwrap(), -3);
    assert_eq!(read_u64(&mut r).unwrap(), 0x0102030405060708);
    assert_eq!(r, &[0xaa]);
}

#[test]
fn signed_numbers_at_their_limits() {
    let mut r: &[u8] = &[0x7f, 0x80, 0x7f, 0xff, 0xff, 0xff, 0x80, 0x00, 0x00, 0x00];
    assert_eq!(read_i8(&mut r).unwrap(), 127);
    assert_eq!(read_i8(&mut r).unwrap(), -128);
    assert_eq!(read_i32(&mut r).unwrap(), i32::MAX);
    assert_eq!(read_i32(&mut r).unwrap(), i32::MIN);
}

#[test]
fn short_input_is_refused() {
    let short: &[u8] = &[1, 2, 3];
    assert!(matches!(read_u8(&mut &short[3..]), Err(Error::UnexpectedEof)));
    assert!(matches!(read_i8(&mut &short[3..]), Err(Error::UnexpectedEof)));
    assert!(matches!(read_u16(&mut &short[2..]), Err(Error::UnexpectedEof)));
    assert!(matches!(read_u32(&mut &short[..]), Err(Error::UnexpectedEof)));
    assert!(matches!(read_i32(&mut &short[..]), Err(Error::UnexpectedEof)));
    assert!(matches!(read_u64(&mut &short[..]), Err(Error::UnexpectedEof)));
    assert!(matches!(read_exact(&mut &short[..], &mut [0; 4]), Err(Error::UnexpectedEof)));
}

#[test]
fn exact_reads_fill_the_buffer() {
    let mut r: &[u8] = &[1, 2, 3, 4];
    let mut buf = [0; 3];
    read_exact(&mut r, &mut buf).unwrap();
    assert_eq!(buf, [1, 2, 3]);
    assert_eq!(r, &[4]);
    read_exact(&mut r, &mut []).unwrap();
    assert_eq!(r, &[4]);
}

#[test]
fn singles_are_read_by_their_bits() {
    let bytes = (-12.75f32).to_be_bytes();
    let single = read_single(&mut &bytes[..]).unwrap();
    assert_eq!(f32::from_bits(single.bits), -12.75);
}

#[test]
fn signs_of_singles() {
    let values = [
        0.0f32,
        -0.0,
        1.0,
        -1.0,
        f32::MIN_POSITIVE,
        f32::from_bits(1),
        -f32::from_bits(1),
        f32::MAX,
        f32::MIN,
        f32::INFINITY,
        f32::NEG_INFINITY,
        f32::NAN,
        -f32::NAN,
        f32::from_bits(0x7f80_0001),
        f32::from_bits(0xffff_ffff),
    ];
    for v in values {
        let single = Single { bits: v.to_bits() };
        assert_eq!(single.is_positive(), v > 0.0);
        assert_eq!(single.is_negative(), v < 0.0);
    }
}
