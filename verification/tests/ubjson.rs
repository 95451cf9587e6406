use peppi::error::Error;
use peppi::ubjson::{parse_map, parse_value, Fields, Object};

fn get<'a>(fields: &'a Fields, key: &str) -> Option<&'a Object> {
    fields.get(&key.to_string())
}

fn integer(fields: &Fields, key: &str) -> i64 {
    match get(fields, key) {
        Some(Object::Int(value)) => *value,
        other => panic!("{:?}", other),
    }
}

fn text(value: &Object) -> &str {
    match value {
        Object::Str(text) => text,
        other => panic!("{:?}", other),
    }
}

#[test]
fn maps_of_all_kinds_of_values() {
    let bytes = b"U\x01al\xff\xff\xff\x85U\x02bcSU\x05hello}U\x01d{U\x01el\0\0\0\x07}}rest";
    let mut r: &[u8] = &bytes[..];
    let fields = parse_map(&mut r).unwrap();
    assert_eq!(integer(&fields, "a"), -123);
    assert_eq!(text(get(&fields, "bc").unwrap()), "hello");
    assert!(get(&fields, "d").is_none());
    assert_eq!(fields.entries.len(), 2);
    assert_eq!(r, &b"U\x01d{U\x01el\0\0\0\x07}}rest"[..]);
}

#[test]
fn nested_maps() {
    let mut r: &[u8] = b"U\x01d{U\x01el\0\0\0\x07}U\x01fSU\0}x";
    let fields = parse_map(&mut r).unwrap();
    match get(&fields, "d") {
        Some(Object::Fields(inner)) => assert_eq!(integer(inner, "e"), 7),
        other => panic!("{:?}", other),
    }
    assert_eq!(text(get(&fields, "f").unwrap()), "");
    assert_eq!(r, b"x");
}

#[test]
fn a_key_that_comes_again_has_the_later_value() {
    let mut r: &[u8] = b"U\x01al\0\0\0\x01U\x01bl\0\0\0\x02U\x01al\0\0\0\x03}";
    let fields = parse_map(&mut r).unwrap();
    assert_eq!(fields.entries.len(), 2);
    assert_eq!(integer(&fields, "a"), 3);
    assert_eq!(integer(&fields, "b"), 2);
}

#[test]
fn fields_by_hand() {
    let mut fields = Fields::new();
    assert!(get(&fields, "k").is_none());
    fields.insert("k".to_string(), Object::Int(1));
    fields.insert("k".to_string(), Object::Int(2));
    assert_eq!(integer(&fields, "k"), 2);
    assert_eq!(fields.entries.len(), 1);
}

#[test]
fn texts_are_utf_8() {
    let mut r: &[u8] = b"SU\x03\xe3\x83\x86";
    assert_eq!(text(&parse_value(&mut r).unwrap()), "\u{30c6}");
    assert!(matches!(parse_value(&mut &b"SU\x02\xe3\x83"[..]), Err(Error::InvalidUtf8)));
    assert!(matches!(parse_map(&mut &b"U\x01\xff}"[..]), Err(Error::InvalidUtf8)));
}

#[test]
fn unexpected_tokens() {
    assert!(matches!(parse_value(&mut &b"Z"[..]), Err(Error::UnexpectedToken(b'Z'))));
    assert!(matches!(parse_value(&mut &b"Si"[..]), Err(Error::UnexpectedToken(b'i'))));
    assert!(matches!(parse_map(&mut &b"i"[..]), Err(Error::UnexpectedToken(b'i'))));
    assert!(matches!(parse_map(&mut &b"U\x01aT"[..]), Err(Error::UnexpectedToken(b'T'))));
}

#[test]
fn maps_cut_short() {
    let bytes = b"U\x01al\0\0\0\x01U\x02bcSU\x02hiU\x01d{U\x01el\0\0\0\x07}}";
    assert!(parse_map(&mut &bytes[..]).is_ok());
    for n in 0..bytes.len() {
        assert!(matches!(parse_map(&mut &bytes[..n]), Err(Error::UnexpectedEof)));
    }
}

#[test]
fn what_is_taken_of_refused_values() {
    for (bytes, rest) in [
        (&b"Zab"[..], &b"ab"[..]),
        (b"Siab", b"ab"),
        (b"SU\x01\xffab", b"ab"),
        (b"{U\x01al\0\0\0\x01U\x01bZ}", b"}"),
        (b"{U\x01\xff}", b"}"),
    ] {
        let mut r = bytes;
        assert!(parse_value(&mut r).is_err());
        assert_eq!(r, rest);
    }
    let mut r: &[u8] = b"U\x01a{U\x01bSU\x01x]}";
    assert!(matches!(parse_map(&mut r), Err(Error::UnexpectedToken(b']'))));
    assert_eq!(r, b"}");
}

#[test]
fn no_key_occurs_twice_in_an_inner_map() {
    let mut r: &[u8] = b"U\x01d{U\x01el\0\0\0\x07U\x01el\0\0\0\x08}}";
    match get(&parse_map(&mut r).unwrap(), "d") {
        Some(Object::Fields(inner)) => {
            assert_eq!(integer(inner, "e"), 8);
            assert_eq!(inner.entries.len(), 1);
        }
        other => panic!("{:?}", other),
    }
}
