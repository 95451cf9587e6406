use std::collections::HashMap;

use peppi::error::Error;
use peppi::frame::{Post, Pre};
use peppi::game::{End, Start};
use peppi::parse::char_state::initial_char_states;
use peppi::parse::events::{
    decode_event, deliver, event, event_payloads, expect_bytes, payload_is_in_range, read_framed,
    Call, Event, Handlers,
};
use peppi::parse::FrameEvent;
use peppi::ubjson::Fields;

struct Nothing;

impl Handlers for Nothing {}

#[derive(Default)]
struct Recorder {
    calls: Vec<String>,
    fails: bool,
}

impl Recorder {
    fn note(&mut self, call: String) -> Result<(), std::io::Error> {
        self.calls.push(call);
        if self.fails {
            return Err(std::io::Error::other("full"));
        }
        Ok(())
    }
}

impl Handlers for Recorder {
    fn game_start(&mut self, start: Start) -> Result<(), std::io::Error> {
        self.note(format!("start {}", start.timer))
    }

    fn game_end(&mut self, end: End) -> Result<(), std::io::Error> {
        self.note(format!("end {}", end.method.0))
    }

    fn frame_pre(&mut self, pre: FrameEvent<Pre>) -> Result<(), std::io::Error> {
        self.note(format!("pre {}", pre.id.index))
    }

    fn frame_post(&mut self, post: FrameEvent<Post>) -> Result<(), std::io::Error> {
        self.note(format!("post {}", post.id.index))
    }

    fn metadata(&mut self, metadata: Fields) -> Result<(), std::io::Error> {
        self.note(format!("metadata {}", metadata.entries.len()))
    }
}

fn sizes(entries: &[(u8, u16)]) -> HashMap<u8, u16> {
    entries.iter().cloned().collect()
}

fn post_payload(index: i32, port: u8) -> Vec<u8> {
    let mut v = index.to_be_bytes().to_vec();
    v.extend([port, 0, 1, 0, 20]);
    for x in [3.0f32, 4.0, 1.0, 12.5, 60.0] {
        v.extend(x.to_be_bytes());
    }
    v.extend([9, 2, 1, 4]);
    v
}

fn pre_payload(index: i32, port: u8) -> Vec<u8> {
    let mut v = index.to_be_bytes().to_vec();
    v.extend([port, 0]);
    v.extend([0; 14]);
    v.extend(1.0f32.to_be_bytes());
    v.extend([0; 34]);
    v
}

#[test]
fn codes_of_events() {
    for code in 0..=255u8 {
        match Event::from_code(code) {
            Some(event) => assert_eq!(event.code(), code),
            None => assert!(!(0x35..=0x39).contains(&code)),
        }
    }
    assert_eq!(Event::from_code(0x35), Some(Event::Payloads));
    assert_eq!(Event::from_code(0x36), Some(Event::GameStart));
    assert_eq!(Event::from_code(0x37), Some(Event::FramePre));
    assert_eq!(Event::from_code(0x38), Some(Event::FramePost));
    assert_eq!(Event::from_code(0x39), Some(Event::GameEnd));
}

#[test]
fn payload_table() {
    let mut r: &[u8] = &[0x35, 7, 0x36, 0x01, 0x40, 0x39, 0, 2, 0xaa];
    assert_eq!(event_payloads(&mut r).unwrap(), sizes(&[(0x36, 320), (0x39, 2)]));
    assert_eq!(r, &[0xaa]);
    assert_eq!(event_payloads(&mut &[0x35, 1][..]).unwrap(), sizes(&[]));
    // a code that comes again has the later size
    let mut r: &[u8] = &[0x35, 7, 0x36, 0, 1, 0x36, 0, 2];
    assert_eq!(event_payloads(&mut r).unwrap(), sizes(&[(0x36, 2)]));
}

#[test]
fn payload_tables_that_are_refused() {
    assert!(matches!(event_payloads(&mut &[0x36, 1][..]), Err(Error::ExpectedPayloads(0x36))));
    for size in [0u8, 2, 3, 5, 255] {
        let res = event_payloads(&mut &[0x35, size][..]);
        assert!(matches!(res, Err(Error::InvalidPayloadSize(s)) if s == size));
    }
    let mut r: &[u8] = &[0x36, 1, 2];
    assert!(event_payloads(&mut r).is_err());
    assert_eq!(r, &[1, 2]);
    let mut r: &[u8] = &[0x35, 2, 3];
    assert!(event_payloads(&mut r).is_err());
    assert_eq!(r, &[3]);
    let whole = [0x35, 7, 0x36, 0x01, 0x40, 0x39, 0, 2];
    for n in 0..whole.len() {
        assert!(matches!(event_payloads(&mut &whole[..n]), Err(Error::UnexpectedEof)));
    }
}

#[test]
fn expected_bytes() {
    let mut r: &[u8] = &[1, 2, 3, 4];
    expect_bytes(&mut r, &[1, 2, 3]).unwrap();
    assert_eq!(r, &[4]);
    expect_bytes(&mut r, &[]).unwrap();
    assert!(matches!(expect_bytes(&mut r, &[4, 5]), Err(Error::UnexpectedEof)));
    let mut r: &[u8] = &[1, 9, 3, 4];
    match expect_bytes(&mut r, &[1, 2, 3]) {
        Err(Error::ExpectedBytes { expected, actual }) => {
            assert_eq!(expected, [1, 2, 3]);
            assert_eq!(actual, [1, 9, 3]);
        }
        other => panic!("{:?}", other),
    }
    // the bytes are taken all the same
    assert_eq!(r, &[4]);
}

#[test]
fn frames_of_events() {
    let table = sizes(&[(0x50, 3)]);
    let mut r: &[u8] = &[0x50, 1, 2, 3, 4];
    assert_eq!(read_framed(&mut r, &table).unwrap(), (0x50, vec![1, 2, 3]));
    assert_eq!(r, &[4]);
    assert!(matches!(read_framed(&mut r, &table), Err(Error::UnknownEvent(4))));
    assert!(r.is_empty());
    assert!(matches!(read_framed(&mut &[0x50, 1, 2][..], &table), Err(Error::UnexpectedEof)));
    assert!(matches!(read_framed(&mut &[][..], &table), Err(Error::UnexpectedEof)));
}

#[test]
fn handlers_do_nothing_by_default() {
    let mut bytes = vec![0x38];
    bytes.extend(post_payload(5, 0));
    let table = sizes(&[(0x38, 33)]);
    let mut states = initial_char_states();
    let res = event(&mut &bytes[..], &table, &mut states, &mut Nothing);
    assert_eq!(res.unwrap(), Some(Event::FramePost));
    assert!(deliver(&mut Nothing, Call::Metadata(Fields::new())).is_ok());
}

#[test]
fn handlers_are_told_of_events() {
    let table = sizes(&[(0x36, 320), (0x37, 58), (0x38, 33), (0x39, 1)]);
    let mut bytes = vec![0x36];
    bytes.extend([0; 320]);
    bytes.push(0x37);
    bytes.extend(pre_payload(-5, 1));
    bytes.push(0x38);
    bytes.extend(post_payload(6, 1));
    bytes.extend([0x39, 3]);
    let mut states = initial_char_states();
    let mut recorder = Recorder::default();
    let mut r: &[u8] = &bytes;
    for expected in [Event::GameStart, Event::FramePre, Event::FramePost, Event::GameEnd] {
        let res = event(&mut r, &table, &mut states, &mut recorder);
        assert_eq!(res.unwrap(), Some(expected));
    }
    assert!(r.is_empty());
    assert_eq!(recorder.calls, ["start 0", "pre -5", "post 6", "end 3"]);
    assert_eq!(states[1].character.0, 1);
}

#[test]
fn other_events_are_passed_over() {
    let table = sizes(&[(0x10, 2)]);
    let mut states = initial_char_states();
    let mut recorder = Recorder::default();
    let mut r: &[u8] = &[0x10, 1, 2, 3];
    assert_eq!(event(&mut r, &table, &mut states, &mut recorder).unwrap(), None);
    assert_eq!(r, &[3]);
    assert!(recorder.calls.is_empty());
    assert_eq!(states, initial_char_states());
}

#[test]
fn events_that_are_refused() {
    let table = sizes(&[(0x35, 1), (0x39, 0)]);
    let mut states = initial_char_states();
    let mut h = Recorder::default();
    let res = event(&mut &[0x35, 1][..], &table, &mut states, &mut h);
    assert!(matches!(res, Err(Error::UnexpectedEvent(0x35))));
    let res = event(&mut &[0x36, 1][..], &table, &mut states, &mut h);
    assert!(matches!(res, Err(Error::UnknownEvent(0x36))));
    let res = event(&mut &[0x39][..], &table, &mut states, &mut h);
    assert!(matches!(res, Err(Error::UnexpectedEof)));
    let res = event(&mut &[0x35][..], &table, &mut states, &mut h);
    assert!(matches!(res, Err(Error::UnexpectedEof)));
    assert!(h.calls.is_empty());
}

#[test]
fn what_is_taken_of_a_refused_event() {
    let table = sizes(&[(0x35, 1), (0x38, 33)]);
    let mut states = initial_char_states();
    let mut h = Recorder::default();
    // of one without a size, its code
    let mut r: &[u8] = &[0x36, 1, 2];
    assert!(event(&mut r, &table, &mut states, &mut h).is_err());
    assert_eq!(r, &[1, 2]);
    assert!(decode_event(&mut r, &table, &mut states).is_err());
    assert_eq!(r, &[2]);
    // of another, its payload too
    let mut r: &[u8] = &[0x35, 1, 2];
    assert!(event(&mut r, &table, &mut states, &mut h).is_err());
    assert_eq!(r, &[2]);
    let mut bytes = vec![0x38];
    bytes.extend([0; 33]);
    bytes.push(7);
    let mut r: &[u8] = &bytes;
    let res = event(&mut r, &table, &mut states, &mut h);
    assert!(matches!(res, Err(Error::NoDirection)));
    assert_eq!(r, &[7]);
    assert!(h.calls.is_empty());
    assert_eq!(states, initial_char_states());
}

#[test]
fn a_failing_handler_fails_the_event() {
    let mut bytes = vec![0x38];
    bytes.extend(post_payload(5, 0));
    let table = sizes(&[(0x38, 33)]);
    let mut states = initial_char_states();
    let mut h = Recorder { fails: true, ..Recorder::default() };
    let res = event(&mut &bytes[..], &table, &mut states, &mut h);
    assert!(matches!(res, Err(Error::Handler(e)) if e.to_string() == "full"));
    assert_eq!(h.calls, ["post 5"]);
    // what is known of the fighters has moved on all the same
    assert_eq!(states[0].character.0, 1);
}

#[test]
fn decoded_events() {
    let table = sizes(&[(0x39, 2)]);
    let mut states = initial_char_states();
    match decode_event(&mut &[0x39, 2, 3][..], &table, &mut states) {
        Ok(Some((Event::GameEnd, Call::GameEnd(end)))) => assert_eq!(end.method.0, 2),
        other => panic!("{:?}", other),
    }
}

#[test]
fn ports_out_of_range() {
    let states = initial_char_states();
    assert!(payload_is_in_range(0x37, &pre_payload(0, 3), &states));
    assert!(!payload_is_in_range(0x37, &pre_payload(0, 4), &states));
    assert!(!payload_is_in_range(0x37, &pre_payload(0, 4)[..6], &states));
    assert!(payload_is_in_range(0x37, &pre_payload(0, 4)[..5], &states));
    assert!(payload_is_in_range(0x38, &post_payload(0, 3), &states));
    assert!(!payload_is_in_range(0x38, &post_payload(0, 4), &states));
    // an event that cannot be read does not come to its port
    assert!(payload_is_in_range(0x38, &post_payload(0, 4)[..32], &states));
    assert!(payload_is_in_range(0x39, &[4, 4, 4, 4, 4, 4, 4], &states));
}
