use peppi::error::Error;
use peppi::frame::{Post, Pre};
use peppi::game::{End, Start};
use peppi::parse::replay::{parse_tail, raw_length};
use peppi::parse::{
    frames_in_range, parse, parse_checked, parse_metadata, FrameEvent, Handlers,
};
use peppi::ubjson::{Fields, Object};

#[derive(Default)]
struct Recorder {
    calls: Vec<String>,
    fail_at: Option<usize>,
}

impl Recorder {
    fn note(&mut self, call: String) -> Result<(), std::io::Error> {
        self.calls.push(call);
        if Some(self.calls.len()) == self.fail_at {
            return Err(std::io::Error::other("full"));
        }
        Ok(())
    }
}

impl Handlers for Recorder {
    fn game_start(&mut self, start: Start) -> Result<(), std::io::Error> {
        self.note(format!("start {}", start.stage.0))
    }

    fn game_end(&mut self, end: End) -> Result<(), std::io::Error> {
        self.note(format!("end {}", end.method.0))
    }

    fn frame_pre(&mut self, pre: FrameEvent<Pre>) -> Result<(), std::io::Error> {
        self.note(format!("pre {} {:?}", pre.id.index, pre.event.state))
    }

    fn frame_post(&mut self, post: FrameEvent<Post>) -> Result<(), std::io::Error> {
        self.note(format!("post {}", post.id.index))
    }

    fn metadata(&mut self, metadata: Fields) -> Result<(), std::io::Error> {
        self.note(format!("metadata {:?}", metadata.get(&"lastFrame".to_string())))
    }
}

struct Nothing;

impl Handlers for Nothing {}

const HEADER: &[u8] = b"{U\x03raw[$U#l";
const METADATA: &[u8] = b"U\x08metadata{U\x09lastFramel\0\0\x01\x02}";

fn pre(index: i32, port: u8, state: u16) -> Vec<u8> {
    let mut v = vec![0x37];
    v.extend(index.to_be_bytes());
    v.extend([port, 0, 0, 0, 0, 0]);
    v.extend(state.to_be_bytes());
    v.extend([0; 8]);
    v.extend(1.0f32.to_be_bytes());
    v.extend([0; 34]);
    v
}

fn post(index: i32, port: u8, character: u8, state: u16) -> Vec<u8> {
    let mut v = vec![0x38];
    v.extend(index.to_be_bytes());
    v.extend([port, 0, character]);
    v.extend(state.to_be_bytes());
    for x in [3.0f32, 4.0, -1.0, 12.5, 60.0] {
        v.extend(x.to_be_bytes());
    }
    v.extend([9, 2, 1, 4]);
    v
}

fn events(frames: &[Vec<u8>]) -> Vec<u8> {
    let mut v = vec![0x35, 16];
    for (code, size) in [(0x36u8, 320u16), (0x37, 58), (0x38, 33), (0x39, 1), (0x10, 2)] {
        v.push(code);
        v.extend(size.to_be_bytes());
    }
    v.push(0x36);
    let mut start = [0; 320];
    start[19] = 31;
    v.extend(start);
    for frame in frames {
        v.extend(frame);
    }
    v.extend([0x39, 3]);
    v
}

fn replay(events: &[u8]) -> Vec<u8> {
    let mut v = HEADER.to_vec();
    v.extend((events.len() as u32).to_be_bytes());
    v.extend(events);
    v.extend(METADATA);
    v.push(b'}');
    v
}

fn small() -> Vec<u8> {
    replay(&events(&[pre(-123, 0, 20), vec![0x10, 1, 2], post(-123, 0, 1, 20)]))
}

const SMALL_CALLS: [&str; 5] = [
    "start 31",
    "pre -123 Common(Common(20))",
    "post -123",
    "end 3",
    "metadata Some(Int(258))",
];

fn read(bytes: &[u8]) -> (Vec<String>, Result<(), Error>) {
    assert!(frames_in_range(bytes));
    let mut recorder = Recorder::default();
    let res = parse(bytes, &mut recorder);
    (recorder.calls, res)
}

#[test]
fn a_whole_replay() {
    let (calls, res) = read(&small());
    assert!(res.is_ok());
    assert_eq!(calls, SMALL_CALLS);
    assert!(parse(&small(), &mut Nothing).is_ok());
}

#[test]
fn zelda_transforms_between_frames() {
    let mut frames = Vec::new();
    for i in 0..44 {
        frames.push(post(i, 2, 19, 357));
    }
    frames.push(pre(44, 2, 361));
    frames.push(pre(44, 1, 361));
    let (calls, res) = read(&replay(&events(&frames)));
    assert!(res.is_ok());
    assert_eq!(calls[45], "pre 44 Sheik(Sheik(361))");
    assert_eq!(calls[46], "pre 44 Other(Internal(255), 361)");
}

#[test]
fn the_game_end_and_the_metadata_come_last() {
    let (calls, _) = read(&small());
    let n = calls.len();
    assert_eq!(&calls[n - 2..], ["end 3", "metadata Some(Int(258))"]);
    assert!(calls[..n - 2].iter().all(|c| !c.starts_with("end") && !c.starts_with("meta")));
}

#[test]
fn bytes_after_the_end_are_ignored() {
    let mut bytes = small();
    bytes.extend(b"more");
    let (calls, res) = read(&bytes);
    assert!(res.is_ok());
    assert_eq!(calls, SMALL_CALLS);
}

#[test]
fn a_replay_cut_short_is_refused() {
    let bytes = small();
    for n in 0..bytes.len() {
        let (calls, res) = read(&bytes[..n]);
        assert!(matches!(res, Err(Error::UnexpectedEof)));
        assert_eq!(calls, SMALL_CALLS[..calls.len()]);
    }
}

#[test]
fn the_raw_length_is_not_needed() {
    let mut bytes = small();
    bytes[11..15].copy_from_slice(&[9, 9, 9, 9]);
    let (calls, res) = read(&bytes);
    assert!(res.is_ok());
    assert_eq!(calls, SMALL_CALLS);
    assert!(matches!(parse_metadata::<Nothing>(&bytes), Err(Error::UnexpectedEof)));
}

#[test]
fn a_failing_handler_ends_the_reading() {
    for n in 1..=SMALL_CALLS.len() {
        let mut recorder = Recorder { fail_at: Some(n), ..Recorder::default() };
        let res = parse(&small(), &mut recorder);
        assert!(matches!(res, Err(Error::Handler(e)) if e.to_string() == "full"));
        assert_eq!(recorder.calls, SMALL_CALLS[..n]);
    }
}

#[test]
fn broken_replays() {
    let mut bytes = small();
    bytes[0] = b'[';
    let (calls, res) = read(&bytes);
    assert!(calls.is_empty());
    assert!(matches!(res, Err(Error::ExpectedBytes { expected, .. }) if expected == HEADER));

    let mut bytes = small();
    bytes[15] = 0x36;
    assert!(matches!(read(&bytes).1, Err(Error::ExpectedPayloads(0x36))));

    let mut bytes = small();
    bytes[16] = 15;
    assert!(matches!(read(&bytes).1, Err(Error::InvalidPayloadSize(15))));

    let (calls, res) = read(&replay(&events(&[vec![0x77]])));
    assert_eq!(calls, ["start 31"]);
    assert!(matches!(res, Err(Error::UnknownEvent(0x77))));

    let mut frame = post(0, 0, 1, 20);
    frame[18..22].copy_from_slice(&[0; 4]);
    let (calls, res) = read(&replay(&events(&[frame])));
    assert_eq!(calls, ["start 31"]);
    assert!(matches!(res, Err(Error::NoDirection)));
}

#[test]
fn broken_ends_of_replays() {
    let mut bytes = small();
    let n = bytes.len();
    bytes[n - 1] = b']';
    let (calls, res) = read(&bytes);
    assert_eq!(calls, SMALL_CALLS);
    match res {
        Err(Error::ExpectedBytes { expected, actual }) => {
            assert_eq!((expected, actual), (vec![b'}'], vec![b']']));
        }
        other => panic!("{:?}", other),
    }

    let mut bytes = small();
    bytes[n - 2] = b'Z';
    let (calls, res) = read(&bytes);
    assert_eq!(calls, SMALL_CALLS[..4]);
    assert!(matches!(res, Err(Error::UnexpectedToken(b'Z'))));

    let mut bytes = small();
    bytes[n - METADATA.len() - 1] = b'X';
    let (calls, res) = read(&bytes);
    assert_eq!(calls, SMALL_CALLS[..4]);
    assert!(matches!(res, Err(Error::ExpectedBytes { .. })));
}

#[test]
fn ports_that_do_not_exist_are_found() {
    assert!(frames_in_range(&small()));
    assert!(!frames_in_range(&replay(&events(&[pre(0, 4, 20)]))));
    assert!(!frames_in_range(&replay(&events(&[post(0, 200, 1, 20)]))));
    // the reading does not come to what is after the end of the game
    let mut bytes = events(&[]);
    bytes.extend(pre(0, 4, 20));
    assert!(frames_in_range(&replay(&bytes)));
    assert!(frames_in_range(b"no replay"));
}

#[test]
fn a_port_that_does_not_exist_ends_the_reading() {
    let bytes = replay(&events(&[pre(0, 0, 20), pre(1, 4, 20)]));
    let mut recorder = Recorder::default();
    assert!(parse_checked(&bytes, &mut recorder).is_none());
    assert_eq!(recorder.calls, ["start 31", "pre 0 Common(Common(20))"]);
    // a handler that fails before keeps the reading from it
    let mut recorder = Recorder { fail_at: Some(2), ..Recorder::default() };
    let res = parse_checked(&bytes, &mut recorder);
    assert!(matches!(res, Some(Err(Error::Handler(e))) if e.to_string() == "full"));
    assert_eq!(recorder.calls.len(), 2);

    let mut recorder = Recorder::default();
    assert!(matches!(parse_checked(&small(), &mut recorder), Some(Ok(()))));
    assert_eq!(recorder.calls, SMALL_CALLS);
    assert!(matches!(parse_checked(b"", &mut recorder), Some(Err(Error::UnexpectedEof))));
}

#[test]
fn other_events_may_stand_anywhere() {
    let frames = [pre(0, 0, 20), post(0, 0, 1, 20), pre(1, 0, 20)];
    let (without, _) = read(&replay(&events(&frames)));
    for i in 0..=frames.len() {
        let mut more = frames.to_vec();
        more.insert(i, vec![0x10, 0x39, 3]);
        let (calls, res) = read(&replay(&events(&more)));
        assert!(res.is_ok());
        assert_eq!(calls, without);
    }
}

#[test]
fn metadata_alone() {
    let fields = parse_metadata::<Nothing>(&small()).unwrap();
    assert!(matches!(fields.get(&"lastFrame".to_string()), Some(Object::Int(258))));
    assert_eq!(fields.entries.len(), 1);
    // the events are not looked at
    let mut bytes = small();
    bytes[15] = 0xff;
    let fields = parse_metadata::<Nothing>(&bytes).unwrap();
    assert!(matches!(fields.get(&"lastFrame".to_string()), Some(Object::Int(258))));
}

#[test]
fn metadata_of_broken_replays() {
    let bytes = small();
    for n in 0..bytes.len() {
        assert!(matches!(parse_metadata::<Nothing>(&bytes[..n]), Err(Error::UnexpectedEof)));
    }
    let mut bytes = small();
    bytes[11..15].copy_from_slice(&[0, 0, 0, 1]);
    assert!(matches!(parse_metadata::<Nothing>(&bytes), Err(Error::ExpectedBytes { .. })));
    assert!(matches!(parse_metadata::<Nothing>(b"{U\x03row[$U#l"), Err(Error::ExpectedBytes { .. })));
}

#[test]
fn parts_of_a_replay() {
    let bytes = small();
    let mut r: &[u8] = &bytes;
    let length = raw_length(&mut r).unwrap() as usize;
    assert_eq!(r.len(), bytes.len() - 15);
    let mut tail = &r[length..];
    let fields = parse_tail(&mut tail).unwrap();
    assert_eq!(fields.entries.len(), 1);
    assert!(tail.is_empty());
}

#[test]
fn what_is_taken_of_refused_parts() {
    let mut r: &[u8] = b"{U\x03row[$U#l\0\0";
    assert!(matches!(raw_length(&mut r), Err(Error::ExpectedBytes { .. })));
    assert_eq!(r, b"\0\0");
    let mut r: &[u8] = b"U\x08metaData{}}x";
    assert!(matches!(parse_tail(&mut r), Err(Error::ExpectedBytes { .. })));
    assert_eq!(r, b"}}x");
    let mut r: &[u8] = b"U\x08metadata{U\x01aZ}}x";
    assert!(matches!(parse_tail(&mut r), Err(Error::UnexpectedToken(b'Z'))));
    assert_eq!(r, b"}}x");
    let mut r: &[u8] = b"U\x08metadata{}]x";
    assert!(matches!(parse_tail(&mut r), Err(Error::ExpectedBytes { .. })));
    assert_eq!(r, b"x");
}
