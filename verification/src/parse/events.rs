//! The stream of events in a replay: the table of payload sizes that it starts with, and then the
//! events, each a code and a payload.
use std::collections::HashMap;
use vstd::prelude::*;
use vstd::slice::slice_to_vec;

use crate::bytes::{be_u16, read_exact, read_u16, read_u8};
use crate::error::{agrees, Error, Failure};
use crate::frame::{Post, Pre};
use crate::game::{End, Start, StartView, NUM_PORTS};
use crate::parse::char_state::{has_room, CharState};
use crate::parse::frame_events::{
    frame_post, frame_post_model, frame_pre, frame_pre_model, post_in_range, pre_in_range,
    read_post, states_after_post, FrameEvent,
};
use crate::parse::game_events::{game_end, game_end_model, game_start, game_start_model};
use crate::ubjson::{Fields, ObjectView};

verus! {

broadcast use {
    vstd::seq_lib::lemma_seq_skip_of_skip,
    vstd::std_specs::hash::group_hash_axioms,
};

/// The events that are read. Others are passed over.
#[derive(Copy, Clone, Debug, PartialEq, Eq, Structural)]
pub enum Event {
    Payloads,
    GameStart,
    FramePre,
    FramePost,
    GameEnd,
}

impl Event {
    /// The code of the event.
    pub open spec fn spec_code(self) -> u8 {
        match self {
            Event::Payloads => 0x35,
            Event::GameStart => 0x36,
            Event::FramePre => 0x37,
            Event::FramePost => 0x38,
            Event::GameEnd => 0x39,
        }
    }

    pub fn code(self) -> (code: u8)
        ensures
            code == self.spec_code(),
    {
        match self {
            Event::Payloads => 0x35,
            Event::GameStart => 0x36,
            Event::FramePre => 0x37,
            Event::FramePost => 0x38,
            Event::GameEnd => 0x39,
        }
    }

    /// The event with the code `code`, where there is one.
    pub open spec fn of_code(code: u8) -> Option<Event> {
        match code {
            0x35 => Some(Event::Payloads),
            0x36 => Some(Event::GameStart),
            0x37 => Some(Event::FramePre),
            0x38 => Some(Event::FramePost),
            0x39 => Some(Event::GameEnd),
            _ => None,
        }
    }

    pub fn from_code(code: u8) -> (event: Option<Event>)
        ensures
            event == Event::of_code(code),
    {
        match code {
            0x35 => Some(Event::Payloads),
            0x36 => Some(Event::GameStart),
            0x37 => Some(Event::FramePre),
            0x38 => Some(Event::FramePost),
            0x39 => Some(Event::GameEnd),
            _ => None,
        }
    }
}

/// Each event has its own code.
pub proof fn law_event_codes(event: Event, code: u8)
    ensures
        Event::of_code(event.spec_code()) == Some(event),
        Event::of_code(code) == Some(event) ==> event.spec_code() == code,
{
}

/// The code in entry `i` of a table of payload sizes. An entry takes three bytes: a code and the
/// size of its payload.
pub open spec fn entry_code(s: Seq<u8>, i: int) -> u8 {
    s[3 * i]
}

/// The sizes in the first `n` entries of a table. A code that comes again has the later size.
pub open spec fn size_table(s: Seq<u8>, n: int) -> Map<u8, u16>
    decreases n,
{
    if n <= 0 {
        Map::empty()
    } else {
        size_table(s, n - 1).insert(entry_code(s, n - 1), be_u16(s, 3 * (n - 1) + 1))
    }
}

/// The table of payload sizes that `s` starts with, and how many bytes it takes. The byte after
/// its code counts itself and the entries.
pub open spec fn event_payloads_model(s: Seq<u8>) -> Result<(Map<u8, u16>, nat), Failure> {
    if s.len() < 1 {
        Err(Failure::UnexpectedEof)
    } else if s[0] != Event::Payloads.spec_code() {
        Err(Failure::ExpectedPayloads(s[0]))
    } else if s.len() < 2 {
        Err(Failure::UnexpectedEof)
    } else if s[1] % 3 != 1 {
        Err(Failure::InvalidPayloadSize(s[1]))
    } else if s.len() < 1 + s[1] {
        Err(Failure::UnexpectedEof)
    } else {
        Ok((size_table(s.skip(2), (s[1] / 3) as int), 1 + s[1] as nat))
    }
}

/// Takes the table of payload sizes.
pub fn event_payloads(r: &mut &[u8]) -> (res: Result<HashMap<u8, u16>, Error>)
    ensures
        match res {
            Ok(sizes) => event_payloads_model(old(r)@) matches Ok((model, n)) && sizes@ == model
                && n <= old(r)@.len() && final(r)@ == old(r)@.skip(n as int),
            Err(e) => event_payloads_model(old(r)@) matches Err(failure) && e@ == failure && match e {
                Error::ExpectedPayloads(_) => final(r)@ == old(r)@.skip(1),
                Error::InvalidPayloadSize(_) => final(r)@ == old(r)@.skip(2),
                _ => true,
            },
        },
{
    let ghost s = r@;
    let code = read_u8(r)?;
    if code != Event::Payloads.code() {
        return Err(Error::ExpectedPayloads(code));
    }
    let payload_size = read_u8(r)?;  // counts itself too
    if payload_size % 3 != 1 {
        return Err(Error::InvalidPayloadSize(payload_size));
    }
    let mut payload_sizes: HashMap<u8, u16> = HashMap::new();
    let count: u8 = payload_size / 3;
    let mut i: u8 = 0;
    while i < count
        invariant
            s == old(r)@,
            s[0] == Event::Payloads.spec_code(),
            i <= count,
            count == s[1] / 3,
            s[1] % 3 == 1,
            s.len() >= 2 + 3 * i,
            r@ == s.skip(2 + 3 * i),
            payload_sizes@ == size_table(s.skip(2), i as int),
        decreases count - i,
    {
        let code = read_u8(r)?;
        let size = read_u16(r)?;
        payload_sizes.insert(code, size);
        i += 1;
    }
    Ok(payload_sizes)
}

/// Whether `s` starts with `expected`.
pub open spec fn expect_bytes_model(s: Seq<u8>, expected: Seq<u8>) -> Result<(), Failure> {
    if s.len() < expected.len() {
        Err(Failure::UnexpectedEof)
    } else if s.take(expected.len() as int) != expected {
        Err(Failure::ExpectedBytes { expected, actual: s.take(expected.len() as int) })
    } else {
        Ok(())
    }
}

/// Takes as many bytes as there are in `expected`, and fails where they are others.
pub fn expect_bytes(r: &mut &[u8], expected: &[u8]) -> (res: Result<(), Error>)
    ensures
        agrees(res, expect_bytes_model(old(r)@, expected@)),
        old(r)@.len() >= expected@.len() ==> final(r)@ == old(r)@.skip(expected@.len() as int),
{
    let mut actual: Vec<u8> = vec![0; expected.len()];
    read_exact(r, actual.as_mut_slice())?;
    let mut i: usize = 0;
    while i < expected.len()
        invariant
            i <= expected@.len(),
            actual@.len() == expected@.len(),
            actual@.take(i as int) == expected@.take(i as int),
            old(r)@.len() >= expected@.len(),
            actual@ == old(r)@.take(expected@.len() as int),
            r@ == old(r)@.skip(expected@.len() as int),
        decreases expected@.len() - i,
    {
        if actual[i] != expected[i] {
            return Err(Error::ExpectedBytes { expected: slice_to_vec(expected), actual });
        }
        assert(actual@.take(i + 1) =~= actual@.take(i as int).push(actual@[i as int]));
        assert(expected@.take(i + 1) =~= expected@.take(i as int).push(expected@[i as int]));
        i += 1;
    }
    assert(actual@.take(i as int) =~= actual@);
    assert(expected@.take(i as int) =~= expected@);
    Ok(())
}

/// What is told to a handler.
#[derive(Debug)]
pub enum Call {
    GameStart(Start),
    GameEnd(End),
    FramePre(FrameEvent<Pre>),
    FramePost(FrameEvent<Post>),
    Metadata(Fields),
}

/// A [`Call`] with its text as sequences.
pub enum CallView {
    GameStart(StartView),
    GameEnd(End),
    FramePre(FrameEvent<Pre>),
    FramePost(FrameEvent<Post>),
    Metadata(Map<Seq<char>, ObjectView>),
}

impl View for Call {
    type V = CallView;

    open spec fn view(&self) -> CallView {
        match *self {
            Call::GameStart(start) => CallView::GameStart(start@),
            Call::GameEnd(end) => CallView::GameEnd(end),
            Call::FramePre(pre) => CallView::FramePre(pre),
            Call::FramePost(post) => CallView::FramePost(post),
            Call::Metadata(fields) => CallView::Metadata(fields@),
        }
    }
}

impl CallView {
    /// The event that the call tells of. Metadata come from none.
    pub open spec fn event(self) -> Option<Event> {
        match self {
            CallView::GameStart(_) => Some(Event::GameStart),
            CallView::GameEnd(_) => Some(Event::GameEnd),
            CallView::FramePre(_) => Some(Event::FramePre),
            CallView::FramePost(_) => Some(Event::FramePost),
            CallView::Metadata(_) => None,
        }
    }
}

/// What a reader of replays does with what it is told. By default, nothing. A handler that fails
/// ends the reading.
pub trait Handlers: Sized {
    fn game_start(&mut self, _start: Start) -> (res: Result<(), std::io::Error>)
        default_ensures
            res is Ok,
            *final(self) == *old(self),
    {
        Ok(())
    }

    fn game_end(&mut self, _end: End) -> (res: Result<(), std::io::Error>)
        default_ensures
            res is Ok,
            *final(self) == *old(self),
    {
        Ok(())
    }

    fn frame_pre(&mut self, _pre: FrameEvent<Pre>) -> (res: Result<(), std::io::Error>)
        default_ensures
            res is Ok,
            *final(self) == *old(self),
    {
        Ok(())
    }

    fn frame_post(&mut self, _post: FrameEvent<Post>) -> (res: Result<(), std::io::Error>)
        default_ensures
            res is Ok,
            *final(self) == *old(self),
    {
        Ok(())
    }

    fn metadata(&mut self, _metadata: Fields) -> (res: Result<(), std::io::Error>)
        default_ensures
            res is Ok,
            *final(self) == *old(self),
    {
        Ok(())
    }
}

/// Makes the call, once, of the method that it is for. The result is what the method gave back.
pub fn deliver<H: Handlers>(handlers: &mut H, call: Call) -> (res: Result<(), std::io::Error>)
    ensures
        exists|m: &mut H|
            {
                &&& *m == *old(handlers)
                &&& *final(m) == *final(handlers)
                &&& match call {
                    Call::GameStart(start) => call_ensures(H::game_start, (m, start), res),
                    Call::GameEnd(end) => call_ensures(H::game_end, (m, end), res),
                    Call::FramePre(pre) => call_ensures(H::frame_pre, (m, pre), res),
                    Call::FramePost(post) => call_ensures(H::frame_post, (m, post), res),
                    Call::Metadata(fields) => call_ensures(H::metadata, (m, fields), res),
                }
            },
{
    match call {
        Call::GameStart(start) => handlers.game_start(start),
        Call::GameEnd(end) => handlers.game_end(end),
        Call::FramePre(pre) => handlers.frame_pre(pre),
        Call::FramePost(post) => handlers.frame_post(post),
        Call::Metadata(fields) => handlers.metadata(fields),
    }
}

/// The code and the payload of the event that `s` starts with.
pub open spec fn framed(s: Seq<u8>, sizes: Map<u8, u16>) -> Result<(u8, Seq<u8>), Failure> {
    if s.len() < 1 {
        Err(Failure::UnexpectedEof)
    } else if !sizes.contains_key(s[0]) {
        Err(Failure::UnknownEvent(s[0]))
    } else if s.len() < 1 + sizes[s[0]] {
        Err(Failure::UnexpectedEof)
    } else {
        Ok((s[0], s.subrange(1, 1 + sizes[s[0]])))
    }
}

/// What an event with this code and payload tells a handler, if anything.
#[verifier::opaque]
pub open spec fn payload_model(code: u8, payload: Seq<u8>, states: Seq<CharState>) -> Result<
    Option<CallView>,
    Failure,
> {
    match Event::of_code(code) {
        None => Ok(None),
        Some(Event::Payloads) => Err(Failure::UnexpectedEvent(code)),
        Some(Event::GameStart) => match game_start_model(payload) {
            Ok(start) => Ok(Some(CallView::GameStart(start))),
            Err(failure) => Err(failure),
        },
        Some(Event::GameEnd) => match game_end_model(payload) {
            Ok(end) => Ok(Some(CallView::GameEnd(end))),
            Err(failure) => Err(failure),
        },
        Some(Event::FramePre) => match frame_pre_model(payload, states) {
            Ok(pre) => Ok(Some(CallView::FramePre(pre))),
            Err(failure) => Err(failure),
        },
        Some(Event::FramePost) => match frame_post_model(payload) {
            Ok(post) => Ok(Some(CallView::FramePost(post))),
            Err(failure) => Err(failure),
        },
    }
}

/// What is known of the fighters after an event with this code and payload.
#[verifier::opaque]
pub open spec fn payload_states(code: u8, payload: Seq<u8>, states: Seq<CharState>) -> Seq<
    CharState,
> {
    if code == Event::FramePost.spec_code() {
        states_after_post(payload, states)
    } else {
        states
    }
}

/// An event with this code and payload names no port that does not exist, and lets no age outgrow
/// its counter.
#[verifier::opaque]
pub open spec fn payload_in_range(code: u8, payload: Seq<u8>, states: Seq<CharState>) -> bool {
    &&& code == Event::FramePre.spec_code() ==> pre_in_range(payload)
    &&& code == Event::FramePost.spec_code() ==> post_in_range(payload, states)
}

/// The event that `s` starts with names no port that does not exist, and lets no age outgrow its
/// counter.
pub open spec fn event_in_range(
    s: Seq<u8>,
    sizes: Map<u8, u16>,
    states: Seq<CharState>,
) -> bool {
    framed(s, sizes) matches Ok((code, payload)) ==> payload_in_range(code, payload, states)
}

/// What the event that `s` starts with tells a handler, if anything.
pub open spec fn event_model(
    s: Seq<u8>,
    sizes: Map<u8, u16>,
    states: Seq<CharState>,
) -> Result<Option<CallView>, Failure> {
    match framed(s, sizes) {
        Ok((code, payload)) => payload_model(code, payload, states),
        Err(failure) => Err(failure),
    }
}

/// What is known of the fighters after the event that `s` starts with.
pub open spec fn event_states(
    s: Seq<u8>,
    sizes: Map<u8, u16>,
    states: Seq<CharState>,
) -> Seq<CharState> {
    match framed(s, sizes) {
        Ok((code, payload)) => payload_states(code, payload, states),
        Err(_) => states,
    }
}

/// What comes after the event that `s` starts with.
pub open spec fn event_rest(s: Seq<u8>, sizes: Map<u8, u16>) -> Seq<u8> {
    s.skip(1 + sizes[s[0]])
}

/// Whether an event with this code and payload is in range.
pub fn payload_is_in_range(
    code: u8,
    payload: &[u8],
    last_char_states: &[CharState; NUM_PORTS],
) -> (res: bool)
    ensures
        res == payload_in_range(code, payload@, last_char_states@),
{
    proof {
        reveal(payload_in_range);
    }
    match Event::from_code(code) {
        Some(Event::FramePre) => payload.len() < 6 || (payload[4] as usize) < NUM_PORTS,
        Some(Event::FramePost) => {
            let mut rest: &[u8] = payload;
            match read_post(&mut rest) {
                Ok(post) => (post.id.port as usize) < NUM_PORTS && has_room(
                    last_char_states[post.id.port as usize],
                    post.event.state,
                ),
                Err(_) => true,
            }
        },
        _ => true,
    }
}

/// Takes the code and the payload of an event.
pub fn read_framed(r: &mut &[u8], payload_sizes: &HashMap<u8, u16>) -> (res: Result<
    (u8, Vec<u8>),
    Error,
>)
    ensures
        match res {
            Ok((code, payload)) => framed(old(r)@, payload_sizes@) == Ok::<
                (u8, Seq<u8>),
                Failure,
            >((code, payload@)) && final(r)@ == event_rest(old(r)@, payload_sizes@),
            Err(e) => framed(old(r)@, payload_sizes@) == Err::<(u8, Seq<u8>), Failure>(e@) && (
            e is UnknownEvent ==> final(r)@ == old(r)@.skip(1)),
        },
{
    let ghost s = r@;
    let code = read_u8(r)?;
    let size: u16 = match payload_sizes.get(&code) {
        Some(size) => *size,
        None => {
            return Err(Error::UnknownEvent(code));
        },
    };
    let mut buf: Vec<u8> = vec![0; size as usize];
    read_exact(r, buf.as_mut_slice())?;
    assert(buf@ =~= s.subrange(1, 1 + size));
    Ok((code, buf))
}

/// Takes an event, and makes of it what there is to tell a handler. An event that is not read is
/// passed over.
pub fn decode_event(
    r: &mut &[u8],
    payload_sizes: &HashMap<u8, u16>,
    last_char_states: &mut [CharState; NUM_PORTS],
) -> (res: Result<Option<(Event, Call)>, Error>)
    requires
        event_in_range(old(r)@, payload_sizes@, old(last_char_states)@),
    ensures
        match res {
            Ok(told) => {
                &&& event_model(old(r)@, payload_sizes@, old(last_char_states)@) == Ok::<
                    Option<CallView>,
                    Failure,
                >(
                    match told {
                        Some((_, call)) => Some(call@),
                        None => None,
                    },
                )
                &&& told matches Some((event, call)) ==> call@.event() == Some(event)
            },
            Err(e) => event_model(old(r)@, payload_sizes@, old(last_char_states)@) == Err::<
                Option<CallView>,
                Failure,
            >(e@),
        },
        match framed(old(r)@, payload_sizes@) {
            Ok(_) => final(r)@ == event_rest(old(r)@, payload_sizes@),
            Err(Failure::UnknownEvent(_)) => final(r)@ == old(r)@.skip(1),
            Err(_) => true,
        },
        final(last_char_states)@ == event_states(
            old(r)@,
            payload_sizes@,
            old(last_char_states)@,
        ),
{
    proof {
        reveal(payload_model);
        reveal(payload_states);
        reveal(payload_in_range);
    }
    let (code, buf) = read_framed(r, payload_sizes)?;
    let mut payload: &[u8] = buf.as_slice();
    match Event::from_code(code) {
        Some(event) => match event {
            Event::Payloads => Err(Error::UnexpectedEvent(code)),
            Event::GameStart => Ok(Some((event, Call::GameStart(game_start(&mut payload)?)))),
            Event::GameEnd => Ok(Some((event, Call::GameEnd(game_end(&mut payload)?)))),
            Event::FramePre => Ok(
                Some((event, Call::FramePre(frame_pre(&mut payload, last_char_states)?))),
            ),
            Event::FramePost => Ok(
                Some((event, Call::FramePost(frame_post(&mut payload, last_char_states)?))),
            ),
        },
        None => Ok(None),
    }
}

/// What the handler gave back, where a reading that told it of an event came to `res`.
pub open spec fn reply_of<T>(res: Result<T, Error>) -> Result<(), std::io::Error> {
    match res {
        Ok(_) => Ok(()),
        Err(e) => Err(e->Handler_0),
    }
}

/// Takes an event and tells a handler of it. An event that is not read is passed over.
pub fn event<H: Handlers>(
    r: &mut &[u8],
    payload_sizes: &HashMap<u8, u16>,
    last_char_states: &mut [CharState; NUM_PORTS],
    handlers: &mut H,
) -> (res: Result<Option<Event>, Error>)
    requires
        event_in_range(old(r)@, payload_sizes@, old(last_char_states)@),
    ensures
        match event_model(old(r)@, payload_sizes@, old(last_char_states)@) {
            Ok(Some(told)) => {
                &&& told.event() is Some
                &&& match res {
                    Ok(event) => event == told.event(),
                    Err(e) => e is Handler,
                }
                &&& exists|m: &mut H, call: Call|
                    {
                        &&& #[trigger] call_ensures(deliver::<H>, (m, call), reply_of(res))
                        &&& *m == *old(handlers)
                        &&& *final(m) == *final(handlers)
                        &&& call@ == told
                    }
            },
            Ok(None) => res == Ok::<Option<Event>, Error>(None) && *final(handlers) == *old(
                handlers,
            ),
            Err(failure) => res matches Err(e) && e@ == failure && *final(handlers) == *old(
                handlers,
            ),
        },
        match framed(old(r)@, payload_sizes@) {
            Ok(_) => final(r)@ == event_rest(old(r)@, payload_sizes@),
            Err(Failure::UnknownEvent(_)) => final(r)@ == old(r)@.skip(1),
            Err(_) => true,
        },
        final(last_char_states)@ == event_states(
            old(r)@,
            payload_sizes@,
            old(last_char_states)@,
        ),
{
    match decode_event(r, payload_sizes, last_char_states)? {
        Some((event, call)) => {
            match deliver(handlers, call) {
                Ok(unit) => {
                    assert(unit == ());
                    Ok(Some(event))
                },
                Err(e) => Err(Error::Handler(e)),
            }
        },
        None => Ok(None),
    }
}

/// An entry of the table of payload sizes holds unless a later one has the same code.
pub proof fn law_last_size_holds(s: Seq<u8>, n: int, i: int)
    requires
        0 <= i < n,
        forall|j: int| i < j < n ==> #[trigger] entry_code(s, j) != entry_code(s, i),
    ensures
        size_table(s, n).contains_key(entry_code(s, i)),
        size_table(s, n)[entry_code(s, i)] == be_u16(s, 3 * i + 1),
    decreases n,
{
    if i < n - 1 {
        law_last_size_holds(s, n - 1, i);
        assert(entry_code(s, n - 1) != entry_code(s, i));
    }
}

/// An event whose size is known, but which is none of those that are read, is passed over: it
/// tells the handlers nothing, and changes nothing that is known of the fighters.
pub proof fn law_other_events_passed_over(
    s: Seq<u8>,
    sizes: Map<u8, u16>,
    states: Seq<CharState>,
)
    requires
        framed(s, sizes) is Ok,
        Event::of_code(s[0]) is None,
    ensures
        event_in_range(s, sizes, states),
        event_model(s, sizes, states) == Ok::<Option<CallView>, Failure>(None),
        event_states(s, sizes, states) == states,
{
    reveal(payload_model);
    reveal(payload_states);
    reveal(payload_in_range);
}

/// The five codes.
pub proof fn law_codes(code: u8)
    ensures
        Event::of_code(code) == Some(Event::Payloads) <==> code == 0x35,
        Event::of_code(code) == Some(Event::GameStart) <==> code == 0x36,
        Event::of_code(code) == Some(Event::FramePre) <==> code == 0x37,
        Event::of_code(code) == Some(Event::FramePost) <==> code == 0x38,
        Event::of_code(code) == Some(Event::GameEnd) <==> code == 0x39,
        Event::Payloads.spec_code() == 0x35,
        Event::GameStart.spec_code() == 0x36,
        Event::FramePre.spec_code() == 0x37,
        Event::FramePost.spec_code() == 0x38,
        Event::GameEnd.spec_code() == 0x39,
{
}

/// A table of payload sizes is read exactly where it starts with its code, has a size that leaves
/// whole entries, and has all of them. It takes its code and its size.
pub proof fn law_table_lengths(s: Seq<u8>)
    ensures
        ({
            let model = event_payloads_model(s);
            &&& model is Ok <==> s.len() >= 2 && s[0] == 0x35 && s[1] % 3 == 1 && s.len() >= 1
                + s[1]
            &&& model is Ok ==> model->Ok_0.1 == 1 + s[1]
            &&& s.len() >= 1 && s[0] != 0x35 ==> model is Err && model->Err_0
                == Failure::ExpectedPayloads(s[0])
            &&& s.len() >= 2 && s[0] == 0x35 && s[1] % 3 != 1 ==> model is Err && model->Err_0
                == Failure::InvalidPayloadSize(s[1])
            &&& model is Err && !(model->Err_0 is ExpectedPayloads) && !(
            model->Err_0 is InvalidPayloadSize) ==> model->Err_0 is UnexpectedEof
            &&& s.len() == 0 || (s.len() == 1 && s[0] == 0x35) || (s.len() >= 2 && s[0] == 0x35
                && s[1] % 3 == 1 && s.len() < 1 + s[1]) ==> model is Err
                && model->Err_0 is UnexpectedEof
        }),
{
}

/// An entry of the table gives its code the size after it, unless a later entry has that code.
pub proof fn law_table_entries(s: Seq<u8>, i: int)
    requires
        event_payloads_model(s) is Ok,
        0 <= i < s[1] / 3,
        forall|j: int| i < j < s[1] / 3 ==> #[trigger] s[2 + 3 * j] != s[2 + 3 * i],
    ensures
        event_payloads_model(s)->Ok_0.0.contains_key(s[2 + 3 * i]),
        event_payloads_model(s)->Ok_0.0[s[2 + 3 * i]] == be_u16(s, 3 + 3 * i),
{
    let t = s.skip(2);
    assert forall|j: int| i < j < s[1] / 3 implies #[trigger] entry_code(t, j) != entry_code(
        t,
        i,
    ) by {
        assert(s[2 + 3 * j] != s[2 + 3 * i]);
    }
    law_last_size_holds(t, (s[1] / 3) as int, i);
}

proof fn lemma_size_table_codes(s: Seq<u8>, n: int, code: u8)
    requires
        size_table(s, n).contains_key(code),
    ensures
        exists|i: int| 0 <= i < n && #[trigger] s[3 * i] == code,
    decreases n,
{
    if n > 0 {
        if s[3 * (n - 1)] != code {
            lemma_size_table_codes(s, n - 1, code);
            let i = choose|i: int| 0 <= i < n - 1 && #[trigger] s[3 * i] == code;
            assert(s[3 * i] == code);
        }
    }
}

/// No code has a size that the table does not list.
pub proof fn law_table_lists_codes(s: Seq<u8>, code: u8)
    requires
        event_payloads_model(s) is Ok,
        event_payloads_model(s)->Ok_0.0.contains_key(code),
    ensures
        exists|i: int| 0 <= i < s[1] / 3 && #[trigger] s[2 + 3 * i] == code,
{
    let t = s.skip(2);
    lemma_size_table_codes(t, (s[1] / 3) as int, code);
    let i = choose|i: int| 0 <= i < s[1] / 3 && #[trigger] t[3 * i] == code;
    assert(s[2 + 3 * i] == code);
}

/// Bytes are as expected exactly where each of them is. Where there are others, the failure has
/// both.
pub proof fn law_expected_bytes(s: Seq<u8>, expected: Seq<u8>)
    ensures
        ({
            let model = expect_bytes_model(s, expected);
            let same = forall|i: int| 0 <= i < expected.len() ==> s[i] == #[trigger] expected[i];
            &&& model is Ok <==> s.len() >= expected.len() && same
            &&& s.len() < expected.len() ==> model->Err_0 is UnexpectedEof
            &&& s.len() >= expected.len() && !same ==> {
                &&& model->Err_0 is ExpectedBytes
                &&& model->Err_0->ExpectedBytes_expected == expected
                &&& model->Err_0->ExpectedBytes_actual == s.take(expected.len() as int)
            }
        }),
{
    let taken = s.take(expected.len() as int);
    if s.len() >= expected.len() {
        if taken == expected {
            assert forall|i: int| 0 <= i < expected.len() implies s[i] == #[trigger] expected[i] by {
                assert(taken[i] == s[i]);
            }
        } else if forall|i: int| 0 <= i < expected.len() ==> s[i] == #[trigger] expected[i] {
            assert(taken =~= expected);
        }
    }
}

/// An event is its code, a payload of the size that the table gives the code, and then what comes
/// after it. It is refused where the table has no such code, or the payload is cut short.
pub proof fn law_framing(s: Seq<u8>, sizes: Map<u8, u16>)
    ensures
        ({
            let model = framed(s, sizes);
            &&& model is Ok <==> s.len() >= 1 && sizes.contains_key(s[0]) && s.len() >= 1
                + sizes[s[0]]
            &&& model is Ok ==> {
                let (code, payload) = model->Ok_0;
                &&& payload.len() == sizes[code]
                &&& s == seq![code] + payload + event_rest(s, sizes)
            }
            &&& s.len() >= 1 && !sizes.contains_key(s[0]) ==> model is Err && model->Err_0
                == Failure::UnknownEvent(s[0])
            &&& s.len() == 0 || (sizes.contains_key(s[0]) && s.len() < 1 + sizes[s[0]])
                ==> model is Err && model->Err_0 is UnexpectedEof
        }),
{
    if framed(s, sizes) is Ok {
        let (code, payload) = framed(s, sizes)->Ok_0;
        assert(s =~= seq![code] + payload + event_rest(s, sizes));
    }
}

/// An event of one of the four kinds that are read makes one call, whatever its payload holds, and
/// the call has all that the payload holds. It makes none where the payload cannot be read, and the
/// failure is that of the payload.
pub proof fn law_events_told(s: Seq<u8>, sizes: Map<u8, u16>, states: Seq<CharState>)
    requires
        framed(s, sizes) is Ok,
    ensures
        ({
            let payload = framed(s, sizes)->Ok_0.1;
            let model = event_model(s, sizes, states);
            &&& s[0] == 0x36 ==> match game_start_model(payload) {
                Ok(start) => model is Ok && model->Ok_0 == Some(CallView::GameStart(start)),
                Err(failure) => model is Err && model->Err_0 == failure,
            }
            &&& s[0] == 0x37 ==> match frame_pre_model(payload, states) {
                Ok(pre) => model is Ok && model->Ok_0 == Some(CallView::FramePre(pre)),
                Err(failure) => model is Err && model->Err_0 == failure,
            }
            &&& s[0] == 0x38 ==> match frame_post_model(payload) {
                Ok(post) => model is Ok && model->Ok_0 == Some(CallView::FramePost(post)),
                Err(failure) => model is Err && model->Err_0 == failure,
            }
            &&& s[0] == 0x39 ==> match game_end_model(payload) {
                Ok(end) => model is Ok && model->Ok_0 == Some(CallView::GameEnd(end)),
                Err(failure) => model is Err && model->Err_0 == failure,
            }
            &&& s[0] == 0x35 ==> model is Err && model->Err_0 == Failure::UnexpectedEvent(0x35)
            &&& s[0] < 0x35 || s[0] > 0x39 ==> model is Ok && model->Ok_0 is None
        }),
{
    reveal(payload_model);
}

/// An event that is not framed fails as its framing does, and leaves the fighters alone.
pub proof fn law_unframed_events(s: Seq<u8>, sizes: Map<u8, u16>, states: Seq<CharState>)
    requires
        framed(s, sizes) is Err,
    ensures
        event_model(s, sizes, states) is Err,
        event_model(s, sizes, states)->Err_0 == framed(s, sizes)->Err_0,
        event_states(s, sizes, states) == states,
        event_in_range(s, sizes, states),
{
}

/// Only a `Post` event changes what is known of the fighters, and only frame events can be out of
/// range.
pub proof fn law_only_posts_change_fighters(
    s: Seq<u8>,
    sizes: Map<u8, u16>,
    states: Seq<CharState>,
)
    requires
        framed(s, sizes) is Ok,
    ensures
        ({
            let payload = framed(s, sizes)->Ok_0.1;
            &&& s[0] == 0x38 ==> event_states(s, sizes, states) == states_after_post(
                payload,
                states,
            )
            &&& s[0] != 0x38 ==> event_states(s, sizes, states) == states
            &&& s[0] == 0x37 ==> (event_in_range(s, sizes, states) <==> payload.len() < 6
                || payload[4] < 4)
            &&& s[0] == 0x38 ==> (event_in_range(s, sizes, states) <==> post_in_range(
                payload,
                states,
            ))
            &&& s[0] != 0x37 && s[0] != 0x38 ==> event_in_range(s, sizes, states)
        }),
{
    reveal(payload_states);
    reveal(payload_in_range);
}

/// A payload is in range exactly where an event with that code and payload is.
pub proof fn law_payload_ranges(code: u8, payload: Seq<u8>, states: Seq<CharState>)
    ensures
        code == 0x37 ==> (payload_in_range(code, payload, states) <==> payload.len() < 6
            || payload[4] < 4),
        code == 0x38 ==> (payload_in_range(code, payload, states) <==> post_in_range(
            payload,
            states,
        )),
        code != 0x37 && code != 0x38 ==> payload_in_range(code, payload, states),
{
    reveal(payload_in_range);
}

/// The view of a call is of the same kind, and has all that the call has.
pub proof fn law_call_view(call: Call)
    ensures
        match call {
            Call::GameStart(start) => call@ == CallView::GameStart(start@) && call@.event()
                == Some(Event::GameStart),
            Call::GameEnd(end) => call@ == CallView::GameEnd(end) && call@.event() == Some(
                Event::GameEnd,
            ),
            Call::FramePre(pre) => call@ == CallView::FramePre(pre) && call@.event() == Some(
                Event::FramePre,
            ),
            Call::FramePost(post) => call@ == CallView::FramePost(post) && call@.event() == Some(
                Event::FramePost,
            ),
            Call::Metadata(fields) => call@ == CallView::Metadata(fields@) && call@.event() is None,
        },
{
}

/// A reading that told a handler of an event comes to success where the handler did, and to the
/// handler's own failure where it failed.
pub proof fn law_replies<T>(res: Result<T, Error>)
    ensures
        reply_of(res) is Ok <==> res is Ok,
        res is Err && res->Err_0 is Handler ==> Error::Handler(reply_of(res)->Err_0) == res->Err_0,
{
}

} // verus!
