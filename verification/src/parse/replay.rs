//! A whole replay: a UBJSON map of a `raw` element, which is the stream of events, and a
//! `metadata` element.
use std::collections::HashMap;
use vstd::prelude::*;
use vstd::slice::slice_subrange;

use crate::bytes::{be_u32, read_u32};
use crate::error::{agrees, Error, Failure};
use crate::game::NUM_PORTS;
use crate::parse::char_state::{initial_char_states, unknown_char_state, CharState};
use crate::parse::events::{
    decode_event, deliver, event, event_in_range, event_model, event_payloads,
    event_payloads_model, event_rest, event_states, expect_bytes, expect_bytes_model,
    payload_is_in_range, read_framed, Call, CallView, Event, Handlers,
};
use crate::ubjson::{map_model, map_stop, parse_map, Fields, ObjectView};

verus! {

/// What a replay starts with, up to the length of the `raw` element: `{U\x03raw[$U#l`.
pub open spec fn header() -> Seq<u8> {
    seq![0x7b, 0x55, 0x03, 0x72, 0x61, 0x77, 0x5b, 0x24, 0x55, 0x23, 0x6c]
}

/// The key of the metadata, and the start of their map: `U\x08metadata{`.
pub open spec fn metadata_key() -> Seq<u8> {
    seq![0x55, 0x08, 0x6d, 0x65, 0x74, 0x61, 0x64, 0x61, 0x74, 0x61, 0x7b]
}

/// The end of the map that a replay is: `}`.
pub open spec fn closing() -> Seq<u8> {
    seq![0x7d]
}

/// The fighters before the first frame.
pub open spec fn initial_states() -> Seq<CharState> {
    Seq::new(NUM_PORTS as nat, |port: int| unknown_char_state())
}

/// How the reading of a replay ends.
pub enum Ending {
    /// At its end. This is left of the input.
    Done(Seq<u8>),
    /// With a failure.
    Failed(Failure),
    /// At an event that names a port that does not exist, or lets an age outgrow its counter.
    OutOfRange,
}

/// The reading of a replay by handlers that do not fail.
pub struct Reading {
    /// What the handlers are told, in this order.
    pub calls: Seq<CallView>,
    pub ending: Ending,
}

/// The reading of events up to the end of the game.
pub open spec fn events_reading(
    s: Seq<u8>,
    sizes: Map<u8, u16>,
    states: Seq<CharState>,
) -> Reading
    decreases s.len(),
{
    if !event_in_range(s, sizes, states) {
        Reading { calls: seq![], ending: Ending::OutOfRange }
    } else {
        match event_model(s, sizes, states) {
            Err(failure) => Reading { calls: seq![], ending: Ending::Failed(failure) },
            Ok(Some(CallView::GameEnd(end))) => Reading {
                calls: seq![CallView::GameEnd(end)],
                ending: Ending::Done(event_rest(s, sizes)),
            },
            Ok(told) => {
                let more = events_reading(
                    event_rest(s, sizes),
                    sizes,
                    event_states(s, sizes, states),
                );
                match told {
                    Some(call) => Reading { calls: seq![call] + more.calls, ..more },
                    None => more,
                }
            },
        }
    }
}

/// The table of payload sizes of a replay, and how many bytes come before the first event.
pub open spec fn preamble_model(s: Seq<u8>) -> Result<(Map<u8, u16>, nat), Failure> {
    match expect_bytes_model(s, header()) {
        Err(failure) => Err(failure),
        Ok(()) => if s.len() < 15 {
            Err(Failure::UnexpectedEof)
        } else {
            match event_payloads_model(s.skip(15)) {
                Err(failure) => Err(failure),
                Ok((sizes, n)) => Ok((sizes, 15 + n)),
            }
        },
    }
}

/// The metadata that `s` starts with, and how many bytes they take.
pub open spec fn metadata_model(s: Seq<u8>) -> Result<
    (Map<Seq<char>, ObjectView>, nat),
    Failure,
> {
    match expect_bytes_model(s, metadata_key()) {
        Err(failure) => Err(failure),
        Ok(()) => match map_model(s.skip(11), Map::empty()) {
            Err(failure) => Err(failure),
            Ok((metadata, n)) => Ok((metadata, 11 + n)),
        },
    }
}

/// How many bytes are taken of `s` where metadata are refused for what they hold.
pub open spec fn metadata_stop(s: Seq<u8>) -> nat {
    match expect_bytes_model(s, metadata_key()) {
        Err(_) => 11,
        Ok(()) => 11 + map_stop(s.skip(11)),
    }
}

/// The reading of what comes after the events `told`: the metadata and the end of the replay.
pub open spec fn tail_reading(told: Seq<CallView>, s: Seq<u8>) -> Reading {
    match metadata_model(s) {
        Err(failure) => Reading { calls: told, ending: Ending::Failed(failure) },
        Ok((metadata, n)) => Reading {
            calls: told.push(CallView::Metadata(metadata)),
            ending: match expect_bytes_model(s.skip(n as int), closing()) {
                Err(failure) => Ending::Failed(failure),
                Ok(()) => Ending::Done(s.skip((n + 1) as int)),
            },
        },
    }
}

/// The reading of the replay `s`.
pub open spec fn reading(s: Seq<u8>) -> Reading {
    match preamble_model(s) {
        Err(failure) => Reading { calls: seq![], ending: Ending::Failed(failure) },
        Ok((sizes, n)) => {
            let events = events_reading(s.skip(n as int), sizes, initial_states());
            match events.ending {
                Ending::Done(rest) => tail_reading(events.calls, rest),
                _ => events,
            }
        },
    }
}

/// Takes the header, and the length of the `raw` element.
pub fn raw_length(r: &mut &[u8]) -> (res: Result<u32, Error>)
    ensures
        match res {
            Ok(length) => old(r)@.len() >= 15 && expect_bytes_model(old(r)@, header()) is Ok
                && length == be_u32(old(r)@, 11) && final(r)@ == old(r)@.skip(15),
            Err(e) => match expect_bytes_model(old(r)@, header()) {
                Err(failure) => e@ == failure && (e is ExpectedBytes ==> final(r)@ == old(r)@.skip(
                    11,
                )),
                Ok(()) => old(r)@.len() < 15 && e == Error::UnexpectedEof,
            },
        },
{
    let header = [0x7bu8, 0x55, 0x03, 0x72, 0x61, 0x77, 0x5b, 0x24, 0x55, 0x23, 0x6c];
    assert(header@ =~= self::header());
    expect_bytes(r, &header)?;
    read_u32(r)
}

/// Takes the key of the metadata, and the metadata.
fn read_metadata(r: &mut &[u8]) -> (res: Result<Fields, Error>)
    ensures
        match res {
            Ok(fields) => metadata_model(old(r)@) matches Ok((metadata, n)) && fields@ == metadata
                && fields.wf() && n <= old(r)@.len() && final(r)@ == old(r)@.skip(n as int),
            Err(e) => metadata_model(old(r)@) matches Err(failure) && e@ == failure && (
            e !is UnexpectedEof ==> metadata_stop(old(r)@) <= old(r)@.len() && final(r)@ == old(
                r,
            )@.skip(metadata_stop(old(r)@) as int)),
        },
{
    let key = [0x55u8, 0x08, 0x6d, 0x65, 0x74, 0x61, 0x64, 0x61, 0x74, 0x61, 0x7b];
    assert(key@ =~= metadata_key());
    expect_bytes(r, &key)?;
    parse_map(r)
}

/// Takes the end of a replay.
fn read_closing(r: &mut &[u8]) -> (res: Result<(), Error>)
    ensures
        agrees(res, expect_bytes_model(old(r)@, closing())),
        old(r)@.len() >= 1 ==> final(r)@ == old(r)@.skip(1),
{
    let brace = [0x7du8];
    assert(brace@ =~= closing());
    expect_bytes(r, &brace)
}

/// Takes what comes before the first event.
fn read_preamble(r: &mut &[u8]) -> (res: Result<HashMap<u8, u16>, Error>)
    ensures
        match res {
            Ok(sizes) => preamble_model(old(r)@) matches Ok((model, n)) && sizes@ == model && n
                <= old(r)@.len() && final(r)@ == old(r)@.skip(n as int),
            Err(e) => preamble_model(old(r)@) matches Err(failure) && e@ == failure,
        },
{
    raw_length(r)?;  // the length is not needed
    event_payloads(r)
}

/// A call that a reading makes has metadata in which no key occurs twice, at any depth.
pub open spec fn call_wf(call: Call) -> bool {
    call matches Call::Metadata(fields) ==> fields.wf()
}

/// `res` is right for handlers that went through `hs`, one call from each to the next, each with
/// success: either the next call failed with `stopped`, which `res` is then, or all calls were
/// made, and `res` is how the reading ends, which is `None` at an event out of range.
pub open spec fn result_fits<H>(
    reading: Reading,
    hs: Seq<H>,
    stopped: Option<std::io::Error>,
    res: Option<Result<(), Error>>,
) -> bool {
    match stopped {
        Some(e) => 1 <= hs.len() <= reading.calls.len() && res == Some(
            Err::<(), Error>(Error::Handler(e)),
        ),
        None => hs.len() == reading.calls.len() + 1 && match reading.ending {
            Ending::Done(_) => res == Some(Ok::<(), Error>(())),
            Ending::Failed(failure) => res matches Some(Err(e)) && e@ == failure,
            Ending::OutOfRange => res is None,
        },
    }
}

/// Whether the event that `r` starts with is in range.
fn next_in_range(
    r: &[u8],
    payload_sizes: &HashMap<u8, u16>,
    last_char_states: &[CharState; NUM_PORTS],
) -> (res: bool)
    ensures
        res == event_in_range(r@, payload_sizes@, last_char_states@),
{
    let mut rest: &[u8] = r;
    match read_framed(&mut rest, payload_sizes) {
        Ok((code, payload)) => payload_is_in_range(code, payload.as_slice(), last_char_states),
        Err(_) => true,
    }
}

/// Reads a replay, and tells the handlers of its events and of its metadata, in their order. The
/// first failure, of the replay or of a handler, ends the reading. So does an event that names a
/// port that does not exist, or lets an age outgrow its counter: the result is then `None`.
pub fn parse_checked<H: Handlers>(r: &[u8], handlers: &mut H) -> (res: Option<Result<(), Error>>)
    ensures
        exists|hs: Seq<H>, stopped: Option<std::io::Error>|
            {
                &&& #[trigger] result_fits(reading(r@), hs, stopped, res)
                &&& hs[0] == *old(handlers)
                &&& forall|i: int|
                    0 <= i < hs.len() - 1 ==> exists|m: &mut H, call: Call|
                        {
                            &&& #[trigger] call_ensures(deliver::<H>, (m, call), Ok(()))
                            &&& *m == #[trigger] hs[i]
                            &&& *final(m) == hs[i + 1]
                            &&& call@ == reading(r@).calls[i]
                            &&& call_wf(call)
                        }
                &&& match stopped {
                    None => *final(handlers) == hs.last(),
                    Some(e) => exists|m: &mut H, call: Call|
                        {
                            &&& #[trigger] call_ensures(deliver::<H>, (m, call), Err(e))
                            &&& *m == hs.last()
                            &&& *final(m) == *final(handlers)
                            &&& call@ == reading(r@).calls[hs.len() - 1]
                            &&& call_wf(call)
                        },
                }
            },
{
    let mut rest: &[u8] = r;
    let ghost mut hs: Seq<H> = seq![*handlers];
    let payload_sizes = match read_preamble(&mut rest) {
        Ok(payload_sizes) => payload_sizes,
        Err(e) => {
            assert(result_fits(reading(r@), hs, None, Some(Err(e))));
            return Some(Err(e));
        },
    };
    let mut last_char_states = initial_char_states();
    assert(last_char_states@ =~= initial_states());

    let ghost events = events_reading(rest@, payload_sizes@, last_char_states@);
    let ghost mut done: Seq<CallView> = seq![];
    let mut ended = false;
    assert(done + events.calls =~= events.calls);
    while !ended
        invariant
            hs.len() == done.len() + 1,
            hs[0] == *old(handlers),
            hs.last() == *handlers,
            forall|i: int|
                0 <= i < hs.len() - 1 ==> exists|m: &mut H, call: Call|
                    {
                        &&& #[trigger] call_ensures(deliver::<H>, (m, call), Ok(()))
                        &&& *m == #[trigger] hs[i]
                        &&& *final(m) == hs[i + 1]
                        &&& call@ == done[i]
                        &&& call_wf(call)
                    },
            reading(r@) == match events.ending {
                Ending::Done(rest) => tail_reading(events.calls, rest),
                _ => events,
            },
            if ended {
                events.calls == done && events.ending == Ending::Done(rest@)
            } else {
                let more = events_reading(rest@, payload_sizes@, last_char_states@);
                events.calls == done + more.calls && events.ending == more.ending
            },
        decreases rest@.len(),
    {
        let ghost before = rest@;
        let ghost states = last_char_states@;
        let ghost told = event_model(before, payload_sizes@, states);
        let ghost past = hs;
        let ghost more = events_reading(before, payload_sizes@, states);
        if !next_in_range(rest, &payload_sizes, &last_char_states) {
            assert(done + more.calls =~= done);
            assert(result_fits(reading(r@), hs, None, None));
            return None;
        }
        match event(&mut rest, &payload_sizes, &mut last_char_states, handlers) {
            Ok(event) => {
                proof {
                    if let Ok(Some(told)) = told {
                        let after = events_reading(
                            event_rest(before, payload_sizes@),
                            payload_sizes@,
                            event_states(before, payload_sizes@, states),
                        );
                        assert(done + seq![told] =~= done.push(told));
                        assert(done + (seq![told] + after.calls) =~= done.push(told) + after.calls);
                        hs = past.push(*handlers);
                        assert forall|i: int| 0 <= i < hs.len() - 1 implies exists|
                            m: &mut H,
                            call: Call,
                        |
                            {
                                &&& #[trigger] call_ensures(deliver::<H>, (m, call), Ok(()))
                                &&& *m == #[trigger] hs[i]
                                &&& *final(m) == hs[i + 1]
                                &&& call@ == done.push(told)[i]
                                &&& call_wf(call)
                            } by {
                            if i < past.len() - 1 {
                                assert(past[i] == hs[i] && past[i + 1] == hs[i + 1]);
                                assert(done.push(told)[i] == done[i]);
                            }
                        }
                        done = done.push(told);
                    }
                }
                ended = match event {
                    Some(Event::GameEnd) => true,
                    _ => false,
                };
            },
            Err(e) => {
                proof {
                    if told is Err {
                        assert(done + more.calls =~= done);
                        assert(result_fits(reading(r@), hs, None, Some(Err(e))));
                    } else {
                        assert(result_fits(reading(r@), hs, Some(e->Handler_0), Some(Err(e))));
                    }
                }
                return Some(Err(e));
            },
        }
    }
    let ghost past = hs;
    let metadata = match read_metadata(&mut rest) {
        Ok(metadata) => metadata,
        Err(e) => {
            assert(result_fits(reading(r@), hs, None, Some(Err(e))));
            return Some(Err(e));
        },
    };
    match deliver(handlers, Call::Metadata(metadata)) {
        Ok(unit) => {
            assert(unit == ());
        },
        Err(e) => {
            assert(result_fits(reading(r@), hs, Some(e), Some(Err(Error::Handler(e)))));
            return Some(Err(Error::Handler(e)));
        },
    }
    proof {
        hs = past.push(*handlers);
        assert forall|i: int| 0 <= i < hs.len() - 1 implies exists|m: &mut H, call: Call|
            {
                &&& #[trigger] call_ensures(deliver::<H>, (m, call), Ok(()))
                &&& *m == #[trigger] hs[i]
                &&& *final(m) == hs[i + 1]
                &&& call@ == reading(r@).calls[i]
                &&& call_wf(call)
            } by {
            if i < past.len() - 1 {
                assert(past[i] == hs[i] && past[i + 1] == hs[i + 1]);
            }
        }
    }
    let res = read_closing(&mut rest);
    assert(result_fits(reading(r@), hs, None, Some(res)));
    Some(res)
}

/// Reads a replay, and tells the handlers of its events and of its metadata, in their order. The
/// first failure, of the replay or of a handler, ends the reading.
pub fn parse<H: Handlers>(r: &[u8], handlers: &mut H) -> (res: Result<(), Error>)
    requires
        reading(r@).ending !is OutOfRange,
    ensures
        exists|hs: Seq<H>, stopped: Option<std::io::Error>|
            {
                &&& #[trigger] result_fits(reading(r@), hs, stopped, Some(res))
                &&& hs[0] == *old(handlers)
                &&& forall|i: int|
                    0 <= i < hs.len() - 1 ==> exists|m: &mut H, call: Call|
                        {
                            &&& #[trigger] call_ensures(deliver::<H>, (m, call), Ok(()))
                            &&& *m == #[trigger] hs[i]
                            &&& *final(m) == hs[i + 1]
                            &&& call@ == reading(r@).calls[i]
                            &&& call_wf(call)
                        }
                &&& match stopped {
                    None => *final(handlers) == hs.last(),
                    Some(e) => exists|m: &mut H, call: Call|
                        {
                            &&& #[trigger] call_ensures(deliver::<H>, (m, call), Err(e))
                            &&& *m == hs.last()
                            &&& *final(m) == *final(handlers)
                            &&& call@ == reading(r@).calls[hs.len() - 1]
                            &&& call_wf(call)
                        },
                }
            },
{
    parse_checked(r, handlers).unwrap()
}

/// The metadata that `s` starts with, where the end of the replay comes after them.
pub open spec fn tail_model(s: Seq<u8>) -> Result<Map<Seq<char>, ObjectView>, Failure> {
    match metadata_model(s) {
        Err(failure) => Err(failure),
        Ok((metadata, n)) => match expect_bytes_model(s.skip(n as int), closing()) {
            Err(failure) => Err(failure),
            Ok(()) => Ok(metadata),
        },
    }
}

/// How many bytes are taken of `s` where what comes after the events is refused for what it holds.
pub open spec fn tail_stop(s: Seq<u8>) -> nat {
    match metadata_model(s) {
        Err(_) => metadata_stop(s),
        Ok((_, n)) => n + 1,
    }
}

/// Reads what comes after the events: the metadata and the end of the replay.
pub fn parse_tail(r: &mut &[u8]) -> (res: Result<Fields, Error>)
    ensures
        match res {
            Ok(fields) => tail_model(old(r)@) == Ok::<Map<Seq<char>, ObjectView>, Failure>(fields@)
                && fields.wf() && final(r)@ == old(r)@.skip(
                1 + metadata_model(old(r)@)->Ok_0.1 as int,
            ),
            Err(e) => tail_model(old(r)@) == Err::<Map<Seq<char>, ObjectView>, Failure>(e@) && (
            e !is UnexpectedEof ==> final(r)@ == old(r)@.skip(tail_stop(old(r)@) as int)),
        },
{
    let metadata = read_metadata(r)?;
    read_closing(r)?;
    Ok(metadata)
}

/// The metadata of the replay `s`, found by the length of its `raw` element.
pub open spec fn parse_metadata_model(s: Seq<u8>) -> Result<Map<Seq<char>, ObjectView>, Failure> {
    match expect_bytes_model(s, header()) {
        Err(failure) => Err(failure),
        Ok(()) => if s.len() < 15 || s.len() < 15 + be_u32(s, 11) {
            Err(Failure::UnexpectedEof)
        } else {
            tail_model(s.skip(15 + be_u32(s, 11)))
        },
    }
}

/// Reads the metadata and passes over the events.
pub fn parse_metadata<H: Handlers>(r: &[u8]) -> (res: Result<Fields, Error>)
    ensures
        match res {
            Ok(fields) => parse_metadata_model(r@) == Ok::<Map<Seq<char>, ObjectView>, Failure>(
                fields@,
            ) && fields.wf(),
            Err(e) => parse_metadata_model(r@) == Err::<Map<Seq<char>, ObjectView>, Failure>(e@),
        },
{
    let mut rest: &[u8] = r;
    let length = raw_length(&mut rest)? as usize;
    if rest.len() < length {
        return Err(Error::UnexpectedEof);
    }
    let mut tail: &[u8] = slice_subrange(rest, length, rest.len());
    assert(tail@ =~= r@.skip(15 + be_u32(r@, 11)));
    parse_tail(&mut tail)
}

/// Whether no event that a reading of the replay comes to names a port that does not exist, or
/// lets an age outgrow its counter.
pub fn frames_in_range(r: &[u8]) -> (res: bool)
    ensures
        res == (reading(r@).ending !is OutOfRange),
{
    let mut rest: &[u8] = r;
    let payload_sizes = match read_preamble(&mut rest) {
        Ok(payload_sizes) => payload_sizes,
        Err(_) => {
            return true;
        },
    };
    let mut last_char_states = initial_char_states();
    assert(last_char_states@ =~= initial_states());
    let ghost events = events_reading(rest@, payload_sizes@, last_char_states@);
    loop
        invariant
            reading(r@).ending is OutOfRange <==> events.ending is OutOfRange,
            events.ending is OutOfRange <==> events_reading(
                rest@,
                payload_sizes@,
                last_char_states@,
            ).ending is OutOfRange,
        decreases rest@.len(),
    {
        if !next_in_range(rest, &payload_sizes, &last_char_states) {
            return false;
        }
        match decode_event(&mut rest, &payload_sizes, &mut last_char_states) {
            Ok(Some((Event::GameEnd, _))) => {
                return true;
            },
            Ok(_) => {},
            Err(_) => {
                return true;
            },
        }
    }
}

} // verus!
