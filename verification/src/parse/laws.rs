//! What holds of every reading of a replay.
use vstd::prelude::*;

use crate::action_state::{Common, State};
use crate::bytes::be_u32;
use crate::character::Internal;
use crate::error::{Error, Failure};
use crate::game::NUM_PORTS;
use crate::parse::char_state::CharState;
use crate::parse::events::{
    event_in_range, event_model, event_payloads_model, event_rest, event_states,
    expect_bytes_model, framed, law_other_events_passed_over, payload_in_range, payload_model, payload_states, size_table,
    Call, CallView, Event,
};
use crate::parse::frame_events::frame_post_model;
use crate::parse::replay::{
    call_wf, closing, events_reading, header, initial_states, metadata_key, metadata_model,
    metadata_stop, parse_metadata_model, preamble_model, reading, result_fits, tail_model,
    tail_reading, tail_stop, Ending, Reading,
};
use crate::ubjson::{
    law_following_bytes_ignored, lemma_length, map_model, map_stop, ObjectView,
};

verus! {

/// The game ends once, and last: the last call is of that, and the earlier ones are of other
/// events.
proof fn lemma_events_end_game(s: Seq<u8>, sizes: Map<u8, u16>, states: Seq<CharState>)
    ensures
        events_reading(s, sizes, states).ending is Done ==> {
            let calls = events_reading(s, sizes, states).calls;
            &&& calls.len() > 0
            &&& calls.last() is GameEnd
            &&& forall|i: int|
                0 <= i < calls.len() - 1 ==> !(#[trigger] calls[i] is GameEnd) && !(
                calls[i] is Metadata)
        },
    decreases s.len(),
{
    reveal(payload_model);
    if event_in_range(s, sizes, states) && event_model(s, sizes, states) is Ok {
        lemma_events_end_game(event_rest(s, sizes), sizes, event_states(s, sizes, states));
    }
}

/// A replay that is read to its end tells the handlers of the end of the game once, and of the
/// metadata once, as the last two things.
pub proof fn law_end_then_metadata(s: Seq<u8>)
    requires
        reading(s).ending is Done,
    ensures
        ({
            let calls = reading(s).calls;
            let n = calls.len() as int;
            &&& n >= 2
            &&& calls[n - 1] is Metadata
            &&& calls[n - 2] is GameEnd
            &&& forall|i: int|
                0 <= i < n - 2 ==> !(#[trigger] calls[i] is GameEnd) && !(calls[i] is Metadata)
        }),
{
    let (sizes, n) = preamble_model(s)->Ok_0;
    lemma_events_end_game(s.skip(n as int), sizes, initial_states());
}

/// The length of the `raw` element does not matter to the reading of the events.
pub proof fn law_raw_length_unused(s: Seq<u8>, t: Seq<u8>)
    requires
        s.len() == t.len(),
        forall|i: int| 0 <= i < s.len() && !(11 <= i < 15) ==> s[i] == t[i],
    ensures
        reading(s) == reading(t),
{
    if s.len() >= 11 {
        assert(s.take(11) =~= t.take(11));
    }
    if s.len() >= 15 {
        assert(s.skip(15) =~= t.skip(15));
        if let Ok((_, n)) = event_payloads_model(s.skip(15)) {
            assert(s.skip(15 + n as int) =~= t.skip(15 + n as int));
        }
    }
}

/// Where the length of the `raw` element is that of the events, the metadata that are found by it
/// are those that the handlers are told of.
pub proof fn law_metadata_by_length(s: Seq<u8>, sizes: Map<u8, u16>, n: nat)
    requires
        preamble_model(s) == Ok::<(Map<u8, u16>, nat), Failure>((sizes, n)),
        s.len() >= 15 + be_u32(s, 11),
        events_reading(s.skip(n as int), sizes, initial_states()).ending == Ending::Done(
            s.skip(15 + be_u32(s, 11)),
        ),
        reading(s).ending is Done,
    ensures
        reading(s).calls.last() matches CallView::Metadata(metadata) && parse_metadata_model(s)
            == Ok::<Map<Seq<char>, ObjectView>, Failure>(metadata),
{
}

proof fn lemma_expect_prefix(s: Seq<u8>, more: Seq<u8>, expected: Seq<u8>)
    ensures
        s.len() >= expected.len() ==> expect_bytes_model(s + more, expected) == expect_bytes_model(
            s,
            expected,
        ),
{
    if s.len() >= expected.len() {
        let n = expected.len() as int;
        assert((s + more).take(n) =~= s.take(n));
    }
}

proof fn lemma_table_prefix(s: Seq<u8>, more: Seq<u8>, n: int)
    requires
        3 * n <= s.len(),
    ensures
        size_table(s + more, n) == size_table(s, n),
    decreases n,
{
    if n > 0 {
        lemma_table_prefix(s, more, n - 1);
    }
}

proof fn lemma_preamble_prefix(s: Seq<u8>, more: Seq<u8>)
    ensures
        preamble_model(s) is Ok ==> preamble_model(s + more) == preamble_model(s)
            && preamble_model(s)->Ok_0.1 <= s.len(),
{
    if preamble_model(s) is Ok {
        lemma_expect_prefix(s, more, header());
        let t = s.skip(15);
        assert((s + more).skip(15) =~= t + more);
        assert((t + more).skip(2) =~= t.skip(2) + more);
        lemma_table_prefix(t.skip(2), more, (t[1] / 3) as int);
    }
}

proof fn lemma_framed_prefix(s: Seq<u8>, more: Seq<u8>, sizes: Map<u8, u16>)
    ensures
        framed(s, sizes) is Ok ==> framed(s + more, sizes) == framed(s, sizes) && event_rest(
            s + more,
            sizes,
        ) == event_rest(s, sizes) + more,
{
    if framed(s, sizes) is Ok {
        let size = sizes[s[0]] as int;
        assert((s + more).subrange(1, 1 + size) =~= s.subrange(1, 1 + size));
        assert((s + more).skip(1 + size) =~= s.skip(1 + size) + more);
    }
}

proof fn lemma_events_prefix(
    s: Seq<u8>,
    more: Seq<u8>,
    sizes: Map<u8, u16>,
    states: Seq<CharState>,
)
    ensures
        events_reading(s, sizes, states).ending matches Ending::Done(rest) ==> rest.len()
            <= s.len() && events_reading(s + more, sizes, states) == (Reading {
            calls: events_reading(s, sizes, states).calls,
            ending: Ending::Done(rest + more),
        }),
    decreases s.len(),
{
    lemma_framed_prefix(s, more, sizes);
    if event_in_range(s, sizes, states) && event_model(s, sizes, states) is Ok {
        lemma_events_prefix(
            event_rest(s, sizes),
            more,
            sizes,
            event_states(s, sizes, states),
        );
    }
}

proof fn lemma_metadata_prefix(s: Seq<u8>, more: Seq<u8>)
    ensures
        metadata_model(s) is Ok ==> metadata_model(s + more) == metadata_model(s)
            && metadata_model(s)->Ok_0.1 <= s.len(),
{
    if metadata_model(s) is Ok {
        lemma_expect_prefix(s, more, metadata_key());
        assert((s + more).skip(11) =~= s.skip(11) + more);
        law_following_bytes_ignored(s.skip(11), more, Map::empty());
        lemma_length(s.skip(11), Map::empty());
    }
}

/// What comes after the end of a replay does not matter to its reading.
pub proof fn law_trailing_bytes_ignored(s: Seq<u8>, more: Seq<u8>)
    ensures
        reading(s).ending matches Ending::Done(rest) ==> rest.len() <= s.len() && reading(s + more)
            == (Reading { calls: reading(s).calls, ending: Ending::Done(rest + more) }),
{
    if reading(s).ending is Done {
        lemma_preamble_prefix(s, more);
        let (sizes, n) = preamble_model(s)->Ok_0;
        assert((s + more).skip(n as int) =~= s.skip(n as int) + more);
        lemma_events_prefix(s.skip(n as int), more, sizes, initial_states());
        let events = events_reading(s.skip(n as int), sizes, initial_states());
        let rest = events.ending->Done_0;
        lemma_metadata_prefix(rest, more);
        let k = metadata_model(rest)->Ok_0.1 as int;
        assert((rest + more).skip(k) =~= rest.skip(k) + more);
        lemma_expect_prefix(rest.skip(k), more, closing());
        assert((rest + more).skip(k + 1) =~= rest.skip(k + 1) + more);
    }
}

/// A replay that is cut short before its end is not read to an end.
pub proof fn law_cut_replay_not_done(s: Seq<u8>, k: int)
    requires
        reading(s).ending is Done,
        0 <= k < s.len() - reading(s).ending->Done_0.len(),
    ensures
        reading(s.take(k)).ending !is Done,
{
    assert(s.take(k) + s.skip(k) =~= s);
    law_trailing_bytes_ignored(s.take(k), s.skip(k));
}

/// `s` is made of whole events, none of which is the end of the game.
pub open spec fn whole_events(s: Seq<u8>, sizes: Map<u8, u16>) -> bool
    decreases s.len(),
{
    s.len() == 0 || (framed(s, sizes) is Ok && s[0] != Event::GameEnd.spec_code() && whole_events(
        event_rest(s, sizes),
        sizes,
    ))
}

proof fn lemma_inserted_event(
    head: Seq<u8>,
    extra: Seq<u8>,
    tail: Seq<u8>,
    sizes: Map<u8, u16>,
    states: Seq<CharState>,
)
    requires
        whole_events(head, sizes),
        framed(extra, sizes) is Ok,
        event_rest(extra, sizes).len() == 0,
        Event::of_code(extra[0]) is None,
    ensures
        events_reading(head + (extra + tail), sizes, states) == events_reading(
            head + tail,
            sizes,
            states,
        ),
    decreases head.len(),
{
    if head.len() == 0 {
        assert(head + (extra + tail) =~= extra + tail);
        assert(head + tail =~= tail);
        lemma_framed_prefix(extra, tail, sizes);
        law_other_events_passed_over(extra + tail, sizes, states);
        assert(event_rest(extra + tail, sizes) =~= tail);
    } else {
        reveal(payload_model);
        lemma_framed_prefix(head, extra + tail, sizes);
        lemma_framed_prefix(head, tail, sizes);
        lemma_inserted_event(
            event_rest(head, sizes),
            extra,
            tail,
            sizes,
            event_states(head, sizes, states),
        );
    }
}

/// An event whose size is known, but which is none of those that are read, may stand anywhere
/// among the events of a replay: the reading is the same without it.
pub proof fn law_inserted_event_ignored(
    preamble: Seq<u8>,
    sizes: Map<u8, u16>,
    head: Seq<u8>,
    extra: Seq<u8>,
    tail: Seq<u8>,
)
    requires
        preamble_model(preamble) == Ok::<(Map<u8, u16>, nat), Failure>((sizes, preamble.len())),
        whole_events(head, sizes),
        framed(extra, sizes) is Ok,
        event_rest(extra, sizes).len() == 0,
        Event::of_code(extra[0]) is None,
    ensures
        reading(preamble + (head + (extra + tail))) == reading(preamble + (head + tail)),
{
    let n = preamble.len() as int;
    lemma_preamble_prefix(preamble, head + (extra + tail));
    lemma_preamble_prefix(preamble, head + tail);
    assert((preamble + (head + (extra + tail))).skip(n) =~= head + (extra + tail));
    assert((preamble + (head + tail)).skip(n) =~= head + tail);
    lemma_inserted_event(head, extra, tail, sizes, initial_states());
}

/// An event with this code and payload names a port that does not exist.
pub open spec fn names_missing_port(code: u8, payload: Seq<u8>) -> bool {
    ||| code == Event::FramePre.spec_code() && payload.len() >= 6 && payload[4] >= NUM_PORTS
    ||| code == Event::FramePost.spec_code() && frame_post_model(payload) is Ok && payload[4]
        >= NUM_PORTS
}

/// A reading of the events in `s` comes to one that names a port that does not exist.
pub open spec fn meets_missing_port(
    s: Seq<u8>,
    sizes: Map<u8, u16>,
    states: Seq<CharState>,
) -> bool
    decreases s.len(),
{
    match framed(s, sizes) {
        Err(_) => false,
        Ok((code, payload)) => {
            ||| names_missing_port(code, payload)
            ||| match event_model(s, sizes, states) {
                Err(_) => false,
                Ok(Some(CallView::GameEnd(_))) => false,
                Ok(_) => meets_missing_port(
                    event_rest(s, sizes),
                    sizes,
                    event_states(s, sizes, states),
                ),
            }
        },
    }
}

/// No age can outgrow its counter in as many events as there are bytes in `s`.
spec fn ages_have_room(s: Seq<u8>, states: Seq<CharState>) -> bool {
    &&& states.len() == NUM_PORTS
    &&& forall|port: int|
        0 <= port < NUM_PORTS ==> (#[trigger] states[port]).age + s.len() <= u32::MAX
}

proof fn lemma_only_ports_out_of_range(s: Seq<u8>, sizes: Map<u8, u16>, states: Seq<CharState>)
    requires
        ages_have_room(s, states),
    ensures
        events_reading(s, sizes, states).ending is OutOfRange <==> meets_missing_port(
            s,
            sizes,
            states,
        ),
    decreases s.len(),
{
    reveal(payload_model);
    reveal(payload_states);
    reveal(payload_in_range);
    if let Ok((code, payload)) = framed(s, sizes) {
        if !names_missing_port(code, payload) {
            assert(event_in_range(s, sizes, states));
            let after = event_states(s, sizes, states);
            let rest = event_rest(s, sizes);
            assert forall|port: int| 0 <= port < NUM_PORTS implies (#[trigger] after[port]).age
                + rest.len() <= u32::MAX by {
                assert(states[port].age + s.len() <= u32::MAX);
            }
            lemma_only_ports_out_of_range(rest, sizes, after);
        }
    }
}

/// In a replay of less than four gigabytes no age outgrows its counter: the one thing that can be
/// out of range is a port.
pub proof fn law_only_ports_out_of_range(s: Seq<u8>)
    requires
        s.len() <= u32::MAX,
    ensures
        reading(s).ending is OutOfRange <==> (preamble_model(s) matches Ok((sizes, n))
            && meets_missing_port(s.skip(n as int), sizes, initial_states())),
{
    if let Ok((sizes, n)) = preamble_model(s) {
        lemma_preamble_prefix(s, Seq::empty());
        lemma_only_ports_out_of_range(s.skip(n as int), sizes, initial_states());
    }
}

/// The fixed bytes of the file format: `{U\x03raw[$U#l`, `U\x08metadata{` and `}`.
pub proof fn law_fixed_bytes()
    ensures
        header() == seq![
            0x7bu8,
            0x55u8,
            3u8,
            0x72u8,
            0x61u8,
            0x77u8,
            0x5bu8,
            0x24u8,
            0x55u8,
            0x23u8,
            0x6cu8,
        ],
        metadata_key() == seq![
            0x55u8,
            8u8,
            0x6du8,
            0x65u8,
            0x74u8,
            0x61u8,
            0x64u8,
            0x61u8,
            0x74u8,
            0x61u8,
            0x7bu8,
        ],
        closing() == seq![0x7du8],
{
}

/// The fighters at all four ports are unknown before the first frame.
pub proof fn law_initial_states()
    ensures
        initial_states().len() == 4,
        forall|port: int|
            0 <= port < 4 ==> #[trigger] initial_states()[port] == (CharState {
                character: Internal(255),
                state: State::Common(Common(14)),
                age: 0,
            }),
{
}

/// A replay starts with the header, four bytes that are not looked at, and the table of payload
/// sizes. What fails first of these is the failure.
pub proof fn law_preambles(s: Seq<u8>)
    ensures
        ({
            let model = preamble_model(s);
            let start = expect_bytes_model(s, header());
            let table = event_payloads_model(s.skip(15));
            &&& model is Ok <==> start is Ok && s.len() >= 15 && table is Ok
            &&& model is Ok ==> model->Ok_0.0 == table->Ok_0.0 && model->Ok_0.1 == 15
                + table->Ok_0.1
            &&& start is Err ==> model->Err_0 == start->Err_0
            &&& start is Ok && s.len() < 15 ==> model->Err_0 is UnexpectedEof
            &&& start is Ok && s.len() >= 15 && table is Err ==> model->Err_0 == table->Err_0
        }),
{
}

/// A reading of events takes one event after the other, and makes of each the call that it is for,
/// in this order. It ends with the game, with the first failure, or at the first event that is out
/// of range.
pub proof fn law_events_in_order(s: Seq<u8>, sizes: Map<u8, u16>, states: Seq<CharState>)
    ensures
        ({
            let now = events_reading(s, sizes, states);
            let told = event_model(s, sizes, states);
            let later = events_reading(
                event_rest(s, sizes),
                sizes,
                event_states(s, sizes, states),
            );
            &&& !event_in_range(s, sizes, states) ==> now.calls.len() == 0
                && now.ending is OutOfRange
            &&& event_in_range(s, sizes, states) && told is Err ==> now.calls.len() == 0
                && now.ending == Ending::Failed(told->Err_0)
            &&& event_in_range(s, sizes, states) && told is Ok ==> match told->Ok_0 {
                Some(call) => if call is GameEnd {
                    now.calls == seq![call] && now.ending == Ending::Done(event_rest(s, sizes))
                } else {
                    now.calls == seq![call] + later.calls && now.ending == later.ending
                },
                None => now == later,
            }
        }),
{
}

/// The reading of a replay is that of its events, from the byte after the table on and with
/// fighters that are unknown, and then of what comes after the end of the game.
pub proof fn law_reading_parts(s: Seq<u8>)
    ensures
        ({
            let events = events_reading(
                s.skip(preamble_model(s)->Ok_0.1 as int),
                preamble_model(s)->Ok_0.0,
                initial_states(),
            );
            &&& preamble_model(s) is Err ==> reading(s).calls.len() == 0 && reading(s).ending
                == Ending::Failed(preamble_model(s)->Err_0)
            &&& preamble_model(s) is Ok && events.ending !is Done ==> reading(s) == events
            &&& preamble_model(s) is Ok && events.ending is Done ==> reading(s) == tail_reading(
                events.calls,
                events.ending->Done_0,
            )
        }),
{
}

/// After the end of the game come the key of the metadata, the metadata, of which the handlers are
/// told, and the last byte. What fails first of these is the failure.
pub proof fn law_tails(told: Seq<CallView>, s: Seq<u8>)
    ensures
        ({
            let key = expect_bytes_model(s, metadata_key());
            let fields = map_model(s.skip(11), Map::empty());
            let n = 11 + fields->Ok_0.1 as int;
            let end = expect_bytes_model(s.skip(n), closing());
            let tail = tail_reading(told, s);
            &&& key is Err ==> metadata_model(s) is Err && metadata_model(s)->Err_0 == key->Err_0
            &&& key is Ok && fields is Err ==> metadata_model(s) is Err && metadata_model(s)->Err_0
                == fields->Err_0
            &&& key is Ok && fields is Ok ==> metadata_model(s) is Ok && metadata_model(s)->Ok_0.0
                == fields->Ok_0.0 && metadata_model(s)->Ok_0.1 == n
            &&& metadata_model(s) is Err ==> tail.calls == told && tail.ending == Ending::Failed(
                metadata_model(s)->Err_0,
            ) && tail_model(s) is Err && tail_model(s)->Err_0 == metadata_model(s)->Err_0
            &&& metadata_model(s) is Ok ==> tail.calls == told.push(
                CallView::Metadata(fields->Ok_0.0),
            )
            &&& metadata_model(s) is Ok && end is Err ==> tail.ending == Ending::Failed(end->Err_0)
                && tail_model(s) is Err && tail_model(s)->Err_0 == end->Err_0
            &&& metadata_model(s) is Ok && end is Ok ==> tail.ending == Ending::Done(s.skip(n + 1))
                && tail_model(s) is Ok && tail_model(s)->Ok_0 == fields->Ok_0.0
        }),
{
}

/// The metadata alone are found after the header, the length of the `raw` element, and as many
/// bytes as that length says.
pub proof fn law_metadata_alone(s: Seq<u8>)
    ensures
        ({
            let model = parse_metadata_model(s);
            let start = expect_bytes_model(s, header());
            let at = 15 + be_u32(s, 11);
            &&& start is Err ==> model is Err && model->Err_0 == start->Err_0
            &&& start is Ok && (s.len() < 15 || s.len() < at) ==> model is Err
                && model->Err_0 is UnexpectedEof
            &&& start is Ok && s.len() >= 15 && s.len() >= at ==> model == tail_model(s.skip(at))
        }),
{
}

/// How much of the end of a replay is taken where it is refused: the eleven bytes of a key that is
/// another, the metadata up to where they are refused, or the byte that is not the last one.
pub proof fn law_tail_stops(s: Seq<u8>)
    ensures
        expect_bytes_model(s, metadata_key()) is Err ==> metadata_stop(s) == 11,
        expect_bytes_model(s, metadata_key()) is Ok ==> metadata_stop(s) == 11 + map_stop(
            s.skip(11),
        ),
        metadata_model(s) is Err ==> tail_stop(s) == metadata_stop(s),
        metadata_model(s) is Ok ==> tail_stop(s) == metadata_model(s)->Ok_0.1 + 1,
{
}

/// A result that fits a reading is the failure of the first handler that failed, and where none
/// did, all calls were made: the result is then success exactly where the reading came to the end,
/// none exactly where it came to an event out of range, and otherwise the failure that it came to.
pub proof fn law_results<H>(
    reading: Reading,
    hs: Seq<H>,
    stopped: Option<std::io::Error>,
    res: Option<Result<(), Error>>,
)
    requires
        result_fits(reading, hs, stopped, res),
    ensures
        hs.len() >= 1,
        stopped is Some ==> hs.len() <= reading.calls.len() && res is Some && res->0 is Err
            && res->0->Err_0 == Error::Handler(stopped->0),
        stopped is None ==> hs.len() == reading.calls.len() + 1,
        stopped is None && reading.ending is Done ==> res is Some && res->0 is Ok,
        stopped is None && reading.ending is OutOfRange ==> res is None,
        stopped is None && reading.ending is Failed ==> res is Some && res->0 is Err
            && res->0->Err_0@ == reading.ending->Failed_0,
{
}

/// The metadata of a call have no key twice.
pub proof fn law_calls_wf(call: Call)
    requires
        call_wf(call),
    ensures
        call is Metadata ==> call->Metadata_0.wf(),
{
}

} // verus!
