//! The part of UBJSON that the metadata of a replay is written in: maps whose keys are short
//! strings and whose values are short strings, 32-bit integers and maps.
use vstd::prelude::*;
use vstd::utf8::{decode_utf8, valid_utf8};

use crate::bytes::{be_i32, read_exact, read_i32, read_u8};
use crate::error::{Error, Failure};

verus! {

/// The marker of a length in one byte, which a key starts with too.
pub const LENGTH: u8 = 0x55;

/// The marker of a string.
pub const STRING: u8 = 0x53;

/// The marker of a 32-bit integer.
pub const INT32: u8 = 0x6c;

/// The marker of a map's start.
pub const MAP_START: u8 = 0x7b;

/// The marker of a map's end.
pub const MAP_END: u8 = 0x7d;

/// A value.
#[derive(Debug)]
pub enum Object {
    Int(i64),
    Str(String),
    Fields(Fields),
}

/// The contents of a map. No key occurs twice.
#[derive(Debug)]
pub struct Fields {
    pub entries: Vec<(String, Object)>,
}

/// An [`Object`] with its text as sequences and its fields as maps.
pub enum ObjectView {
    Int(i64),
    Str(Seq<char>),
    Fields(Map<Seq<char>, ObjectView>),
}

impl View for Object {
    type V = ObjectView;

    open spec fn view(&self) -> ObjectView
        decreases self,
    {
        match *self {
            Object::Int(value) => ObjectView::Int(value),
            Object::Str(text) => ObjectView::Str(text@),
            Object::Fields(fields) => ObjectView::Fields(entries_view(fields.entries@)),
        }
    }
}

/// The map that `entries` make up.
pub open spec fn entries_view(entries: Seq<(String, Object)>) -> Map<Seq<char>, ObjectView>
    decreases entries,
{
    if entries.len() == 0 {
        Map::empty()
    } else {
        entries_view(entries.drop_last()).insert(entries.last().0@, entries.last().1@)
    }
}

impl View for Fields {
    type V = Map<Seq<char>, ObjectView>;

    open spec fn view(&self) -> Map<Seq<char>, ObjectView> {
        entries_view(self.entries@)
    }
}

/// No key occurs twice.
pub open spec fn keys_distinct(entries: Seq<(String, Object)>) -> bool {
    forall|i: int, j: int|
        0 <= i < j < entries.len() ==> (#[trigger] entries[i]).0@ != (#[trigger] entries[j]).0@
}

/// No key occurs twice, here or in a map further in.
pub open spec fn entries_wf(entries: Seq<(String, Object)>) -> bool
    decreases entries,
{
    &&& keys_distinct(entries)
    &&& forall|i: int| 0 <= i < entries.len() ==> (#[trigger] entries[i]).1.wf()
}

impl Object {
    /// No key occurs twice in any map of the value.
    pub open spec fn wf(&self) -> bool
        decreases self,
    {
        match *self {
            Object::Fields(fields) => entries_wf(fields.entries@),
            _ => true,
        }
    }
}

impl Fields {
    /// No key occurs twice, here or in a map further in.
    pub open spec fn wf(&self) -> bool {
        entries_wf(self.entries@)
    }

    pub fn new() -> (fields: Fields)
        ensures
            fields.wf(),
            fields@ == Map::<Seq<char>, ObjectView>::empty(),
    {
        Fields { entries: Vec::new() }
    }

    /// Gives `key` the value `value`, in the place of the one that it may have.
    pub fn insert(&mut self, key: String, value: Object)
        requires
            old(self).wf(),
            value.wf(),
        ensures
            final(self).wf(),
            final(self)@ == old(self)@.insert(key@, value@),
    {
        let mut i: usize = 0;
        while i < self.entries.len()
            invariant
                i <= self.entries@.len(),
                *self == *old(self),
                old(self).wf(),
                value.wf(),
                forall|j: int| 0 <= j < i ==> (#[trigger] self.entries@[j]).0@ != key@,
            decreases self.entries@.len() - i,
        {
            if self.entries[i].0 == key {
                proof {
                    lemma_update_view(self.entries@, i as int, (key, value));
                }
                self.entries.set(i, (key, value));
                return ;
            }
            i += 1;
        }
        let ghost before = self.entries@;
        self.entries.push((key, value));
        assert(self.entries@.drop_last() =~= before);
    }

    /// The value of `key`, where it has one.
    pub fn get(&self, key: &String) -> (res: Option<&Object>)
        requires
            self.wf(),
        ensures
            match res {
                Some(value) => self@.contains_key(key@) && self@[key@] == value@ && value.wf(),
                None => !self@.contains_key(key@),
            },
    {
        let mut i: usize = 0;
        while i < self.entries.len()
            invariant
                i <= self.entries@.len(),
                self.wf(),
                forall|j: int| 0 <= j < i ==> (#[trigger] self.entries@[j]).0@ != key@,
            decreases self.entries@.len() - i,
        {
            if self.entries[i].0 == *key {
                proof {
                    lemma_entry_view(self.entries@, i as int);
                }
                return Some(&self.entries[i].1);
            }
            i += 1;
        }
        proof {
            lemma_absent_view(self.entries@, key@);
        }
        None
    }
}

/// To give an entry a new value is to give its key that value.
proof fn lemma_update_view(entries: Seq<(String, Object)>, i: int, entry: (String, Object))
    requires
        keys_distinct(entries),
        0 <= i < entries.len(),
        entries[i].0@ == entry.0@,
    ensures
        entries_view(entries.update(i, entry)) == entries_view(entries).insert(
            entry.0@,
            entry.1@,
        ),
    decreases entries.len(),
{
    reveal_with_fuel(entries_view, 2);
    let updated = entries.update(i, entry);
    let front = entries.drop_last();
    if i == entries.len() - 1 {
        assert(updated.drop_last() =~= front);
        assert(entries_view(updated) =~= entries_view(entries).insert(entry.0@, entry.1@));
    } else {
        assert(updated.drop_last() =~= front.update(i, entry));
        lemma_update_view(front, i, entry);
        assert(entries.last().0@ != entries[i].0@);
        assert(entries_view(updated) =~= entries_view(entries).insert(entry.0@, entry.1@));
    }
}

/// Each entry is in the map.
proof fn lemma_entry_view(entries: Seq<(String, Object)>, i: int)
    requires
        keys_distinct(entries),
        0 <= i < entries.len(),
    ensures
        entries_view(entries).contains_key(entries[i].0@),
        entries_view(entries)[entries[i].0@] == entries[i].1@,
    decreases entries.len(),
{
    reveal_with_fuel(entries_view, 2);
    if i < entries.len() - 1 {
        lemma_entry_view(entries.drop_last(), i);
        assert(entries.last().0@ != entries[i].0@);
    }
}

/// A key of no entry is not in the map.
proof fn lemma_absent_view(entries: Seq<(String, Object)>, key: Seq<char>)
    requires
        forall|i: int| 0 <= i < entries.len() ==> (#[trigger] entries[i]).0@ != key,
    ensures
        !entries_view(entries).contains_key(key),
    decreases entries.len(),
{
    reveal_with_fuel(entries_view, 2);
    if entries.len() > 0 {
        lemma_absent_view(entries.drop_last(), key);
    }
}

/// The text that `s` starts with, a byte for its length before it, and how many bytes it takes.
pub open spec fn text_model(s: Seq<u8>) -> Result<(Seq<char>, nat), Failure> {
    if s.len() < 1 || s.len() < 1 + s[0] {
        Err(Failure::UnexpectedEof)
    } else if !valid_utf8(s.subrange(1, 1 + s[0])) {
        Err(Failure::InvalidUtf8)
    } else {
        Ok((decode_utf8(s.subrange(1, 1 + s[0])), 1 + s[0] as nat))
    }
}

/// The value that `s` starts with, and how many bytes it takes.
pub open spec fn value_model(s: Seq<u8>) -> Result<(ObjectView, nat), Failure>
    decreases s.len(), 0int,
{
    if s.len() < 1 {
        Err(Failure::UnexpectedEof)
    } else if s[0] == STRING {
        if s.len() < 2 {
            Err(Failure::UnexpectedEof)
        } else if s[1] != LENGTH {
            Err(Failure::UnexpectedToken(s[1]))
        } else {
            match text_model(s.skip(2)) {
                Ok((text, n)) => Ok((ObjectView::Str(text), 2 + n)),
                Err(failure) => Err(failure),
            }
        }
    } else if s[0] == INT32 {
        if s.len() < 5 {
            Err(Failure::UnexpectedEof)
        } else {
            Ok((ObjectView::Int(be_i32(s, 1) as i64), 5))
        }
    } else if s[0] == MAP_START {
        match map_model(s.skip(1), Map::empty()) {
            Ok((fields, n)) => Ok((ObjectView::Fields(fields), 1 + n)),
            Err(failure) => Err(failure),
        }
    } else {
        Err(Failure::UnexpectedToken(s[0]))
    }
}

/// The next key and value of a map whose fields `s` starts with, or none where the map ends, and how
/// many bytes they take.
pub open spec fn entry_model(s: Seq<u8>) -> Result<
    (Option<(Seq<char>, ObjectView)>, nat),
    Failure,
>
    decreases s.len(), 0int,
{
    if s.len() < 1 {
        Err(Failure::UnexpectedEof)
    } else if s[0] == MAP_END {
        Ok((None, 1))
    } else if s[0] != LENGTH {
        Err(Failure::UnexpectedToken(s[0]))
    } else {
        match text_model(s.skip(1)) {
            Ok((key, k)) => match value_model(s.skip(1 + k as int)) {
                Ok((value, v)) => Ok((Some((key, value)), 1 + k + v)),
                Err(failure) => Err(failure),
            },
            Err(failure) => Err(failure),
        }
    }
}

/// The fields that `s` starts with, up to the end of their map, on top of those in `fields`, and
/// how many bytes they take. A key that comes again has the later value.
pub open spec fn map_model(s: Seq<u8>, fields: Map<Seq<char>, ObjectView>) -> Result<
    (Map<Seq<char>, ObjectView>, nat),
    Failure,
>
    decreases s.len(), 1int,
{
    match entry_model(s) {
        Ok((Some((key, value)), e)) => if !(0 < e <= s.len()) {
            // every entry takes bytes, and none more than it is read from
            Err(Failure::UnexpectedEof)
        } else {
            match map_model(s.skip(e as int), fields.insert(key, value)) {
                Ok((all, n)) => Ok((all, e + n)),
                Err(failure) => Err(failure),
            }
        },
        Ok((None, e)) => Ok((fields, e)),
        Err(failure) => Err(failure),
    }
}

/// How many bytes are taken of `s` where a text is not valid UTF-8.
pub open spec fn text_stop(s: Seq<u8>) -> nat {
    1 + s[0] as nat
}

/// How many bytes are taken of `s` where a value is refused for what they hold.
pub open spec fn value_stop(s: Seq<u8>) -> nat
    decreases s.len(), 0int,
{
    if s.len() < 1 {
        0
    } else if s[0] == STRING {
        if s[1] != LENGTH {
            2
        } else {
            2 + text_stop(s.skip(2))
        }
    } else if s[0] == MAP_START {
        1 + map_stop(s.skip(1))
    } else {
        1
    }
}

/// How many bytes are taken of `s` where the next key and value of a map are refused for what they
/// hold.
pub open spec fn entry_stop(s: Seq<u8>) -> nat
    decreases s.len(), 0int,
{
    if s.len() < 1 || s[0] != LENGTH {
        1
    } else {
        match text_model(s.skip(1)) {
            Ok((_, k)) => 1 + k + value_stop(s.skip(1 + k as int)),
            Err(_) => 1 + text_stop(s.skip(1)),
        }
    }
}

/// How many bytes are taken of `s` where the fields of a map are refused for what they hold.
pub open spec fn map_stop(s: Seq<u8>) -> nat
    decreases s.len(), 1int,
{
    match entry_model(s) {
        Ok((_, e)) => if !(0 < e <= s.len()) {
            // every entry takes bytes, and none more than it is read from
            0
        } else {
            e + map_stop(s.skip(e as int))
        },
        Err(_) => entry_stop(s),
    }
}

/// A value, an entry, and the fields of a map, are no longer than what they are read from.
pub proof fn lemma_length(s: Seq<u8>, fields: Map<Seq<char>, ObjectView>)
    ensures
        value_model(s) matches Ok((_, n)) ==> 0 < n <= s.len(),
        entry_model(s) matches Ok((_, n)) ==> 0 < n <= s.len(),
        map_model(s, fields) matches Ok((_, n)) ==> 0 < n <= s.len(),
    decreases s.len(),
{
    if s.len() >= 1 {
        lemma_length(s.skip(1), Map::empty());
        if let Ok((_, k)) = text_model(s.skip(1)) {
            lemma_length(s.skip(1 + k as int), Map::empty());
        }
        if let Ok((Some((key, value)), e)) = entry_model(s) {
            lemma_length(s.skip(e as int), fields.insert(key, value));
        }
    }
}

/// Takes a text with a byte for its length before it.
fn parse_text(r: &mut &[u8]) -> (res: Result<String, Error>)
    ensures
        match res {
            Ok(text) => text_model(old(r)@) matches Ok((model, n)) && text@ == model && n <= old(
                r,
            )@.len() && final(r)@ == old(r)@.skip(n as int),
            Err(e) => text_model(old(r)@) matches Err(failure) && e@ == failure && (
            e !is UnexpectedEof ==> text_stop(old(r)@) <= old(r)@.len() && final(r)@ == old(r)@.skip(
                text_stop(old(r)@) as int,
            )),
        },
{
    let ghost s = r@;
    let len = read_u8(r)?;
    let mut buf: Vec<u8> = vec![0; len as usize];
    read_exact(r, buf.as_mut_slice())?;
    assert(buf@ =~= s.subrange(1, 1 + s[0]));
    match String::from_utf8(buf) {
        Ok(text) => Ok(text),
        Err(_) => Err(Error::InvalidUtf8),
    }
}

/// Takes a value.
pub fn parse_value(r: &mut &[u8]) -> (res: Result<Object, Error>)
    ensures
        match res {
            Ok(value) => value_model(old(r)@) matches Ok((model, n)) && value@ == model
                && value.wf() && n <= old(r)@.len() && final(r)@ == old(r)@.skip(n as int),
            Err(e) => value_model(old(r)@) matches Err(failure) && e@ == failure && (
            e !is UnexpectedEof ==> value_stop(old(r)@) <= old(r)@.len() && final(r)@ == old(r)@.skip(
                value_stop(old(r)@) as int,
            )),
        },
    decreases old(r)@.len(), 0int,
{
    broadcast use vstd::seq_lib::lemma_seq_skip_of_skip;

    let token = read_u8(r)?;
    if token == STRING {
        let length = read_u8(r)?;
        if length != LENGTH {
            return Err(Error::UnexpectedToken(length));
        }
        Ok(Object::Str(parse_text(r)?))
    } else if token == INT32 {
        Ok(Object::Int(read_i32(r)? as i64))
    } else if token == MAP_START {
        Ok(Object::Fields(parse_map(r)?))
    } else {
        Err(Error::UnexpectedToken(token))
    }
}

/// Takes the next key and value of a map, or its end.
fn parse_entry(r: &mut &[u8]) -> (res: Result<Option<(String, Object)>, Error>)
    ensures
        match res {
            Ok(entry) => entry_model(old(r)@) matches Ok((model, n)) && n <= old(r)@.len()
                && final(r)@ == old(r)@.skip(n as int) && match entry {
                Some((key, value)) => model == Some((key@, value@)) && value.wf(),
                None => model is None,
            },
            Err(e) => entry_model(old(r)@) matches Err(failure) && e@ == failure && (
            e !is UnexpectedEof ==> entry_stop(old(r)@) <= old(r)@.len() && final(r)@ == old(r)@.skip(
                entry_stop(old(r)@) as int,
            )),
        },
    decreases old(r)@.len(), 0int,
{
    broadcast use vstd::seq_lib::lemma_seq_skip_of_skip;

    let token = read_u8(r)?;
    if token == MAP_END {
        return Ok(None);
    }
    if token != LENGTH {
        return Err(Error::UnexpectedToken(token));
    }
    let key = parse_text(r)?;
    let value = parse_value(r)?;
    Ok(Some((key, value)))
}

/// Takes the fields of a map, up to and with its end. Its start is taken already.
pub fn parse_map(r: &mut &[u8]) -> (res: Result<Fields, Error>)
    ensures
        match res {
            Ok(fields) => map_model(old(r)@, Map::empty()) matches Ok((model, n)) && fields@
                == model && fields.wf() && n <= old(r)@.len() && final(r)@ == old(r)@.skip(
                n as int,
            ),
            Err(e) => map_model(old(r)@, Map::empty()) matches Err(failure) && e@ == failure && (
            e !is UnexpectedEof ==> map_stop(old(r)@) <= old(r)@.len() && final(r)@ == old(r)@.skip(
                map_stop(old(r)@) as int,
            )),
        },
    decreases old(r)@.len(), 1int,
{
    let ghost s = r@;
    let mut fields = Fields::new();
    let ghost mut taken: nat = 0;
    loop
        invariant
            s == old(r)@,
            fields.wf(),
            taken <= s.len(),
            r@ == s.skip(taken as int),
            match map_model(r@, fields@) {
                Ok((model, n)) => map_model(s, Map::empty()) == Ok::<
                    (Map<Seq<char>, ObjectView>, nat),
                    Failure,
                >((model, taken + n)),
                Err(failure) => map_model(s, Map::empty()) == Err::<
                    (Map<Seq<char>, ObjectView>, nat),
                    Failure,
                >(failure),
            },
            map_model(s, Map::empty()) is Err ==> map_stop(s) == taken + map_stop(r@),
        decreases r@.len(),
    {
        let ghost before = r@;
        proof {
            lemma_length(before, fields@);
        }
        match parse_entry(r) {
            Ok(Some((key, value))) => {
                fields.insert(key, value);
                proof {
                    taken = taken + entry_model(before)->Ok_0.1;
                    assert(r@ =~= s.skip(taken as int));
                }
            },
            Ok(None) => {
                return Ok(fields);
            },
            Err(e) => {
                return Err(e);
            },
        }
    }
}

proof fn lemma_text_prefix(s: Seq<u8>, more: Seq<u8>)
    ensures
        text_model(s) is Ok ==> text_model(s + more) == text_model(s),
{
    if text_model(s) is Ok {
        assert((s + more).subrange(1, 1 + s[0]) =~= s.subrange(1, 1 + s[0]));
    }
}

proof fn lemma_value_prefix(s: Seq<u8>, more: Seq<u8>)
    ensures
        value_model(s) is Ok ==> value_model(s + more) == value_model(s),
    decreases s.len(), 0int,
{
    let long = s + more;
    if s.len() >= 1 && s[0] == MAP_START {
        assert(long.skip(1) =~= s.skip(1) + more);
        lemma_map_prefix(s.skip(1), more, Map::empty());
    } else if s.len() >= 2 && s[0] == STRING {
        assert(long.skip(2) =~= s.skip(2) + more);
        lemma_text_prefix(s.skip(2), more);
    }
}

proof fn lemma_entry_prefix(s: Seq<u8>, more: Seq<u8>)
    ensures
        entry_model(s) is Ok ==> entry_model(s + more) == entry_model(s),
    decreases s.len(), 0int,
{
    let long = s + more;
    if s.len() >= 1 {
        assert(long.skip(1) =~= s.skip(1) + more);
        lemma_text_prefix(s.skip(1), more);
        if let Ok((_, k)) = text_model(s.skip(1)) {
            assert(long.skip(1 + k as int) =~= s.skip(1 + k as int) + more);
            lemma_value_prefix(s.skip(1 + k as int), more);
        }
    }
}

proof fn lemma_map_prefix(s: Seq<u8>, more: Seq<u8>, fields: Map<Seq<char>, ObjectView>)
    ensures
        map_model(s, fields) is Ok ==> map_model(s + more, fields) == map_model(s, fields),
    decreases s.len(), 1int,
{
    lemma_entry_prefix(s, more);
    if let Ok((Some((key, value)), e)) = entry_model(s) {
        if 0 < e <= s.len() {
            assert((s + more).skip(e as int) =~= s.skip(e as int) + more);
            lemma_map_prefix(s.skip(e as int), more, fields.insert(key, value));
        }
    }
}

/// What comes after a value, or after the end of a map, does not matter to it.
pub proof fn law_following_bytes_ignored(
    s: Seq<u8>,
    more: Seq<u8>,
    fields: Map<Seq<char>, ObjectView>,
)
    ensures
        value_model(s) is Ok ==> value_model(s + more) == value_model(s),
        map_model(s, fields) is Ok ==> map_model(s + more, fields) == map_model(s, fields),
{
    lemma_value_prefix(s, more);
    lemma_map_prefix(s, more, fields);
}

/// A text is a byte for its length and then that many bytes, which must be UTF-8.
pub proof fn law_texts(s: Seq<u8>)
    ensures
        ({
            let model = text_model(s);
            let whole = s.len() >= 1 && s.len() >= 1 + s[0];
            let bytes = s.subrange(1, 1 + s[0]);
            &&& model is Ok <==> whole && valid_utf8(bytes)
            &&& model is Ok ==> model->Ok_0.0 == decode_utf8(bytes) && model->Ok_0.1 == 1 + s[0]
            &&& !whole ==> model->Err_0 is UnexpectedEof
            &&& whole && !valid_utf8(bytes) ==> model->Err_0 is InvalidUtf8
            &&& text_stop(s) == 1 + s[0]
        }),
{
}

/// A value is told by its first byte: `l` and four bytes are an integer, `SU` and a text a string,
/// and `{` and fields a map. No other byte starts one.
pub proof fn law_values(s: Seq<u8>)
    ensures
        ({
            let model = value_model(s);
            let text = text_model(s.skip(2));
            let fields = map_model(s.skip(1), Map::empty());
            &&& s.len() == 0 ==> model is Err && model->Err_0 is UnexpectedEof
            &&& s.len() > 0 && s[0] == 0x6c ==> if s.len() >= 5 {
                model is Ok && model->Ok_0.0 == ObjectView::Int(be_i32(s, 1) as i64)
                    && model->Ok_0.1 == 5
            } else {
                model is Err && model->Err_0 is UnexpectedEof
            }
            &&& s.len() == 1 && s[0] == 0x53 ==> model is Err && model->Err_0 is UnexpectedEof
            &&& s.len() > 1 && s[0] == 0x53 && s[1] != 0x55 ==> model is Err && model->Err_0
                == Failure::UnexpectedToken(s[1])
            &&& s.len() > 1 && s[0] == 0x53 && s[1] == 0x55 ==> match text {
                Ok((chars, n)) => model is Ok && model->Ok_0.0 == ObjectView::Str(chars)
                    && model->Ok_0.1 == 2 + n,
                Err(failure) => model is Err && model->Err_0 == failure,
            }
            &&& s.len() > 0 && s[0] == 0x7b ==> match fields {
                Ok((map, n)) => model is Ok && model->Ok_0.0 == ObjectView::Fields(map)
                    && model->Ok_0.1 == 1 + n,
                Err(failure) => model is Err && model->Err_0 == failure,
            }
            &&& s.len() > 0 && s[0] != 0x6c && s[0] != 0x53 && s[0] != 0x7b ==> model is Err
                && model->Err_0 == Failure::UnexpectedToken(s[0])
        }),
{
}

/// The fields of a map are keys and values, one after the other, each started by `U`, up to `}`. A
/// key that comes again has the later value, and so has one that was there before.
pub proof fn law_maps(s: Seq<u8>, fields: Map<Seq<char>, ObjectView>)
    ensures
        ({
            let model = map_model(s, fields);
            let key = text_model(s.skip(1));
            let k = 1 + key->Ok_0.1 as int;
            let value = value_model(s.skip(k));
            let n = k + value->Ok_0.1 as int;
            let later = map_model(s.skip(n), fields.insert(key->Ok_0.0, value->Ok_0.0));
            &&& s.len() == 0 ==> model is Err && model->Err_0 is UnexpectedEof
            &&& s.len() > 0 && s[0] == 0x7d ==> model is Ok && model->Ok_0.0 == fields
                && model->Ok_0.1 == 1
            &&& s.len() > 0 && s[0] != 0x7d && s[0] != 0x55 ==> model is Err && model->Err_0
                == Failure::UnexpectedToken(s[0])
            &&& s.len() > 0 && s[0] == 0x55 && key is Err ==> model is Err && model->Err_0
                == key->Err_0
            &&& s.len() > 0 && s[0] == 0x55 && key is Ok && value is Err ==> model is Err
                && model->Err_0 == value->Err_0
            &&& s.len() > 0 && s[0] == 0x55 && key is Ok && value is Ok ==> match later {
                Ok((all, m)) => model is Ok && model->Ok_0.0 == all && model->Ok_0.1 == n + m,
                Err(failure) => model is Err && model->Err_0 == failure,
            }
        }),
{
    lemma_length(s, fields);
}

/// How much of a value is taken where it is refused: up to the byte that starts none, to the end of
/// the text that is not UTF-8, or so much of the map in it.
pub proof fn law_value_stops(s: Seq<u8>)
    requires
        s.len() > 0,
    ensures
        s[0] == 0x53 && s[1] != 0x55 ==> value_stop(s) == 2,
        s[0] == 0x53 && s[1] == 0x55 && s.len() > 2 ==> value_stop(s) == 3 + s[2],
        s[0] == 0x7b ==> value_stop(s) == 1 + map_stop(s.skip(1)),
        s[0] != 0x53 && s[0] != 0x7b ==> value_stop(s) == 1,
{
}

/// How much of the fields of a map is taken where they are refused: up to the byte that starts no
/// key, to the end of the key that is not UTF-8, so much of the value that is refused, or all of
/// the first field and then so much of the others.
pub proof fn law_map_stops(s: Seq<u8>)
    requires
        s.len() > 0,
    ensures
        ({
            let key = text_model(s.skip(1));
            let k = 1 + key->Ok_0.1 as int;
            let value = value_model(s.skip(k));
            let n = k + value->Ok_0.1 as int;
            &&& s[0] != 0x7d && s[0] != 0x55 ==> map_stop(s) == 1
            &&& s[0] == 0x55 && s.len() > 1 && key is Err ==> map_stop(s) == 2 + s[1]
            &&& s[0] == 0x55 && key is Ok && value is Err ==> map_stop(s) == k + value_stop(
                s.skip(k),
            )
            &&& s[0] == 0x55 && key is Ok && value is Ok ==> map_stop(s) == n + map_stop(s.skip(n))
        }),
{
    reveal_with_fuel(map_stop, 2);
    lemma_length(s, Map::empty());
}

/// The view of a value is of the same kind, and has the same integer, characters or fields.
pub proof fn law_object_view(value: Object)
    ensures
        match value {
            Object::Int(number) => value@ == ObjectView::Int(number),
            Object::Str(text) => value@ == ObjectView::Str(text@),
            Object::Fields(fields) => value@ == ObjectView::Fields(fields@),
        },
{
}

/// The view of fields without a key twice has exactly the keys of the entries, each with the value
/// of its entry.
pub proof fn law_fields_view(fields: Fields, key: Seq<char>)
    requires
        fields.wf(),
    ensures
        fields@.contains_key(key) <==> exists|i: int|
            0 <= i < fields.entries@.len() && (#[trigger] fields.entries@[i]).0@ == key,
        forall|i: int|
            0 <= i < fields.entries@.len() && (#[trigger] fields.entries@[i]).0@ == key
                ==> fields@[key] == fields.entries@[i].1@,
{
    let entries = fields.entries@;
    if exists|i: int| 0 <= i < entries.len() && (#[trigger] entries[i]).0@ == key {
        let i = choose|i: int| 0 <= i < entries.len() && (#[trigger] entries[i]).0@ == key;
        lemma_entry_view(entries, i);
    } else {
        lemma_absent_view(entries, key);
    }
    assert forall|i: int| 0 <= i < entries.len() && (#[trigger] entries[i]).0@ == key implies
        fields@[key] == entries[i].1@ by {
        lemma_entry_view(entries, i);
    }
}

/// Two entries of well-formed fields have two keys, and the maps among the values are well-formed.
pub proof fn law_fields_wf(fields: Fields)
    requires
        fields.wf(),
    ensures
        forall|i: int, j: int|
            0 <= i < j < fields.entries@.len() ==> (#[trigger] fields.entries@[i]).0@ != (
            #[trigger] fields.entries@[j]).0@,
        forall|i: int|
            0 <= i < fields.entries@.len() && (#[trigger] fields.entries@[i]).1 is Fields
                ==> fields.entries@[i].1->Fields_0.wf(),
{
    assert forall|i: int|
        0 <= i < fields.entries@.len() && (#[trigger] fields.entries@[i]).1 is Fields implies
        fields.entries@[i].1->Fields_0.wf() by {
        assert(fields.entries@[i].1.wf());
    }
}

} // verus!
