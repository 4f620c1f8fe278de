//! JSON texts, taken apart and put together one level at a time.
//!
//! `serde_json` reads and prints; what it reads in a text is named here, and the
//! rest of the crate is stated over those names.

use crate::ordmap::{self, OrdMap};
use crate::text;
use vstd::prelude::*;

verus! {

/// The entries of a list of pairs, as texts.
pub open spec fn pairs(v: Seq<(String, String)>) -> Seq<(Seq<char>, Seq<char>)> {
    v.map_values(|e: (String, String)| (e.0@, e.1@))
}

/// Whether a reading came to a value.
pub open spec fn ok<T>(r: Result<T, Seq<char>>, value: T) -> bool {
    r == Ok::<T, Seq<char>>(value)
}

/// Whether a reading came to a complaint.
pub open spec fn bad<T>(r: Result<T, Seq<char>>, why: Seq<char>) -> bool {
    r == Err::<T, Seq<char>>(why)
}

// ── Reading ──────────────────────────────────────────────────────────────────

/// The string that `serde_json` reads in a text, or what it complains of.
pub uninterp spec fn string_in(text: Seq<char>) -> Result<Seq<char>, Seq<char>>;

/// `serde_json::from_str::<String>`: the string that a JSON text is. Which texts
/// are one, and what is said of the others, is left to it.
#[verifier::external_body]
pub(crate) fn read_string(text: &str) -> (r: Result<String, String>)
    ensures
        match r {
            Ok(s) => ok(string_in(text@), s@),
            Err(e) => bad(string_in(text@), e@),
        },
{
    serde_json::from_str::<String>(text).map_err(|e| e.to_string())
}

/// The whole number of sixty-four bits that `serde_json` reads in a text, or what
/// it complains of.
pub uninterp spec fn whole_in(text: Seq<char>) -> Result<u64, Seq<char>>;

/// `serde_json::from_str::<u64>`: the whole number that a JSON text is. Which
/// texts are one, and what is said of the others, is left to it.
#[verifier::external_body]
pub(crate) fn read_whole(text: &str) -> (r: Result<u64, String>)
    ensures
        match r {
            Ok(n) => ok(whole_in(text@), n),
            Err(e) => bad(whole_in(text@), e@),
        },
{
    serde_json::from_str::<u64>(text).map_err(|e| e.to_string())
}

/// The items of the list that `serde_json` reads in a text, each as a JSON text
/// again, or what it complains of.
pub uninterp spec fn items_in(text: Seq<char>) -> Result<Seq<Seq<char>>, Seq<char>>;

/// `serde_json::from_str::<Vec<Value>>`: the items of the list that a JSON text
/// is, each printed as a text of its own. Which texts are one, and what is said of
/// the others, is left to it.
#[verifier::external_body]
pub(crate) fn read_items(text: &str) -> (r: Result<Vec<String>, String>)
    ensures
        match r {
            Ok(v) => ok(items_in(text@), text::views(v@)),
            Err(e) => bad(items_in(text@), e@),
        },
{
    serde_json::from_str::<Vec<serde_json::Value>>(text).map(
        |v| v.iter().map(|item| item.to_string()).collect(),
    ).map_err(|e| e.to_string())
}

/// The entries of the object that `serde_json` reads in a text, in the order of
/// their keys and each value as a JSON text again, or what it complains of.
pub uninterp spec fn fields_in(text: Seq<char>) -> Result<
    Seq<(Seq<char>, Seq<char>)>,
    Seq<char>,
>;

/// `serde_json::from_str::<BTreeMap<String, Value>>`: the entries of the object
/// that a JSON text is, each value printed as a text of its own. A map holds each
/// key once and is walked in the order of its keys. Which texts are an object,
/// which of two entries with one key counts, and what is said of other texts, is
/// left to it.
#[verifier::external_body]
pub(crate) fn read_fields(text: &str) -> (r: Result<Vec<(String, String)>, String>)
    ensures
        match r {
            Ok(v) => ok(fields_in(text@), pairs(v@))
                && ordmap::increasing(pairs(v@)),
            Err(e) => bad(fields_in(text@), e@),
        },
{
    serde_json::from_str::<std::collections::BTreeMap<String, serde_json::Value>>(text).map(
        |m| m.into_iter().map(|(key, value)| (key, value.to_string())).collect(),
    ).map_err(|e| e.to_string())
}

/// The first JSON value in a text, as it stands there, and what follows it.
pub uninterp spec fn first_in(text: Seq<char>) -> Option<(Seq<char>, Seq<char>)>;

/// `serde_json::Deserializer::from_str(..).into_iter::<Value>()`, its first item and
/// its offset behind it: the value that a text begins with, as it stands there, and
/// what follows it. Which texts begin with one is left to it.
#[verifier::external_body]
pub(crate) fn read_first(text: &str) -> (r: Option<(String, String)>)
    ensures
        match r {
            Some(found) => first_in(text@) == Some((found.0@, found.1@)),
            None => first_in(text@) is None,
        },
{
    let mut values = serde_json::Deserializer::from_str(text).into_iter::<serde_json::Value>();
    values.next()?.ok()?;
    let (value, rest) = text.split_at(values.byte_offset());
    Some((value.to_owned(), rest.to_owned()))
}

/// The JSON text of the table that `toml` reads in a text, or what it complains
/// of.
pub uninterp spec fn toml_in(text: Seq<char>) -> Result<Seq<char>, Seq<char>>;

/// `toml::from_str::<toml::Table>`: the table that a TOML text is, printed as JSON
/// by `serde_json::to_string`. Which texts are one, and what is said of the others,
/// is left to them.
#[verifier::external_body]
pub(crate) fn read_toml(text: &str) -> (r: Result<String, String>)
    ensures
        match r {
            Ok(s) => ok(toml_in(text@), s@),
            Err(e) => bad(toml_in(text@), e@),
        },
{
    let table: toml::Table = toml::from_str(text).map_err(|e| e.to_string())?;
    serde_json::to_string(&table).map_err(|e| e.to_string())
}

// ── Printing ─────────────────────────────────────────────────────────────────

/// A text that `serde_json` printed.
#[derive(Debug)]
pub struct Printed {
    text: String,
}

impl Printed {
    /// The text.
    pub closed spec fn view(&self) -> Seq<char> {
        self.text@
    }
}

/// Whether a text stands on one line.
pub open spec fn one_line(text: Seq<char>) -> bool {
    !text.contains('\n')
}

/// The text that `serde_json` prints for a string.
pub uninterp spec fn string_text(s: Seq<char>) -> Seq<char>;

/// The text of a list with items that were printed before.
pub open spec fn list_text(items: Seq<Seq<char>>) -> Seq<char> {
    "["@ + text::joined(items, ","@) + "]"@
}

/// The text of an object with values that were printed before, in this order.
pub open spec fn object_text(fields: Seq<(Seq<char>, Seq<char>)>) -> Seq<char> {
    "{"@ + text::joined(
        fields.map_values(|e: (Seq<char>, Seq<char>)| string_text(e.0) + ":"@ + e.1),
        ","@,
    ) + "}"@
}

/// The strings of some entries, printed.
pub open spec fn printed_values(entries: Seq<(Seq<char>, Seq<char>)>) -> Seq<
    (Seq<char>, Seq<char>),
> {
    entries.map_values(|e: (Seq<char>, Seq<char>)| (e.0, string_text(e.1)))
}

/// `Value::to_string` of a string: a text that is read as that string, on one
/// line. Which characters are escaped, and how, is left to it.
#[verifier::external_body]
pub(crate) fn print_string(s: &str) -> (r: Printed)
    ensures
        r@ == string_text(s@),
        ok(string_in(r@), s@),
        one_line(r@),
{
    Printed { text: serde_json::Value::from(s).to_string() }
}

/// `Value::to_string` of a whole number: its decimal digits, which are read as that
/// number.
#[verifier::external_body]
pub(crate) fn print_whole(n: u64) -> (r: Printed)
    ensures
        r@ == text::decimal(n as nat),
        ok(whole_in(r@), n),
        one_line(r@),
{
    Printed { text: serde_json::Value::from(n).to_string() }
}

/// `Value::to_string` of a list of strings: their texts between brackets, which are
/// read as those strings, on one line.
#[verifier::external_body]
pub(crate) fn print_strings(v: &[String]) -> (r: Printed)
    ensures
        r@ == list_text(text::views(v@).map_values(|s: Seq<char>| string_text(s))),
        ok(strings_in(r@), text::views(v@)),
        one_line(r@),
{
    Printed { text: serde_json::Value::from(v.to_vec()).to_string() }
}

/// `Value::to_string` of an object of strings, whose keys stand in their order: its
/// entries between braces, which are read as those entries, on one line.
#[verifier::external_body]
pub(crate) fn print_string_map(entries: &[(String, String)]) -> (r: Printed)
    requires
        ordmap::increasing(pairs(entries@)),
    ensures
        r@ == object_text(printed_values(pairs(entries@))),
        ok(string_map_in(r@), pairs(entries@)),
        one_line(r@),
{
    let map: serde_json::Map<String, serde_json::Value> = entries.iter().map(
        |(key, value)| (key.clone(), serde_json::Value::from(value.as_str())),
    ).collect();
    Printed { text: serde_json::Value::from(map).to_string() }
}

/// The entries of some fields, as texts.
pub open spec fn field_views(v: Seq<(String, Printed)>) -> Seq<(Seq<char>, Seq<char>)> {
    v.map_values(|e: (String, Printed)| (e.0@, e.1@))
}

/// Whether no two entries are under one key.
pub open spec fn distinct(fields: Seq<(Seq<char>, Seq<char>)>) -> bool {
    forall|i: int, j: int|
        0 <= i < j < fields.len() ==> (#[trigger] fields[i]).0 != (#[trigger] fields[j]).0
}

/// `Serializer::collect_map` of `serde_json`'s serializer, over values that were
/// printed before: the entries between braces, in the order given and on one line,
/// which are read one after the other as those entries.
#[verifier::external_body]
pub(crate) fn print_fields(fields: &[(String, Printed)]) -> (r: String)
    requires
        distinct(field_views(fields@)),
    ensures
        r@ == object_text(field_views(fields@)),
        ok(members_in(r@), field_views(fields@)),
        one_line(r@),
{
    let mut out: Vec<u8> = Vec::new();
    let values = fields.iter().map(
        |(key, p)| (key, serde_json::from_str::<serde_json::Value>(&p.text).unwrap_or_default()),
    );
    let mut printer = serde_json::Serializer::new(&mut out);
    serde::Serializer::collect_map(&mut printer, values).unwrap_or_default();
    String::from_utf8(out).unwrap_or_default()
}

// ── Fields of an object ──────────────────────────────────────────────────────

/// The value of a field, where the object has it.
pub open spec fn field(fields: Seq<(Seq<char>, Seq<char>)>, key: Seq<char>) -> Option<Seq<char>>
    decreases fields.len(),
{
    if fields.len() == 0 {
        None
    } else if fields[0].0 == key {
        Some(fields[0].1)
    } else {
        field(fields.skip(1), key)
    }
}

/// An entry of an object is what its field holds.
pub proof fn field_at(fields: Seq<(Seq<char>, Seq<char>)>, i: int)
    requires
        distinct(fields),
        0 <= i < fields.len(),
    ensures
        field(fields, fields[i].0) == Some(fields[i].1),
    decreases i,
{
    if i > 0 {
        let rest = fields.skip(1);
        assert(fields[0].0 != fields[i].0);
        assert forall|a: int, b: int| 0 <= a < b < rest.len() implies (#[trigger] rest[a]).0 != (
        #[trigger] rest[b]).0 by {
            assert(fields[a + 1].0 != fields[b + 1].0);
        }
        field_at(rest, i - 1);
    }
}

/// An object lacks a field that no entry is under.
pub proof fn no_field(fields: Seq<(Seq<char>, Seq<char>)>, key: Seq<char>)
    requires
        forall|i: int| 0 <= i < fields.len() ==> (#[trigger] fields[i]).0 != key,
    ensures
        field(fields, key) is None,
    decreases fields.len(),
{
    if fields.len() > 0 {
        let rest = fields.skip(1);
        assert(fields[0].0 != key);
        assert forall|i: int| 0 <= i < rest.len() implies (#[trigger] rest[i]).0 != key by {
            assert(rest[i] == fields[i + 1]);
        }
        no_field(rest, key);
    }
}

// ── Records ──────────────────────────────────────────────────────────────────

/// Items under the keys that they stand for, in their order.
pub open spec fn under_keys(keys: Seq<Seq<char>>, items: Seq<Seq<char>>) -> Seq<
    (Seq<char>, Seq<char>),
> {
    Seq::new(items.len(), |i: int| (keys[i], items[i]))
}

/// What is said of a list that is too short to be a record.
pub open spec fn too_short(len: nat, what: Seq<char>, fields: nat) -> Seq<char> {
    "invalid length "@ + text::decimal(len) + ", expected struct "@ + what + " with "@
        + text::decimal(fields) + (if fields == 1 {
        " element"@
    } else {
        " elements"@
    })
}

/// Whether a character is one that may stand between the parts of a JSON text.
pub open spec fn is_gap(c: char) -> bool {
    c == ' ' || c == '\n' || c == '\t' || c == '\r'
}

/// What follows a character that a text begins with, gaps aside.
pub open spec fn behind(text: Seq<char>, c: char) -> Option<Seq<char>>
    decreases text.len(),
{
    if text.len() == 0 {
        None
    } else if text[0] == c {
        Some(text.skip(1))
    } else if is_gap(text[0]) {
        behind(text.skip(1), c)
    } else {
        None
    }
}

fn read_behind(text: &str, c: char) -> (r: Option<String>)
    ensures
        text::opt_string(r) == behind(text@, c),
{
    let v: Vec<char> = text::chars_of(text);
    let mut i: usize = 0;
    assert(v@.skip(0) =~= v@);
    while i < v.len()
        invariant
            i <= v@.len(),
            v@ == text@,
            behind(text@, c) == behind(v@.skip(i as int), c),
        decreases v@.len() - i,
    {
        let at: char = v[i];
        assert(v@.skip(i as int)[0] == at);
        assert(v@.skip(i as int).skip(1) =~= v@.skip(i + 1));
        if at == c {
            let rest: String = text::slice(&v, i + 1, v.len());
            assert(rest@ =~= v@.skip(i + 1));
            return Some(rest);
        }
        if at != ' ' && at != '\n' && at != '\t' && at != '\r' {
            return None;
        }
        i = i + 1;
    }
    None
}

/// The members of an object from here on, in the order in which they stand there:
/// their keys, and their values as they stand there.
pub open spec fn members_from(text: Seq<char>) -> Seq<(Seq<char>, Seq<char>)>
    decreases text.len(),
{
    match member_at(text) {
        None => Seq::empty(),
        Some((key, value, rest)) => match behind(rest, ',') {
            Some(next) => if next.len() < text.len() {
                seq![(key, value)] + members_from(next)
            } else {
                seq![(key, value)]
            },
            None => seq![(key, value)],
        },
    }
}

/// The member of an object that stands here, and what follows it.
pub open spec fn member_at(text: Seq<char>) -> Option<(Seq<char>, Seq<char>, Seq<char>)> {
    match first_in(text) {
        None => None,
        Some((name, after)) => match string_in(name) {
            Err(_) => None,
            Ok(key) => match behind(after, ':') {
                None => None,
                Some(rest) => match first_in(rest) {
                    None => None,
                    Some((value, last)) => Some((key, text::trim(value), last)),
                },
            },
        },
    }
}

fn read_member(text: &str) -> (r: Option<(String, String, String)>)
    ensures
        match r {
            Some(m) => member_at(text@) == Some((m.0@, m.1@, m.2@)),
            None => member_at(text@) is None,
        },
{
    match read_first(text) {
        None => None,
        Some((name, after)) => match read_string(name.as_str()) {
            Err(_) => None,
            Ok(key) => match read_behind(after.as_str(), ':') {
                None => None,
                Some(rest) => match read_first(rest.as_str()) {
                    None => None,
                    Some((value, last)) => Some((key, text::trimmed(value.as_str()), last)),
                },
            },
        },
    }
}

/// The members of the object that a text is, repeated ones too, or what is wrong
/// with it.
pub open spec fn members_in(text: Seq<char>) -> Result<Seq<(Seq<char>, Seq<char>)>, Seq<char>> {
    match fields_in(text) {
        Err(e) => Err(e),
        Ok(_) => match behind(text, '{') {
            Some(inside) => Ok(members_from(inside)),
            None => Ok(Seq::empty()),
        },
    }
}

/// The members of the object that a text is.
pub(crate) fn read_members(text: &str) -> (r: Result<Vec<(String, String)>, String>)
    ensures
        match r {
            Ok(v) => ok(members_in(text@), pairs(v@)),
            Err(e) => bad(members_in(text@), e@),
        },
{
    if let Err(e) = read_fields(text) {
        return Err(e);
    }
    let mut out: Vec<(String, String)> = Vec::new();
    assert(pairs(out@) =~= Seq::<(Seq<char>, Seq<char>)>::empty());
    let mut rest: String = match read_behind(text, '{') {
        Some(inside) => inside,
        None => {
            return Ok(out);
        },
    };
    let ghost all = members_from(rest@);
    assert(all =~= pairs(out@) + members_from(rest@));
    loop
        invariant
            ok(members_in(text@), all),
            all == pairs(out@) + members_from(rest@),
        decreases rest@.len(),
    {
        let (key, value, last) = match read_member(rest.as_str()) {
            Some(m) => m,
            None => {
                assert(all =~= pairs(out@));
                return Ok(out);
            },
        };
        let ghost before = pairs(out@);
        let ghost entry = (key@, value@);
        let size: usize = text::chars_of(rest.as_str()).len();
        out.push((key, value));
        assert(pairs(out@) =~= before.push(entry));
        let next: String = match read_behind(last.as_str(), ',') {
            Some(next) => next,
            None => {
                assert(all =~= pairs(out@));
                return Ok(out);
            },
        };
        if text::chars_of(next.as_str()).len() >= size {
            assert(all =~= pairs(out@));
            return Ok(out);
        }
        assert(all =~= pairs(out@) + members_from(next@));
        rest = next;
    }
}

/// The items of a list from here on, as they stand there.
pub open spec fn elements_from(text: Seq<char>) -> Seq<Seq<char>>
    decreases text.len(),
{
    match first_in(text) {
        None => Seq::empty(),
        Some((value, rest)) => match behind(rest, ',') {
            Some(next) => if next.len() < text.len() {
                seq![text::trim(value)] + elements_from(next)
            } else {
                seq![text::trim(value)]
            },
            None => seq![text::trim(value)],
        },
    }
}

/// The items of the list that a text is, as they stand there, or what is wrong with
/// it.
pub open spec fn elements_in(text: Seq<char>) -> Result<Seq<Seq<char>>, Seq<char>> {
    match items_in(text) {
        Err(e) => Err(e),
        Ok(_) => match behind(text, '[') {
            Some(inside) => Ok(elements_from(inside)),
            None => Ok(Seq::empty()),
        },
    }
}

/// The items of the list that a text is, as they stand there.
pub(crate) fn read_elements(text: &str) -> (r: Result<Vec<String>, String>)
    ensures
        match r {
            Ok(v) => ok(elements_in(text@), text::views(v@)),
            Err(e) => bad(elements_in(text@), e@),
        },
{
    if let Err(e) = read_items(text) {
        return Err(e);
    }
    let mut out: Vec<String> = Vec::new();
    assert(text::views(out@) =~= Seq::<Seq<char>>::empty());
    let mut rest: String = match read_behind(text, '[') {
        Some(inside) => inside,
        None => {
            return Ok(out);
        },
    };
    let ghost all = elements_from(rest@);
    assert(all =~= text::views(out@) + elements_from(rest@));
    loop
        invariant
            ok(elements_in(text@), all),
            all == text::views(out@) + elements_from(rest@),
        decreases rest@.len(),
    {
        let (found, last) = match read_first(rest.as_str()) {
            Some(found) => found,
            None => {
                assert(all =~= text::views(out@));
                return Ok(out);
            },
        };
        let ghost before = text::views(out@);
        let value: String = text::trimmed(found.as_str());
        let ghost item = value@;
        let size: usize = text::chars_of(rest.as_str()).len();
        out.push(value);
        assert(text::views(out@) =~= before.push(item));
        let next: String = match read_behind(last.as_str(), ',') {
            Some(next) => next,
            None => {
                assert(all =~= text::views(out@));
                return Ok(out);
            },
        };
        if text::chars_of(next.as_str()).len() >= size {
            assert(all =~= text::views(out@));
            return Ok(out);
        }
        assert(all =~= text::views(out@) + elements_from(next@));
        rest = next;
    }
}

/// The value of the last of some entries under a key, if there is one.
pub open spec fn last_under(fields: Seq<(Seq<char>, Seq<char>)>, key: Seq<char>) -> Option<Seq<char>>
    decreases fields.len(),
{
    if fields.len() == 0 {
        None
    } else if fields.last().0 == key {
        Some(fields.last().1)
    } else {
        last_under(fields.drop_last(), key)
    }
}

fn find_last<'a>(fields: &'a [(String, String)], key: &str) -> (r: Option<&'a str>)
    ensures
        text::opt(r) == last_under(pairs(fields@), key@),
{
    let ghost all = pairs(fields@);
    let mut n: usize = fields.len();
    assert(all.take(n as int) =~= all);
    while n > 0
        invariant
            n <= fields@.len(),
            all == pairs(fields@),
            last_under(all, key@) == last_under(all.take(n as int), key@),
        decreases n,
    {
        assert(all.take(n as int).last() == (fields@[n - 1].0@, fields@[n - 1].1@));
        if text::same(fields[n - 1].0.as_str(), key) {
            return Some(fields[n - 1].1.as_str());
        }
        assert(all.take(n as int).drop_last() =~= all.take(n - 1));
        n = n - 1;
    }
    None
}

/// The entries of the map that a text is, in the order of their keys and each value
/// as it stands there, or what is wrong with it. Of entries under one key the last
/// counts.
pub open spec fn entries_in(text: Seq<char>) -> Result<Seq<(Seq<char>, Seq<char>)>, Seq<char>> {
    match (fields_in(text), members_in(text)) {
        (Ok(fields), Ok(members)) => Ok(
            fields.map_values(
                |e: (Seq<char>, Seq<char>)|
                    (
                        e.0,
                        match last_under(members, e.0) {
                            Some(value) => value,
                            None => e.1,
                        },
                    ),
            ),
        ),
        (Err(e), _) => Err(e),
        (_, Err(e)) => Err(e),
    }
}

/// The entries of the map that a text is.
pub(crate) fn read_entries(text: &str) -> (r: Result<Vec<(String, String)>, String>)
    ensures
        match r {
            Ok(v) => ok(entries_in(text@), pairs(v@)) && ordmap::increasing(pairs(v@)),
            Err(e) => bad(entries_in(text@), e@),
        },
{
    let fields: Vec<(String, String)> = match read_fields(text) {
        Ok(fields) => fields,
        Err(e) => {
            return Err(e);
        },
    };
    let members: Vec<(String, String)> = match read_members(text) {
        Ok(members) => members,
        Err(e) => {
            return Err(e);
        },
    };
    let ghost sorted = pairs(fields@);
    let ghost all = entries_in(text@)->Ok_0;
    assert(all.len() == sorted.len());
    let mut out: Vec<(String, String)> = Vec::new();
    let mut i: usize = 0;
    assert(pairs(out@) =~= all.take(0));
    while i < fields.len()
        invariant
            i <= fields@.len(),
            sorted == pairs(fields@),
            ok(fields_in(text@), sorted),
            ok(members_in(text@), pairs(members@)),
            ok(entries_in(text@), all),
            all.len() == sorted.len(),
            pairs(out@) == all.take(i as int),
        decreases fields@.len() - i,
    {
        assert(sorted[i as int] == (fields@[i as int].0@, fields@[i as int].1@));
        let key: &str = fields[i].0.as_str();
        let value: &str = match find_last(&members, key) {
            Some(value) => value,
            None => fields[i].1.as_str(),
        };
        let ghost before = pairs(out@);
        let ghost entry = (key@, value@);
        assert(all[i as int] == entry);
        out.push((key.to_owned(), value.to_owned()));
        assert(pairs(out@) =~= before.push(entry));
        assert(all.take(i + 1) =~= all.take(i as int).push(all[i as int]));
        i = i + 1;
    }
    assert(all.take(i as int) =~= all);
    assert forall|a: int, b: int| 0 <= a < b < all.len() implies text::less(
        #[trigger] all[a].0,
        #[trigger] all[b].0,
    ) by {
        assert(text::less(sorted[a].0, sorted[b].0));
    }
    Ok(out)
}

/// Whether an entry is under this key.
pub open spec fn under(fields: Seq<(Seq<char>, Seq<char>)>, key: Seq<char>) -> bool {
    exists|i: int| 0 <= i < fields.len() && (#[trigger] fields[i]).0 == key
}

/// The first of these keys that an entry is under although one before it is.
pub open spec fn first_repeated(
    fields: Seq<(Seq<char>, Seq<char>)>,
    keys: Seq<Seq<char>>,
) -> Option<Seq<char>>
    decreases fields.len(),
{
    if fields.len() == 0 {
        None
    } else {
        let front = fields.drop_last();
        match first_repeated(front, keys) {
            Some(key) => Some(key),
            None => if keys.contains(fields.last().0) && under(front, fields.last().0) {
                Some(fields.last().0)
            } else {
                None
            },
        }
    }
}

/// Entries under keys of their own repeat none.
pub proof fn distinct_never_repeat(fields: Seq<(Seq<char>, Seq<char>)>, keys: Seq<Seq<char>>)
    requires
        distinct(fields),
    ensures
        first_repeated(fields, keys) is None,
    decreases fields.len(),
{
    if fields.len() > 0 {
        let front = fields.drop_last();
        assert forall|i: int, j: int| 0 <= i < j < front.len() implies (#[trigger] front[i]).0 != (
        #[trigger] front[j]).0 by {
            assert(fields[i].0 != fields[j].0);
        }
        distinct_never_repeat(front, keys);
        if under(front, fields.last().0) {
            let i = choose|i: int|
                0 <= i < front.len() && (#[trigger] front[i]).0 == fields.last().0;
            assert(fields[i].0 != fields[fields.len() - 1].0);
        }
    }
}

proof fn a_repeat_stays(
    fields: Seq<(Seq<char>, Seq<char>)>,
    keys: Seq<Seq<char>>,
    n: int,
    key: Seq<char>,
)
    requires
        0 <= n <= fields.len(),
        first_repeated(fields.take(n), keys) == Some(key),
    ensures
        first_repeated(fields, keys) == Some(key),
    decreases fields.len() - n,
{
    if n < fields.len() {
        assert(fields.take(n + 1).drop_last() =~= fields.take(n));
        a_repeat_stays(fields, keys, n + 1, key);
    } else {
        assert(fields.take(n) =~= fields);
    }
}

fn is_among(keys: &[&str], key: &str) -> (r: bool)
    ensures
        r == text::str_views(keys@).contains(key@),
{
    let ghost all = text::str_views(keys@);
    let mut i: usize = 0;
    while i < keys.len()
        invariant
            i <= keys@.len(),
            all == text::str_views(keys@),
            forall|j: int| 0 <= j < i ==> #[trigger] all[j] != key@,
        decreases keys@.len() - i,
    {
        assert(all[i as int] == keys@[i as int]@);
        if text::same(keys[i], key) {
            return true;
        }
        i = i + 1;
    }
    false
}

fn repeated(fields: &[(String, String)], keys: &[&str]) -> (r: Option<String>)
    ensures
        text::opt_string(r) == first_repeated(pairs(fields@), text::str_views(keys@)),
{
    let ghost all = pairs(fields@);
    let ghost names = text::str_views(keys@);
    let mut i: usize = 0;
    assert(all.take(0) =~= Seq::<(Seq<char>, Seq<char>)>::empty());
    while i < fields.len()
        invariant
            i <= fields@.len(),
            all == pairs(fields@),
            names == text::str_views(keys@),
            first_repeated(all.take(i as int), names) is None,
        decreases fields@.len() - i,
    {
        let key: &str = fields[i].0.as_str();
        let ghost front = all.take(i as int);
        assert(all.take(i + 1).drop_last() =~= front);
        assert(all[i as int].0 == key@);
        let known: bool = is_among(keys, key);
        let mut j: usize = 0;
        let mut seen: bool = false;
        while j < i
            invariant
                j <= i < fields@.len(),
                all == pairs(fields@),
                front == all.take(i as int),
                seen == exists|k: int| 0 <= k < j && (#[trigger] front[k]).0 == key@,
            decreases i - j,
        {
            assert(front[j as int].0 == fields@[j as int].0@);
            if text::same(fields[j].0.as_str(), key) {
                seen = true;
            }
            j = j + 1;
        }
        if known && seen {
            proof {
                a_repeat_stays(all, names, i + 1, key@);
            }
            return Some(key.to_owned());
        }
        i = i + 1;
    }
    assert(all.take(i as int) =~= all);
    None
}

/// The fields of the record that a text is: an object with none of them twice, or a
/// list of the values in the order of their keys, of which those after the first
/// `needed` may be left out. What follows the last of them in a list is passed over,
/// or refused.
pub open spec fn record_in(
    text: Seq<char>,
    what: Seq<char>,
    keys: Seq<Seq<char>>,
    needed: nat,
    more: bool,
) -> Result<Seq<(Seq<char>, Seq<char>)>, Seq<char>> {
    match members_in(text) {
        Ok(fields) => match first_repeated(fields, keys) {
            Some(key) => Err("duplicate field `"@ + key + "`"@),
            None => Ok(fields),
        },
        Err(e) => match elements_in(text) {
            Err(_) => Err(e),
            Ok(items) => if items.len() < needed {
                Err(too_short(items.len(), what, keys.len()))
            } else if items.len() <= keys.len() {
                Ok(under_keys(keys, items))
            } else if more {
                Ok(under_keys(keys, items.take(keys.len() as int)))
            } else {
                Err("trailing characters"@)
            },
        },
    }
}

/// The fields of the record that a text is.
pub(crate) fn read_record(
    text: &str,
    what: &str,
    keys: &[&str],
    needed: usize,
    more: bool,
) -> (r: Result<Vec<(String, String)>, String>)
    ensures
        ({
            let read = record_in(text@, what@, text::str_views(keys@), needed as nat, more);
            match r {
                Ok(v) => ok(read, pairs(v@)),
                Err(e) => bad(read, e@),
            }
        }),
{
    let complaint: String = match read_members(text) {
        Ok(fields) => {
            return match repeated(&fields, keys) {
                None => Ok(fields),
                Some(key) => {
                    let mut msg = "duplicate field `".to_owned();
                    msg.append(key.as_str());
                    msg.append("`");
                    Err(msg)
                },
            };
        },
        Err(e) => e,
    };
    let items: Vec<String> = match read_elements(text) {
        Ok(items) => items,
        Err(_) => {
            return Err(complaint);
        },
    };
    let ghost all = text::views(items@);
    let ghost names = text::str_views(keys@);
    assert(all.len() == items@.len());
    assert(names.len() == keys@.len());
    if items.len() < needed {
        let mut msg = "invalid length ".to_owned();
        msg.append(text::to_decimal(items.len() as u128).as_str());
        msg.append(", expected struct ");
        msg.append(what);
        msg.append(" with ");
        msg.append(text::to_decimal(keys.len() as u128).as_str());
        msg.append(
            if keys.len() == 1 {
                " element"
            } else {
                " elements"
            },
        );
        return Err(msg);
    }
    if items.len() > keys.len() && !more {
        return Err("trailing characters".to_owned());
    }
    let n: usize = if items.len() <= keys.len() {
        items.len()
    } else {
        keys.len()
    };
    let ghost laid = under_keys(names, all.take(n as int));
    let mut out: Vec<(String, String)> = Vec::new();
    let mut i: usize = 0;
    assert(pairs(out@) =~= laid.take(0));
    while i < n
        invariant
            i <= n <= items@.len(),
            n <= keys@.len(),
            all == text::views(items@),
            names == text::str_views(keys@),
            laid == under_keys(names, all.take(n as int)),
            pairs(out@) == laid.take(i as int),
        decreases n - i,
    {
        let ghost before = out@;
        let entry = (keys[i].to_owned(), items[i].as_str().to_owned());
        out.push(entry);
        assert(all[i as int] == items@[i as int]@);
        assert(pairs(out@) =~= pairs(before).push((entry.0@, entry.1@)));
        assert(laid.take(i + 1) =~= laid.take(i as int).push(laid[i as int]));
        i = i + 1;
    }
    assert(laid.take(i as int) =~= laid);
    assert(n == items@.len() ==> all.take(n as int) =~= all);
    Ok(out)
}

/// What is said of a field that an object lacks.
pub open spec fn missing(key: Seq<char>) -> Seq<char> {
    "missing field `"@ + key + "`"@
}

/// The value of a field, where the object has it.
pub(crate) fn find<'a>(fields: &'a [(String, String)], key: &str) -> (r: Option<&'a str>)
    ensures
        text::opt(r) == field(pairs(fields@), key@),
{
    let ghost all = pairs(fields@);
    let mut i: usize = 0;
    assert(all.skip(0) =~= all);
    while i < fields.len()
        invariant
            i <= fields@.len(),
            all == pairs(fields@),
            field(all, key@) == field(all.skip(i as int), key@),
        decreases fields@.len() - i,
    {
        assert(all.skip(i as int)[0] == (fields@[i as int].0@, fields@[i as int].1@));
        if text::same(fields[i].0.as_str(), key) {
            return Some(fields[i].1.as_str());
        }
        assert(all.skip(i as int).skip(1) =~= all.skip(i + 1));
        i = i + 1;
    }
    None
}

/// The string in a field that an object must have, or what is wrong with it.
pub open spec fn text_field(fields: Seq<(Seq<char>, Seq<char>)>, key: Seq<char>) -> Result<
    Seq<char>,
    Seq<char>,
> {
    match field(fields, key) {
        None => Err(missing(key)),
        Some(value) => string_in(value),
    }
}

pub(crate) fn missing_field(key: &str) -> (r: String)
    ensures
        r@ == missing(key@),
{
    let mut out = "missing field `".to_owned();
    out.append(key);
    out.append("`");
    out
}

/// The string in a field that an object must have.
pub(crate) fn need_text(fields: &[(String, String)], key: &str) -> (r: Result<String, String>)
    ensures
        match r {
            Ok(s) => ok(text_field(pairs(fields@), key@), s@),
            Err(e) => bad(text_field(pairs(fields@), key@), e@),
        },
{
    match find(fields, key) {
        None => Err(missing_field(key)),
        Some(value) => read_string(value),
    }
}

/// The string in a field that may be absent or null, or what is wrong with it.
pub open spec fn maybe_text(fields: Seq<(Seq<char>, Seq<char>)>, key: Seq<char>) -> Result<
    Option<Seq<char>>,
    Seq<char>,
> {
    match field(fields, key) {
        None => Ok(None),
        Some(value) => match string_in(value) {
            Ok(s) => Ok(Some(s)),
            Err(e) => if value == "null"@ {
                Ok(None)
            } else {
                Err(e)
            },
        },
    }
}

/// The string in a field that may be absent or null.
pub(crate) fn optional_text(fields: &[(String, String)], key: &str) -> (r: Result<
    Option<String>,
    String,
>)
    ensures
        match r {
            Ok(s) => ok(maybe_text(pairs(fields@), key@), text::opt_string(s)),
            Err(e) => bad(maybe_text(pairs(fields@), key@), e@),
        },
{
    match find(fields, key) {
        None => Ok(None),
        Some(value) => match read_string(value) {
            Ok(s) => Ok(Some(s)),
            Err(e) => if text::same(value, "null") {
                Ok(None)
            } else {
                Err(e)
            },
        },
    }
}

/// The string in a field that may be absent, or what is wrong with it. TOML has no
/// null: where one stands, it stands for a number that JSON cannot hold.
pub open spec fn given_text(fields: Seq<(Seq<char>, Seq<char>)>, key: Seq<char>) -> Result<
    Option<Seq<char>>,
    Seq<char>,
> {
    match field(fields, key) {
        None => Ok(None),
        Some(value) => match string_in(value) {
            Ok(s) => Ok(Some(s)),
            Err(e) => Err(e),
        },
    }
}

/// The string in a field that may be absent.
pub(crate) fn text_if_given(fields: &[(String, String)], key: &str) -> (r: Result<
    Option<String>,
    String,
>)
    ensures
        match r {
            Ok(s) => ok(given_text(pairs(fields@), key@), text::opt_string(s)),
            Err(e) => bad(given_text(pairs(fields@), key@), e@),
        },
{
    match find(fields, key) {
        None => Ok(None),
        Some(value) => match read_string(value) {
            Ok(s) => Ok(Some(s)),
            Err(e) => Err(e),
        },
    }
}

/// The number in a field that may be absent or null, or what is wrong with it.
pub open spec fn maybe_whole(fields: Seq<(Seq<char>, Seq<char>)>, key: Seq<char>) -> Result<
    Option<u64>,
    Seq<char>,
> {
    match field(fields, key) {
        None => Ok(None),
        Some(value) => match whole_in(value) {
            Ok(n) => Ok(Some(n)),
            Err(e) => if value == "null"@ {
                Ok(None)
            } else {
                Err(e)
            },
        },
    }
}

/// The number in a field that may be absent or null.
pub(crate) fn optional_whole(fields: &[(String, String)], key: &str) -> (r: Result<
    Option<u64>,
    String,
>)
    ensures
        match r {
            Ok(n) => ok(maybe_whole(pairs(fields@), key@), n),
            Err(e) => bad(maybe_whole(pairs(fields@), key@), e@),
        },
{
    match find(fields, key) {
        None => Ok(None),
        Some(value) => match read_whole(value) {
            Ok(n) => Ok(Some(n)),
            Err(e) => if text::same(value, "null") {
                Ok(None)
            } else {
                Err(e)
            },
        },
    }
}

/// The number of thirty-two bits in a field that an object must have, or what is
/// wrong with it.
pub open spec fn number_field(fields: Seq<(Seq<char>, Seq<char>)>, key: Seq<char>) -> Result<
    u32,
    Seq<char>,
> {
    match field(fields, key) {
        None => Err(missing(key)),
        Some(value) => match whole_in(value) {
            Err(e) => Err(e),
            Ok(n) => if n <= u32::MAX {
                Ok(n as u32)
            } else {
                Err("invalid value: integer `"@ + text::decimal(n as nat) + "`, expected u32"@)
            },
        },
    }
}

/// The number of thirty-two bits in a field that an object must have.
pub(crate) fn need_number(fields: &[(String, String)], key: &str) -> (r: Result<u32, String>)
    ensures
        match r {
            Ok(n) => ok(number_field(pairs(fields@), key@), n),
            Err(e) => bad(number_field(pairs(fields@), key@), e@),
        },
{
    match find(fields, key) {
        None => Err(missing_field(key)),
        Some(value) => match read_whole(value) {
            Err(e) => Err(e),
            Ok(n) => {
                if n <= u32::MAX as u64 {
                    Ok(n as u32)
                } else {
                    let mut msg = "invalid value: integer `".to_owned();
                    msg.append(text::to_decimal(n as u128).as_str());
                    msg.append("`, expected u32");
                    Err(msg)
                }
            },
        },
    }
}

// ── Lists and maps of strings ────────────────────────────────────────────────

/// The strings that some items are, or what is wrong with the first that is none.
pub open spec fn strings_of(items: Seq<Seq<char>>) -> Result<Seq<Seq<char>>, Seq<char>>
    decreases items.len(),
{
    if items.len() == 0 {
        Ok(Seq::empty())
    } else {
        match strings_of(items.drop_last()) {
            Err(e) => Err(e),
            Ok(front) => match string_in(items.last()) {
                Ok(s) => Ok(front.push(s)),
                Err(e) => Err(e),
            },
        }
    }
}

/// The strings of the list that a text is, or what is wrong with it.
pub open spec fn strings_in(text: Seq<char>) -> Result<Seq<Seq<char>>, Seq<char>> {
    match items_in(text) {
        Ok(items) => strings_of(items),
        Err(e) => Err(e),
    }
}

/// What is wrong with a list of strings goes back to its first wrong item.
proof fn wrong_item_decides(items: Seq<Seq<char>>, i: int, e: Seq<char>)
    requires
        0 <= i < items.len(),
        strings_of(items.take(i)) is Ok,
        bad(string_in(items[i]), e),
    ensures
        bad(strings_of(items), e),
    decreases items.len(),
{
    if i == items.len() - 1 {
        assert(items.drop_last() =~= items.take(i));
    } else {
        assert(items.drop_last().take(i) =~= items.take(i));
        wrong_item_decides(items.drop_last(), i, e);
    }
}

/// The strings of the list that a text is.
pub(crate) fn read_strings(text: &str) -> (r: Result<Vec<String>, String>)
    ensures
        match r {
            Ok(v) => ok(strings_in(text@), text::views(v@)),
            Err(e) => bad(strings_in(text@), e@),
        },
{
    let items: Vec<String> = match read_items(text) {
        Ok(items) => items,
        Err(e) => {
            return Err(e);
        },
    };
    let ghost all = text::views(items@);
    let mut out: Vec<String> = Vec::new();
    let mut i: usize = 0;
    assert(all.take(0) =~= Seq::<Seq<char>>::empty());
    assert(text::views(out@) =~= Seq::<Seq<char>>::empty());
    while i < items.len()
        invariant
            i <= items@.len(),
            all == text::views(items@),
            ok(items_in(text@), all),
            ok(strings_of(all.take(i as int)), text::views(out@)),
        decreases items@.len() - i,
    {
        assert(all[i as int] == items@[i as int]@);
        match read_string(items[i].as_str()) {
            Ok(s) => {
                let ghost before = out@;
                out.push(s);
                assert(text::views(out@) =~= text::views(before).push(s@));
                assert(all.take(i + 1).drop_last() =~= all.take(i as int));
            },
            Err(e) => {
                proof {
                    wrong_item_decides(all, i as int, e@);
                }
                return Err(e);
            },
        }
        i = i + 1;
    }
    assert(all.take(i as int) =~= all);
    Ok(out)
}

/// The strings that the values of some entries are, under the same keys, or what
/// is wrong with the first that is none.
pub open spec fn string_values(fields: Seq<(Seq<char>, Seq<char>)>) -> Result<
    Seq<(Seq<char>, Seq<char>)>,
    Seq<char>,
>
    decreases fields.len(),
{
    if fields.len() == 0 {
        Ok(Seq::empty())
    } else {
        match string_values(fields.drop_last()) {
            Err(e) => Err(e),
            Ok(front) => match string_in(fields.last().1) {
                Ok(s) => Ok(front.push((fields.last().0, s))),
                Err(e) => Err(e),
            },
        }
    }
}

/// The strings of the object that a text is, or what is wrong with it.
pub open spec fn string_map_in(text: Seq<char>) -> Result<Seq<(Seq<char>, Seq<char>)>, Seq<char>> {
    match fields_in(text) {
        Ok(fields) => string_values(fields),
        Err(e) => Err(e),
    }
}

proof fn wrong_value_decides(fields: Seq<(Seq<char>, Seq<char>)>, i: int, e: Seq<char>)
    requires
        0 <= i < fields.len(),
        string_values(fields.take(i)) is Ok,
        bad(string_in(fields[i].1), e),
    ensures
        bad(string_values(fields), e),
    decreases fields.len(),
{
    if i == fields.len() - 1 {
        assert(fields.drop_last() =~= fields.take(i));
    } else {
        assert(fields.drop_last().take(i) =~= fields.take(i));
        wrong_value_decides(fields.drop_last(), i, e);
    }
}

proof fn keys_stay(fields: Seq<(Seq<char>, Seq<char>)>)
    requires
        string_values(fields) is Ok,
    ensures
        string_values(fields)->Ok_0.len() == fields.len(),
        forall|i: int|
            0 <= i < fields.len() ==> (#[trigger] string_values(fields)->Ok_0[i]).0 == fields[i].0,
    decreases fields.len(),
{
    if fields.len() > 0 {
        keys_stay(fields.drop_last());
    }
}

/// The texts of a map of strings.
pub open spec fn texts(m: OrdMap<String>) -> Map<Seq<char>, Seq<char>> {
    m@.map_values(|s: String| s@)
}

/// The map of strings that a text is.
pub(crate) fn read_string_map(text: &str) -> (r: Result<OrdMap<String>, String>)
    ensures
        match r {
            Ok(m) => string_map_in(text@) matches Ok(entries) && texts(m) == ordmap::as_map(
                entries,
            ),
            Err(e) => bad(string_map_in(text@), e@),
        },
{
    let fields: Vec<(String, String)> = match read_fields(text) {
        Ok(fields) => fields,
        Err(e) => {
            return Err(e);
        },
    };
    let ghost all = pairs(fields@);
    let ghost f = |s: String| s@;
    let mut out: OrdMap<String> = OrdMap::new();
    let ghost mut entries: Seq<(Seq<char>, Seq<char>)> = Seq::empty();
    let mut i: usize = 0;
    proof {
        assert(all.take(0) =~= Seq::<(Seq<char>, Seq<char>)>::empty());
        assert(texts(out) =~= ordmap::as_map(entries));
    }
    while i < fields.len()
        invariant
            i <= fields@.len(),
            all == pairs(fields@),
            f == (|s: String| s@),
            ordmap::increasing(all),
            ok(fields_in(text@), all),
            ok(string_values(all.take(i as int)), entries),
            texts(out) == ordmap::as_map(entries),
        decreases fields@.len() - i,
    {
        assert(all[i as int] == (fields@[i as int].0@, fields@[i as int].1@));
        match read_string(fields[i].1.as_str()) {
            Ok(s) => {
                let key: String = fields[i].0.as_str().to_owned();
                let ghost before = out@;
                let ghost added = entries.push((key@, s@));
                proof {
                    assert(all.take(i + 1).drop_last() =~= all.take(i as int));
                    assert(ok(string_values(all.take(i + 1)), added));
                    keys_stay(all.take(i + 1));
                    assert forall|a: int, b: int| 0 <= a < b < added.len() implies text::less(
                        #[trigger] added[a].0,
                        #[trigger] added[b].0,
                    ) by {
                        assert(added[a].0 == all.take(i + 1)[a].0);
                        assert(added[b].0 == all.take(i + 1)[b].0);
                        assert(text::less(all[a].0, all[b].0));
                    }
                    ordmap::as_map_grows(entries, key@, s@);
                    assert(before.insert(key@, s).map_values(f) =~= before.map_values(f).insert(
                        key@,
                        s@,
                    ));
                }
                out.insert(key, s);
                proof {
                    entries = added;
                }
            },
            Err(e) => {
                proof {
                    wrong_value_decides(all, i as int, e@);
                }
                return Err(e);
            },
        }
        i = i + 1;
    }
    assert(all.take(i as int) =~= all);
    Ok(out)
}

/// The entries of a map of strings, as texts, in the order of their keys.
pub open spec fn entries(m: OrdMap<String>) -> Seq<(Seq<char>, Seq<char>)> {
    m.items().map_values(|e: (Seq<char>, String)| (e.0, e.1@))
}

proof fn entries_are_the_texts(m: OrdMap<String>)
    requires
        ordmap::increasing(m.items()),
    ensures
        ordmap::increasing(entries(m)),
        ordmap::as_map(entries(m)) == texts(m),
{
    let items = m.items();
    let es = entries(m);
    assert forall|a: int, b: int| 0 <= a < b < es.len() implies text::less(
        #[trigger] es[a].0,
        #[trigger] es[b].0,
    ) by {
        assert(text::less(items[a].0, items[b].0));
    }
    assert forall|k: Seq<char>| ordmap::as_map(es).contains_key(k) == texts(m).contains_key(k) by {
        if ordmap::as_map(es).contains_key(k) {
            let i = choose|i: int| ordmap::key_at(es, k, i);
            assert(ordmap::key_at(items, k, i));
        }
        if m@.contains_key(k) {
            let i = choose|i: int| ordmap::key_at(items, k, i);
            assert(ordmap::key_at(es, k, i));
        }
    }
    assert forall|k: Seq<char>| ordmap::as_map(es).contains_key(k) implies ordmap::as_map(es)[k]
        == texts(m)[k] by {
        let i = choose|i: int| ordmap::key_at(es, k, i);
        assert(ordmap::key_at(items, k, i));
        ordmap::entry_in_map(es, i);
        ordmap::entry_in_map(items, i);
    }
    assert(ordmap::as_map(es) =~= texts(m));
}

/// The text of a map of strings, which is read as that map.
pub(crate) fn print_map(m: &OrdMap<String>) -> (r: Printed)
    ensures
        r@ == object_text(printed_values(entries(*m))),
        string_map_in(r@) matches Ok(es) && ordmap::as_map(es) == texts(*m),
        one_line(r@),
{
    let n: usize = m.len();
    let mut out: Vec<(String, String)> = Vec::new();
    let ghost all = entries(*m);
    let mut i: usize = 0;
    assert(pairs(out@) =~= all.take(0));
    while i < n
        invariant
            i <= n,
            n == m.items().len(),
            all == entries(*m),
            pairs(out@) == all.take(i as int),
        decreases n - i,
    {
        let key: String = m.key(i).to_owned();
        let value: String = m.value(i).as_str().to_owned();
        let ghost before = pairs(out@);
        let ghost added = (key@, value@);
        out.push((key, value));
        assert(pairs(out@) =~= before.push(added));
        assert(all.take(i + 1) =~= all.take(i as int).push(all[i as int]));
        i = i + 1;
    }
    proof {
        assert(all.take(i as int) =~= all);
        entries_are_the_texts(*m);
    }
    print_string_map(&out)
}

/// A character is found behind gaps, and behind nothing else.
pub proof fn only_gaps_are_passed_over(gaps: Seq<char>, c: char, rest: Seq<char>)
    requires
        forall|i: int|
            0 <= i < gaps.len() ==> #[trigger] gaps[i] == ' ' || gaps[i] == '\n' || gaps[i] == '\t'
                || gaps[i] == '\r',
        c != ' ',
        c != '\n',
        c != '\t',
        c != '\r',
    ensures
        behind(gaps + seq![c] + rest, c) == Some(rest),
        behind(gaps, c) is None,
        rest.len() > 0 && rest[0] != c && rest[0] != ' ' && rest[0] != '\n' && rest[0] != '\t'
            && rest[0] != '\r' ==> behind(gaps + rest, c) is None,
    decreases gaps.len(),
{
    let all = gaps + seq![c] + rest;
    if gaps.len() == 0 {
        assert(all[0] == c);
        assert(all.skip(1) =~= rest);
        assert(gaps + rest =~= rest);
    } else {
        let tail = gaps.skip(1);
        assert(all[0] == gaps[0]);
        assert((gaps + rest)[0] == gaps[0]);
        assert(all.skip(1) =~= tail + seq![c] + rest);
        assert((gaps + rest).skip(1) =~= tail + rest);
        assert forall|i: int| 0 <= i < tail.len() implies #[trigger] tail[i] == ' ' || tail[i]
            == '\n' || tail[i] == '\t' || tail[i] == '\r' by {
            assert(tail[i] == gaps[i + 1]);
        }
        only_gaps_are_passed_over(tail, c, rest);
    }
}

/// Of several values under a key the last is taken.
pub proof fn the_last_of_a_key_is_taken(
    fields: Seq<(Seq<char>, Seq<char>)>,
    key: Seq<char>,
    value: Seq<char>,
    other: Seq<char>,
)
    requires
        other != key,
    ensures
        last_under(Seq::empty(), key) is None,
        last_under(fields.push((key, value)), key) == Some(value),
        last_under(fields.push((other, value)), key) == last_under(fields, key),
{
    assert(fields.push((key, value)).drop_last() =~= fields);
    assert(fields.push((other, value)).drop_last() =~= fields);
}

/// A record is refused exactly where one of its own keys comes twice; other keys may come
/// as often as they like.
pub proof fn only_a_known_key_may_not_repeat(
    fields: Seq<(Seq<char>, Seq<char>)>,
    keys: Seq<Seq<char>>,
)
    ensures
        first_repeated(fields, keys) is None <==> forall|i: int, j: int|
            0 <= i < j < fields.len() && (#[trigger] fields[i]).0 == (#[trigger] fields[j]).0
                ==> !keys.contains(fields[j].0),
    decreases fields.len(),
{
    if fields.len() > 0 {
        let front = fields.drop_last();
        let n = fields.len() - 1;
        only_a_known_key_may_not_repeat(front, keys);
        assert forall|i: int| 0 <= i < n implies #[trigger] front[i] == fields[i] by {}
        if first_repeated(fields, keys) is None {
            assert forall|i: int, j: int|
                0 <= i < j < fields.len() && (#[trigger] fields[i]).0 == (#[trigger] fields[j]).0
                implies !keys.contains(fields[j].0) by {
                if j < n {
                    assert(front[i].0 == front[j].0);
                } else {
                    assert(front[i].0 == fields.last().0);
                    assert(under(front, fields.last().0));
                }
            }
        } else {
            if first_repeated(front, keys) is Some {
                let (i, j) = choose|i: int, j: int|
                    0 <= i < j < front.len() && (#[trigger] front[i]).0 == (#[trigger] front[j]).0
                        && keys.contains(front[j].0);
                assert(fields[i].0 == fields[j].0 && keys.contains(fields[j].0));
            } else {
                let i = choose|i: int|
                    0 <= i < front.len() && (#[trigger] front[i]).0 == fields.last().0;
                assert(fields[i].0 == fields[n].0 && keys.contains(fields[n].0));
            }
        }
    }
}

/// A record that is written as a list has its values in the order of its keys.
pub proof fn a_list_is_in_the_order_of_the_keys(
    text: Seq<char>,
    what: Seq<char>,
    keys: Seq<Seq<char>>,
    items: Seq<Seq<char>>,
    i: int,
)
    requires
        members_in(text) is Err,
        ok(elements_in(text), items),
        items.len() == keys.len(),
        0 <= i < keys.len(),
    ensures
        record_in(text, what, keys, keys.len(), false) matches Ok(fields) && fields.len()
            == keys.len() && fields[i] == (keys[i], items[i]),
        record_in(text, what, keys, keys.len() + 1, false) is Err,
{
}

/// A field that must be there is missed by its name; one that need not be is nothing; and
/// one that is there is read.
pub proof fn a_field_is_read_where_it_is_there(
    fields: Seq<(Seq<char>, Seq<char>)>,
    i: int,
    key: Seq<char>,
)
    requires
        distinct(fields),
        0 <= i < fields.len(),
        forall|j: int| 0 <= j < fields.len() ==> (#[trigger] fields[j]).0 != key,
    ensures
        text_field(fields, fields[i].0) == string_in(fields[i].1),
        bad(text_field(fields, key), "missing field `"@ + key + seq!['`']),
        ok(given_text(fields, key), None),
        string_in(fields[i].1) matches Ok(s) ==> ok(given_text(fields, fields[i].0), Some(s)),
        string_in(fields[i].1) matches Err(e) ==> bad(given_text(fields, fields[i].0), e),
{
    reveal_strlit("`");
    assert("`"@ =~= seq!['`']);
    field_at(fields, i);
    no_field(fields, key);
}

/// A list is its items in brackets, an object its fields in braces, with commas between.
pub proof fn lists_and_objects_are_punctuated(
    items: Seq<Seq<char>>,
    item: Seq<char>,
    fields: Seq<(Seq<char>, Seq<char>)>,
    key: Seq<char>,
    value: Seq<char>,
)
    ensures
        list_text(Seq::empty()) == seq!['[', ']'],
        list_text(seq![item]) == seq!['['] + item + seq![']'],
        items.len() > 0 ==> list_text(items.push(item)) == list_text(items).drop_last() + seq![',']
            + item + seq![']'],
        object_text(Seq::empty()) == seq!['{', '}'],
        object_text(seq![(key, value)]) == seq!['{'] + string_text(key) + seq![':'] + value + seq![
            '}',
        ],
        fields.len() > 0 ==> object_text(fields.push((key, value))) == object_text(
            fields,
        ).drop_last() + seq![','] + string_text(key) + seq![':'] + value + seq!['}'],
        printed_values(fields.push((key, value))) == printed_values(fields).push(
            (key, string_text(value)),
        ),
{
    reveal_strlit("[");
    reveal_strlit("]");
    reveal_strlit("{");
    reveal_strlit("}");
    reveal_strlit(",");
    reveal_strlit(":");
    reveal_with_fuel(text::joined, 2);
    let none = Seq::<Seq<char>>::empty();
    assert(list_text(none) =~= seq!['[', ']']);
    assert(list_text(seq![item]) =~= seq!['['] + item + seq![']']);
    if items.len() > 0 {
        assert(items.push(item) =~= items + seq![item]);
        text::join_parts(items, seq![item], ","@);
        assert(list_text(items.push(item)) =~= list_text(items).drop_last() + seq![','] + item
            + seq![']']);
    }
    let show = |e: (Seq<char>, Seq<char>)| string_text(e.0) + ":"@ + e.1;
    let nothing = Seq::<(Seq<char>, Seq<char>)>::empty();
    assert(nothing.map_values(show) =~= none);
    assert(object_text(nothing) =~= seq!['{', '}']);
    let one = string_text(key) + ":"@ + value;
    assert(seq![(key, value)].map_values(show) =~= seq![one]);
    assert(object_text(seq![(key, value)]) =~= seq!['{'] + string_text(key) + seq![':'] + value
        + seq!['}']);
    if fields.len() > 0 {
        let a = fields.map_values(show);
        assert(fields.push((key, value)).map_values(show) =~= a + seq![one]);
        text::join_parts(a, seq![one], ","@);
        assert(object_text(fields.push((key, value))) =~= object_text(fields).drop_last() + seq![
            ',',
        ] + string_text(key) + seq![':'] + value + seq!['}']);
    }
    assert(printed_values(fields.push((key, value))) =~= printed_values(fields).push(
        (key, string_text(value)),
    ));
}

/// A field that may be null is nothing where it is null or not there, and else what stands
/// there; a number that must be there has thirty-two bits.
pub proof fn null_is_nothing(
    fields: Seq<(Seq<char>, Seq<char>)>,
    i: int,
    key: Seq<char>,
)
    requires
        distinct(fields),
        0 <= i < fields.len(),
        forall|j: int| 0 <= j < fields.len() ==> (#[trigger] fields[j]).0 != key,
    ensures
        ok(maybe_text(fields, key), None),
        ok(maybe_whole(fields, key), None),
        string_in(fields[i].1) matches Ok(s) ==> ok(maybe_text(fields, fields[i].0), Some(s)),
        whole_in(fields[i].1) matches Ok(n) ==> ok(maybe_whole(fields, fields[i].0), Some(n)),
        string_in(fields[i].1) is Err && fields[i].1 == "null"@ ==> ok(
            maybe_text(fields, fields[i].0),
            None,
        ),
        whole_in(fields[i].1) is Err && fields[i].1 == "null"@ ==> ok(
            maybe_whole(fields, fields[i].0),
            None,
        ),
        string_in(fields[i].1) matches Err(e) ==> (fields[i].1 != "null"@ ==> bad(
            maybe_text(fields, fields[i].0),
            e,
        )),
        number_field(fields, key) is Err,
        whole_in(fields[i].1) matches Ok(n) ==> (number_field(fields, fields[i].0) is Ok <==> n
            < 0x1_0000_0000),
        whole_in(fields[i].1) matches Ok(n) ==> (number_field(fields, fields[i].0) matches Ok(m)
            ==> m == n),
{
    field_at(fields, i);
    no_field(fields, key);
}

/// A list of strings is read item by item, and is one exactly where every item is a string;
/// so is an object of strings, each under its own key.
pub proof fn strings_are_read_one_by_one(
    items: Seq<Seq<char>>,
    fields: Seq<(Seq<char>, Seq<char>)>,
    key: Seq<char>,
    value: Seq<char>,
    front: Seq<Seq<char>>,
    entries: Seq<(Seq<char>, Seq<char>)>,
)
    ensures
        ok(strings_of(Seq::empty()), Seq::<Seq<char>>::empty()),
        ok(strings_of(items), front) && string_in(value) is Ok ==> ok(
            strings_of(items.push(value)),
            front.push(string_in(value)->Ok_0),
        ),
        strings_of(items) is Err || string_in(value) is Err ==> strings_of(items.push(value))
            is Err,
        ok(string_values(Seq::empty()), Seq::<(Seq<char>, Seq<char>)>::empty()),
        ok(string_values(fields), entries) && string_in(value) is Ok ==> ok(
            string_values(fields.push((key, value))),
            entries.push((key, string_in(value)->Ok_0)),
        ),
        string_values(fields) is Err || string_in(value) is Err ==> string_values(
            fields.push((key, value)),
        ) is Err,
{
    assert(items.push(value).drop_last() =~= items);
    assert(fields.push((key, value)).drop_last() =~= fields);
}

/// Members and elements stand one after another with commas between, each without the white
/// space around it.
pub proof fn members_come_one_after_another(
    text: Seq<char>,
    name: Seq<char>,
    after: Seq<char>,
    key: Seq<char>,
    rest: Seq<char>,
    value: Seq<char>,
    last: Seq<char>,
    next: Seq<char>,
)
    requires
        first_in(text) == Some((name, after)),
        ok(string_in(name), key),
        behind(after, ':') == Some(rest),
        first_in(rest) == Some((value, last)),
    ensures
        behind(last, ',') == Some(next) && next.len() < text.len() ==> members_from(text) == seq![
            (key, text::trim(value)),
        ] + members_from(next),
        behind(last, ',') is None ==> members_from(text) == seq![(key, text::trim(value))],
        behind(after, ',') == Some(next) && next.len() < text.len() ==> elements_from(text) == seq![
            text::trim(name),
        ] + elements_from(next),
        behind(after, ',') is None ==> elements_from(text) == seq![text::trim(name)],
        first_in(next) is None ==> members_from(next).len() == 0 && elements_from(next).len() == 0,
{
}

/// What is read of a text is what stands inside its braces or brackets, where it is an object
/// or a list at all.
pub proof fn what_stands_inside_is_read(
    text: Seq<char>,
    fields: Seq<(Seq<char>, Seq<char>)>,
    items: Seq<Seq<char>>,
    inside: Seq<char>,
    why: Seq<char>,
)
    ensures
        ok(fields_in(text), fields) && behind(text, '{') == Some(inside) ==> ok(
            members_in(text),
            members_from(inside),
        ),
        bad(fields_in(text), why) ==> bad(members_in(text), why),
        ok(items_in(text), items) && behind(text, '[') == Some(inside) ==> ok(
            elements_in(text),
            elements_from(inside),
        ),
        bad(items_in(text), why) ==> bad(elements_in(text), why),
{
}

} // verus!
