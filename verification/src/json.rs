//! JSON values as plain data, with their text form produced and read by
//! `serde_json`.

use vstd::prelude::*;
use vstd::string::*;
use crate::text::str_eq;

verus! {

/// A JSON value held as plain data.
///
/// Whole numbers are kept exactly: `Unsigned` holds the non-negative ones,
/// `Negative` those below zero. A number with a fraction or an exponent is
/// `Real`, and its digits are not kept.
#[derive(Debug)]
pub enum Json {
    Null,
    Bool(bool),
    Unsigned(u64),
    Negative(i64),
    Real,
    Text(String),
    List(Vec<Json>),
    Object(Vec<(String, Json)>),
}

/// The mathematical value of a [`Json`].
pub enum JsonValue {
    Null,
    Bool(bool),
    Unsigned(int),
    Negative(int),
    Real,
    Text(Seq<char>),
    List(Seq<JsonValue>),
    Object(Seq<(Seq<char>, JsonValue)>),
}

/// The mathematical value that a [`Json`] stands for.
pub open spec fn json_value(value: Json) -> JsonValue
    decreases value,
{
    match value {
        Json::Null => JsonValue::Null,
        Json::Bool(b) => JsonValue::Bool(b),
        Json::Unsigned(n) => JsonValue::Unsigned(n as int),
        Json::Negative(n) => JsonValue::Negative(n as int),
        Json::Real => JsonValue::Real,
        Json::Text(s) => JsonValue::Text(s@),
        Json::List(items) => JsonValue::List(
            Seq::new(
                items.len() as nat,
                |i: int|
                    if 0 <= i < items.len() {
                        json_value(items[i])
                    } else {
                        JsonValue::Null
                    },
            ),
        ),
        Json::Object(fields) => JsonValue::Object(
            Seq::new(
                fields.len() as nat,
                |i: int|
                    if 0 <= i < fields.len() {
                        (fields[i].0@, json_value(fields[i].1))
                    } else {
                        (Seq::empty(), JsonValue::Null)
                    },
            ),
        ),
    }
}

impl View for Json {
    type V = JsonValue;

    open spec fn view(&self) -> JsonValue {
        json_value(*self)
    }
}

impl JsonValue {
    /// The value under `key` where this is an object that has the key; the
    /// first such entry counts.
    pub open spec fn field(self, key: Seq<char>) -> Option<JsonValue> {
        match self {
            JsonValue::Object(fields) => lookup(fields, key),
            _ => None,
        }
    }

    /// Whether lists and objects are nested at most `depth` deep in the value.
    pub open spec fn nesting_within(self, depth: nat) -> bool
        decreases depth,
    {
        match self {
            JsonValue::List(items) => depth > 0 && forall|i: int|
                0 <= i < items.len() ==> (#[trigger] items[i]).nesting_within((depth - 1) as nat),
            JsonValue::Object(fields) => depth > 0 && forall|i: int|
                0 <= i < fields.len() ==> (#[trigger] fields[i]).1.nesting_within(
                    (depth - 1) as nat,
                ),
            _ => true,
        }
    }

    /// Whether writing this value and reading the text again gives the value
    /// back: no `Real`, each whole number in the variant of its sign and
    /// within 64 bits, and no key twice in one object.
    pub open spec fn is_canonical(self) -> bool
        decreases self,
    {
        match self {
            JsonValue::Null => true,
            JsonValue::Bool(_) => true,
            JsonValue::Unsigned(n) => 0 <= n <= u64::MAX,
            JsonValue::Negative(n) => i64::MIN <= n < 0,
            JsonValue::Real => false,
            JsonValue::Text(_) => true,
            JsonValue::List(items) => forall|i: int|
                0 <= i < items.len() ==> (#[trigger] items[i]).is_canonical(),
            JsonValue::Object(fields) => {
                &&& distinct_keys(fields)
                &&& forall|i: int|
                    0 <= i < fields.len() ==> (#[trigger] fields[i]).1.is_canonical()
            },
        }
    }
}

/// A whole number of either sign, in the variant of its sign.
pub open spec fn signed_json(n: int) -> JsonValue {
    if n >= 0 {
        JsonValue::Unsigned(n)
    } else {
        JsonValue::Negative(n)
    }
}

/// The value of the first entry of `fields` whose key is `key`.
pub open spec fn lookup(fields: Seq<(Seq<char>, JsonValue)>, key: Seq<char>) -> Option<JsonValue>
    decreases fields.len(),
{
    if fields.len() == 0 {
        None
    } else if fields[0].0 == key {
        Some(fields[0].1)
    } else {
        lookup(fields.drop_first(), key)
    }
}

/// No two entries of `fields` have the same key.
pub open spec fn distinct_keys(fields: Seq<(Seq<char>, JsonValue)>) -> bool {
    forall|i: int, j: int|
        0 <= i < j < fields.len() ==> (#[trigger] fields[i]).0 != (#[trigger] fields[j]).0
}

/// In an object without a repeated key, looking up the key of an entry finds
/// that entry's value.
pub proof fn lemma_lookup_entry(fields: Seq<(Seq<char>, JsonValue)>, i: int)
    requires
        distinct_keys(fields),
        0 <= i < fields.len(),
    ensures
        lookup(fields, fields[i].0) == Some(fields[i].1),
    decreases i,
{
    if i > 0 {
        let rest = fields.drop_first();
        assert(fields[0].0 != fields[i].0);
        assert forall|a: int, b: int| 0 <= a < b < rest.len() implies (#[trigger] rest[a]).0 != (
        #[trigger] rest[b]).0 by {
            assert(rest[a] == fields[a + 1]);
            assert(rest[b] == fields[b + 1]);
        }
        assert(rest[i - 1] == fields[i]);
        lemma_lookup_entry(rest, i - 1);
    }
}

/// A list is nested within a depth where each of its items is nested within
/// one less.
pub proof fn lemma_nesting_of_list(items: Seq<JsonValue>, depth: nat)
    ensures
        JsonValue::List(items).nesting_within(depth) == (depth > 0 && forall|k: int|
            0 <= k < items.len() ==> (#[trigger] items[k]).nesting_within((depth - 1) as nat)),
{
    assert(JsonValue::List(items)->List_0 == items);
}

/// An object is nested within a depth where each of its values is nested
/// within one less.
pub proof fn lemma_nesting_of_object(fields: Seq<(Seq<char>, JsonValue)>, depth: nat)
    ensures
        JsonValue::Object(fields).nesting_within(depth) == (depth > 0 && forall|k: int|
            0 <= k < fields.len() ==> (#[trigger] fields[k]).1.nesting_within((depth - 1) as nat)),
{
    assert(JsonValue::Object(fields)->Object_0 == fields);
}

/// A value nested within a depth is nested within every greater depth.
pub proof fn lemma_nesting_grows(value: JsonValue, depth: nat, more: nat)
    requires
        value.nesting_within(depth),
        depth <= more,
    ensures
        value.nesting_within(more),
    decreases depth,
{
    match value {
        JsonValue::List(items) => {
            assert forall|i: int| 0 <= i < items.len() implies (#[trigger] items[i]).nesting_within(
                (more - 1) as nat,
            ) by {
                lemma_nesting_grows(items[i], (depth - 1) as nat, (more - 1) as nat);
            }
        },
        JsonValue::Object(fields) => {
            assert forall|i: int| 0 <= i < fields.len() implies (
            #[trigger] fields[i]).1.nesting_within((more - 1) as nat) by {
                lemma_nesting_grows(fields[i].1, (depth - 1) as nat, (more - 1) as nat);
            }
        },
        _ => {},
    }
}

/// How deep lists and objects may be nested in a value that is written.
pub const MAX_NESTING: u64 = 64;

/// What `serde_json::to_vec` gives for a value: the text that it writes, or
/// nothing where it refuses the value.
pub uninterp spec fn json_written(value: JsonValue) -> Option<Seq<u8>>;

/// The text that `serde_json` writes for a value; the empty text stands for
/// the text of a value that it refuses.
pub open spec fn json_text(value: JsonValue) -> Seq<u8> {
    match json_written(value) {
        Some(text) => text,
        None => Seq::empty(),
    }
}

/// The value that `serde_json` reads from a text, where the text is JSON.
pub uninterp spec fn json_parse(text: Seq<u8>) -> Option<JsonValue>;

/// `serde_json::Value`, held as it is: nothing of what is inside is known here.
#[verifier::external_type_specification]
#[verifier::external_body]
pub struct ExSerdeValue(serde_json::Value);

/// `serde_json::Error`, held as it is: only its message is ever taken from it.
#[verifier::external_type_specification]
#[verifier::external_body]
pub struct ExSerdeError(serde_json::Error);

/// Builds the `serde_json::Value` that stands for `value`, variant by
/// variant; `Real`, whose digits are not kept, becomes `null`. Nothing is
/// claimed of the result here: [`encode`] states what is written for it.
#[verifier::external_body]
fn serde_value_of(value: &Json) -> serde_json::Value {
    match value {
        Json::Null | Json::Real => serde_json::Value::Null,
        Json::Bool(b) => serde_json::Value::Bool(*b),
        Json::Unsigned(n) => serde_json::Value::from(*n),
        Json::Negative(n) => serde_json::Value::from(*n),
        Json::Text(s) => serde_json::Value::String(s.clone()),
        Json::List(items) => serde_json::Value::Array(items.iter().map(serde_value_of).collect()),
        Json::Object(fields) => serde_json::Value::Object(
            fields.iter().map(|f| (f.0.clone(), serde_value_of(&f.1))).collect(),
        ),
    }
}

/// Takes a `serde_json::Value` apart into a [`Json`], variant by variant. A
/// number is `Unsigned` where `as_u64` gives it, `Negative` where only
/// `as_i64` does, else `Real`. Nothing is claimed of the result here:
/// [`decode`] states what is read.
#[verifier::external_body]
fn json_of_serde_value(value: serde_json::Value) -> Json {
    match value {
        serde_json::Value::Null => Json::Null,
        serde_json::Value::Bool(b) => Json::Bool(b),
        serde_json::Value::Number(n) => match (n.as_u64(), n.as_i64()) {
            (Some(u), _) => Json::Unsigned(u),
            (None, Some(i)) => Json::Negative(i),
            (None, None) => Json::Real,
        },
        serde_json::Value::String(s) => Json::Text(s),
        serde_json::Value::Array(items) => Json::List(items.into_iter().map(json_of_serde_value).collect()),
        serde_json::Value::Object(m) => Json::Object(
            m.into_iter().map(|f| (f.0, json_of_serde_value(f.1))).collect(),
        ),
    }
}

/// `serde_json::to_vec` on the value: the bytes are the text it writes, and
/// whether it writes or refuses lies with the value alone. For a canonical
/// value, `serde_json::from_slice` reads that value back from the bytes, with
/// the entries of each object in the order in which they were written. The
/// reader gives up on text nested deeper than 128 levels, so the value stays
/// well below that.
#[verifier::external_body]
fn serde_to_vec(value: &Json) -> (r: Result<Vec<u8>, serde_json::Error>)
    requires
        value@.nesting_within(MAX_NESTING as nat),
    ensures
        match r {
            Ok(bytes) => {
                &&& json_written(value@) == Some(bytes@)
                &&& value@.is_canonical() ==> json_parse(bytes@) == Some(value@)
            },
            Err(_) => json_written(value@) is None,
        },
{
    serde_json::to_vec(&serde_value_of(value))
}

/// `serde_json::from_slice` into a `serde_json::Value`: the value read where
/// the text is one JSON value, an error where it is not. No object that was
/// read has a key twice.
#[verifier::external_body]
fn serde_from_slice(text: &[u8]) -> (r: Result<Json, serde_json::Error>)
    ensures
        match r {
            Ok(value) => json_parse(text@) == Some(value@) && keys_are_distinct(value@),
            Err(_) => json_parse(text@) is None,
        },
{
    serde_json::from_slice::<serde_json::Value>(text).map(json_of_serde_value)
}

/// What `serde_json::to_string_pretty` gives for a value: the text that it
/// writes for reading, with line breaks and indentation, or nothing where it
/// refuses the value.
pub uninterp spec fn json_pretty_written(value: JsonValue) -> Option<Seq<char>>;

/// `serde_json::to_string_pretty` on the value: the text it writes; whether
/// it writes or refuses lies with the value alone.
#[verifier::external_body]
fn serde_to_string_pretty(value: &Json) -> (r: Result<String, serde_json::Error>)
    requires
        value@.nesting_within(MAX_NESTING as nat),
    ensures
        match r {
            Ok(text) => json_pretty_written(value@) == Some(text@),
            Err(_) => json_pretty_written(value@) is None,
        },
{
    serde_json::to_string_pretty(&serde_value_of(value))
}

/// `to_string` on the error, which writes its `Display` form.
#[verifier::external_body]
fn serde_error_text(e: &serde_json::Error) -> String {
    e.to_string()
}

/// No object anywhere in the value has a key twice.
pub open spec fn keys_are_distinct(value: JsonValue) -> bool
    decreases value,
{
    match value {
        JsonValue::List(items) => forall|i: int|
            0 <= i < items.len() ==> keys_are_distinct(#[trigger] items[i]),
        JsonValue::Object(fields) => {
            &&& distinct_keys(fields)
            &&& forall|i: int|
                0 <= i < fields.len() ==> keys_are_distinct((#[trigger] fields[i]).1)
        },
        _ => true,
    }
}

/// Why a text could not be written or read as JSON.
#[derive(Debug)]
pub enum JsonError {
    /// The value could not be written; the message is the writer's.
    Write(String),
    /// The text is not one JSON value; the message is the reader's.
    Read(String),
}

/// The JSON text of a value. A value in which lists and objects are nested
/// more than [`MAX_NESTING`] deep is not written, nor one that the writer
/// refuses.
pub fn encode(value: &Json) -> (r: Result<Vec<u8>, JsonError>)
    ensures
        match r {
            Ok(bytes) => {
                &&& value@.nesting_within(MAX_NESTING as nat)
                &&& json_written(value@) == Some(bytes@)
                &&& bytes@ == json_text(value@)
                &&& value@.is_canonical() ==> json_parse(bytes@) == Some(value@)
            },
            Err(e) => e is Write && (!value@.nesting_within(MAX_NESTING as nat) || json_written(
                value@,
            ) is None),
        },
{
    if !value.is_nested_within(MAX_NESTING) {
        return Err(JsonError::Write(String::from_str("the value is nested too deep")));
    }
    match serde_to_vec(value) {
        Ok(bytes) => Ok(bytes),
        Err(e) => Err(JsonError::Write(serde_error_text(&e))),
    }
}

/// The JSON text of a value, written for reading. A value in which lists
/// and objects are nested more than [`MAX_NESTING`] deep is not written, nor
/// one that the writer refuses.
pub fn encode_pretty(value: &Json) -> (r: Result<String, JsonError>)
    ensures
        match r {
            Ok(text) => value@.nesting_within(MAX_NESTING as nat) && json_pretty_written(value@)
                == Some(text@),
            Err(e) => e is Write && (!value@.nesting_within(MAX_NESTING as nat)
                || json_pretty_written(value@) is None),
        },
{
    if !value.is_nested_within(MAX_NESTING) {
        return Err(JsonError::Write(String::from_str("the value is nested too deep")));
    }
    match serde_to_string_pretty(value) {
        Ok(text) => Ok(text),
        Err(e) => Err(JsonError::Write(serde_error_text(&e))),
    }
}

/// The value that a JSON text holds; `Read` exactly where the text is not
/// one JSON value.
pub fn decode(text: &[u8]) -> (r: Result<Json, JsonError>)
    ensures
        match r {
            Ok(value) => json_parse(text@) == Some(value@) && keys_are_distinct(value@),
            Err(e) => e is Read && json_parse(text@) is None,
        },
{
    match serde_from_slice(text) {
        Ok(value) => Ok(value),
        Err(e) => Err(JsonError::Read(serde_error_text(&e))),
    }
}

impl JsonValue {
    /// The text under `key`: `Some` exactly where the entry is there and is text.
    pub open spec fn text_at(self, key: Seq<char>) -> Option<Seq<char>> {
        match self.field(key) {
            Some(JsonValue::Text(s)) => Some(s),
            _ => None,
        }
    }

    /// The text under `key` where it may be left out: an absent entry and
    /// `null` both read as no text. `None` where the entry holds anything else.
    pub open spec fn optional_text_at(self, key: Seq<char>) -> Option<Option<Seq<char>>> {
        match self.field(key) {
            None => Some(None),
            Some(JsonValue::Null) => Some(None),
            Some(JsonValue::Text(s)) => Some(Some(s)),
            _ => None,
        }
    }

    /// The truth value under `key`.
    pub open spec fn bool_at(self, key: Seq<char>) -> Option<bool> {
        match self.field(key) {
            Some(JsonValue::Bool(b)) => Some(b),
            _ => None,
        }
    }

    /// The whole number under `key`, of either sign, where it lies from `min`
    /// to `max`.
    pub open spec fn signed_at(self, key: Seq<char>, min: int, max: int) -> Option<int> {
        match self.field(key) {
            Some(JsonValue::Unsigned(n)) => if n <= max {
                Some(n)
            } else {
                None
            },
            Some(JsonValue::Negative(n)) => if min <= n {
                Some(n)
            } else {
                None
            },
            _ => None,
        }
    }

    /// The whole number under `key`, where it is not negative and at most `max`.
    pub open spec fn unsigned_at(self, key: Seq<char>, max: int) -> Option<int> {
        match self.field(key) {
            Some(JsonValue::Unsigned(n)) => if n <= max {
                Some(n)
            } else {
                None
            },
            _ => None,
        }
    }
}

impl Json {
    /// The value under `key`, where this is an object with such an entry.
    pub fn get(&self, key: &str) -> (r: Option<&Json>)
        ensures
            match r {
                Some(v) => self@.field(key@) == Some(v@),
                None => self@.field(key@) is None,
            },
    {
        match self {
            Json::Object(fields) => {
                let ghost all = self@->Object_0;
                proof {
                    reveal_with_fuel(json_value, 2);
                    assert(self.view() is Object);
                    assert(all.len() == fields.len());
                    assert(all.skip(0) =~= all);
                }
                let mut i: usize = 0;
                while i < fields.len()
                    invariant
                        i <= fields.len(),
                        self@ == JsonValue::Object(all),
                        all.len() == fields.len(),
                        forall|j: int|
                            0 <= j < fields.len() ==> all[j] == (
                                (#[trigger] fields[j]).0@,
                                fields[j].1@,
                            ),
                        lookup(all, key@) == lookup(all.skip(i as int), key@),
                    decreases fields.len() - i,
                {
                    proof {
                        assert(all.skip(i as int)[0] == all[i as int]);
                        assert(all.skip(i as int).drop_first() =~= all.skip(i as int + 1));
                    }
                    if str_eq(fields[i].0.as_str(), key) {
                        assert(lookup(all.skip(i as int), key@) == Some(all[i as int].1));
                        return Some(&fields[i].1);
                    }
                    assert(lookup(all.skip(i as int), key@) == lookup(
                        all.skip(i as int + 1),
                        key@,
                    ));
                    i += 1;
                }
                None
            },
            _ => None,
        }
    }

    /// Whether lists and objects are nested at most `depth` deep in the
    /// value.
    pub fn is_nested_within(&self, depth: u64) -> (r: bool)
        ensures
            r == self@.nesting_within(depth as nat),
        decreases depth,
    {
        match self {
            Json::List(items) => {
                if depth == 0 {
                    return false;
                }
                let ghost all = self@->List_0;
                proof {
                    reveal_with_fuel(json_value, 2);
                    assert(all.len() == items.len());
                }
                let mut i: usize = 0;
                while i < items.len()
                    invariant
                        i <= items.len(),
                        depth > 0,
                        self@ == JsonValue::List(all),
                        all.len() == items.len(),
                        forall|k: int|
                            0 <= k < items.len() ==> all[k] == json_value(#[trigger] items[k]),
                        forall|k: int|
                            0 <= k < i ==> (#[trigger] all[k]).nesting_within((depth - 1) as nat),
                    decreases items.len() - i,
                {
                    if !items[i].is_nested_within(depth - 1) {
                        proof {
                            let d = depth as nat;
                            assert(all[i as int] == json_value(items[i as int]));
                            assert(!all[i as int].nesting_within((d - 1) as nat));
                            lemma_nesting_of_list(all, d);
                        }
                        return false;
                    }
                    i += 1;
                }
                true
            },
            Json::Object(fields) => {
                if depth == 0 {
                    return false;
                }
                let ghost all = self@->Object_0;
                proof {
                    reveal_with_fuel(json_value, 2);
                    assert(all.len() == fields.len());
                }
                let mut i: usize = 0;
                while i < fields.len()
                    invariant
                        i <= fields.len(),
                        depth > 0,
                        self@ == JsonValue::Object(all),
                        all.len() == fields.len(),
                        forall|k: int|
                            0 <= k < fields.len() ==> all[k].1 == json_value(
                                (#[trigger] fields[k]).1,
                            ),
                        forall|k: int|
                            0 <= k < i ==> (#[trigger] all[k]).1.nesting_within(
                                (depth - 1) as nat,
                            ),
                    decreases fields.len() - i,
                {
                    if !fields[i].1.is_nested_within(depth - 1) {
                        proof {
                            let d = depth as nat;
                            assert(all[i as int].1 == json_value(fields[i as int].1));
                            assert(!all[i as int].1.nesting_within((d - 1) as nat));
                            lemma_nesting_of_object(all, d);
                        }
                        return false;
                    }
                    i += 1;
                }
                true
            },
            _ => true,
        }
    }

    /// The text under `key`, copied out.
    pub fn text_at(&self, key: &str) -> (r: Option<String>)
        ensures
            match r {
                Some(s) => self@.text_at(key@) == Some(s@),
                None => self@.text_at(key@) is None,
            },
    {
        match self.get(key) {
            Some(Json::Text(s)) => Some(s.clone()),
            _ => None,
        }
    }

    /// The text under `key` where it may be left out, copied out.
    pub fn optional_text_at(&self, key: &str) -> (r: Option<Option<String>>)
        ensures
            match r {
                Some(Some(s)) => self@.optional_text_at(key@) == Some(Some(s@)),
                Some(None) => self@.optional_text_at(key@) == Some(None::<Seq<char>>),
                None => self@.optional_text_at(key@) is None,
            },
    {
        match self.get(key) {
            None => Some(None),
            Some(Json::Null) => Some(None),
            Some(Json::Text(s)) => Some(Some(s.clone())),
            _ => None,
        }
    }

    /// The truth value under `key`.
    pub fn bool_at(&self, key: &str) -> (r: Option<bool>)
        ensures
            r == self@.bool_at(key@),
    {
        match self.get(key) {
            Some(Json::Bool(b)) => Some(*b),
            _ => None,
        }
    }

    /// The whole number under `key`, where it is at most `max`.
    pub fn unsigned_at(&self, key: &str, max: u64) -> (r: Option<u64>)
        ensures
            match r {
                Some(n) => self@.unsigned_at(key@, max as int) == Some(n as int),
                None => self@.unsigned_at(key@, max as int) is None,
            },
    {
        match self.get(key) {
            Some(Json::Unsigned(n)) => if *n <= max {
                Some(*n)
            } else {
                None
            },
            _ => None,
        }
    }

    /// The whole number under `key`, where it lies from `min` to `max`.
    pub fn signed_at(&self, key: &str, min: i64, max: i64) -> (r: Option<i64>)
        requires
            min <= 0 <= max,
        ensures
            match r {
                Some(n) => self@.signed_at(key@, min as int, max as int) == Some(n as int),
                None => self@.signed_at(key@, min as int, max as int) is None,
            },
    {
        match self.get(key) {
            Some(Json::Unsigned(n)) => if *n <= max as u64 {
                Some(*n as i64)
            } else {
                None
            },
            Some(Json::Negative(n)) => if min <= *n {
                Some(*n)
            } else {
                None
            },
            _ => None,
        }
    }

    /// A whole number of either sign, in the variant of its sign.
    pub fn from_signed(n: i64) -> (r: Json)
        ensures
            r@ == signed_json(n as int),
    {
        if n >= 0 {
            Json::Unsigned(n as u64)
        } else {
            Json::Negative(n)
        }
    }

    /// A text value, or `null` where there is none.
    pub fn from_optional_text(text: &Option<String>) -> (r: Json)
        ensures
            r@ == match text {
                Some(s) => JsonValue::Text(s@),
                None => JsonValue::Null,
            },
    {
        match text {
            Some(s) => Json::Text(s.clone()),
            None => Json::Null,
        }
    }
}

/// The value of an optional JSON value.
pub open spec fn value_of(value: Option<&Json>) -> Option<JsonValue> {
    match value {
        Some(v) => Some(v@),
        None => None,
    }
}

/// The values of a list of texts.
pub open spec fn texts_view(items: Seq<String>) -> Seq<Seq<char>> {
    Seq::new(items.len(), |i: int| items[i]@)
}

/// The stored form of a list of texts.
pub open spec fn texts_json(items: Seq<Seq<char>>) -> JsonValue {
    JsonValue::List(Seq::new(items.len(), |i: int| JsonValue::Text(items[i])))
}

/// The texts that a stored list holds: `None` where the value is no list or
/// one of its items is no text.
pub open spec fn texts_in(v: JsonValue) -> Option<Seq<Seq<char>>> {
    match v {
        JsonValue::List(items) => if forall|i: int|
            0 <= i < items.len() ==> (#[trigger] items[i]) is Text {
            Some(Seq::new(items.len(), |i: int| items[i]->Text_0))
        } else {
            None
        },
        _ => None,
    }
}

/// A list of texts is read back from its stored form, which can be written
/// and read as text without loss.
pub proof fn lemma_texts_round_trip(items: Seq<Seq<char>>)
    ensures
        texts_in(texts_json(items)) == Some(items),
        texts_json(items).is_canonical(),
        texts_json(items).nesting_within(1),
{
    let stored = texts_json(items)->List_0;
    assert(texts_in(texts_json(items))->0 =~= items);
    reveal_with_fuel(JsonValue::is_canonical, 2);
    reveal_with_fuel(JsonValue::nesting_within, 2);
}

/// The stored form of a list of texts.
pub fn texts_to_json(items: &Vec<String>) -> (r: Json)
    ensures
        r@ == texts_json(texts_view(items@)),
        r@.nesting_within(1),
{
    let mut out: Vec<Json> = Vec::new();
    let mut i: usize = 0;
    while i < items.len()
        invariant
            i <= items.len(),
            out@.len() == i,
            forall|j: int| 0 <= j < i ==> json_value(#[trigger] out@[j]) == JsonValue::Text(
                items@[j]@,
            ),
        decreases items.len() - i,
    {
        out.push(Json::Text(items[i].clone()));
        i += 1;
    }
    let r = Json::List(out);
    proof {
        reveal_with_fuel(json_value, 2);
        reveal_with_fuel(JsonValue::nesting_within, 2);
        assert(r@->List_0 =~= texts_json(texts_view(items@))->List_0);
    }
    r
}

/// The texts that a stored list holds.
pub fn texts_from_json(v: &Json) -> (r: Option<Vec<String>>)
    ensures
        match r {
            Some(items) => texts_in(v@) == Some(texts_view(items@)),
            None => texts_in(v@) is None,
        },
{
    match v {
        Json::List(items) => {
            let ghost all = v@->List_0;
            proof {
                reveal_with_fuel(json_value, 2);
                assert(all.len() == items.len());
            }
            let mut out: Vec<String> = Vec::new();
            let mut i: usize = 0;
            while i < items.len()
                invariant
                    i <= items.len(),
                    v@ == JsonValue::List(all),
                    all.len() == items.len(),
                    forall|j: int| 0 <= j < items.len() ==> all[j] == json_value(#[trigger] items[j]),
                    out@.len() == i,
                    forall|j: int| 0 <= j < i ==> all[j] == JsonValue::Text((#[trigger] out@[j])@),
                decreases items.len() - i,
            {
                match &items[i] {
                    Json::Text(s) => {
                        out.push(s.clone());
                    },
                    _ => {
                        assert(!(all[i as int] is Text));
                        return None;
                    },
                }
                i += 1;
            }
            proof {
                assert forall|j: int| 0 <= j < all.len() implies (#[trigger] all[j]) is Text by {
                    assert(all[j] == JsonValue::Text(out@[j]@));
                }
                assert forall|j: int| 0 <= j < all.len() implies all[j]->Text_0 == texts_view(
                    out@,
                )[j] by {
                    assert(all[j] == JsonValue::Text(out@[j]@));
                }
                assert(texts_in(v@)->0 =~= texts_view(out@));
            }
            Some(out)
        },
        _ => None,
    }
}

} // verus!
