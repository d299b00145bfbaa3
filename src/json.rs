//! A JSON document model holding, beside the text, the readings that the
//! parsers take from each value: a number's integer and binary64 readings,
//! and a string's reading as an integer and as a binary64 number.

use vstd::prelude::*;

verus! {

/// A JSON number: its value as an `i64` when it is an integer in range,
/// and the bit pattern of its binary64 value.
#[derive(Debug, Clone, Copy, PartialEq, Eq, Structural)]
pub struct JsonNumber {
    pub int: Option<i64>,
    pub float: Option<u64>,
}

/// A JSON string with its decimal readings: as an `i64`, and as the bit
/// pattern of a binary64 number (each `None` where the text is no such number).
#[derive(Debug, Clone)]
pub struct JsonText {
    pub text: String,
    pub int: Option<i64>,
    pub float: Option<u64>,
}

/// One member of a JSON object.
#[derive(Debug)]
pub struct JsonField {
    pub key: String,
    pub value: JsonValue,
}

#[derive(Debug)]
pub enum JsonValue {
    Null,
    Bool(bool),
    Number(JsonNumber),
    Str(JsonText),
    Array(Vec<JsonValue>),
    Object(Vec<JsonField>),
}

/// Relies on `<str as PartialEq>::eq`: two string slices are equal exactly
/// when they hold the same characters.
#[verifier::external_body]
pub(crate) fn str_eq(a: &str, b: &str) -> (r: bool)
    ensures
        r == (a@ == b@),
{
    a == b
}

/// The value of the first member named `key`.
pub open spec fn field_lookup(fields: Seq<JsonField>, key: Seq<char>) -> Option<JsonValue>
    decreases fields.len(),
{
    if fields.len() == 0 {
        None
    } else if fields[0].key@ == key {
        Some(fields[0].value)
    } else {
        field_lookup(fields.drop_first(), key)
    }
}

impl JsonValue {
    /// The member `key` of an object; `None` for other values.
    pub open spec fn spec_get(self, key: Seq<char>) -> Option<JsonValue> {
        match self {
            JsonValue::Object(fields) => field_lookup(fields@, key),
            _ => None,
        }
    }

    pub open spec fn spec_as_str(self) -> Option<Seq<char>> {
        match self {
            JsonValue::Str(t) => Some(t.text@),
            _ => None,
        }
    }

    /// An integer number.
    pub open spec fn spec_as_i64(self) -> Option<i64> {
        match self {
            JsonValue::Number(n) => n.int,
            _ => None,
        }
    }

    pub open spec fn spec_as_bool(self) -> Option<bool> {
        match self {
            JsonValue::Bool(b) => Some(b),
            _ => None,
        }
    }

    pub open spec fn spec_as_array(self) -> Option<Seq<JsonValue>> {
        match self {
            JsonValue::Array(items) => Some(items@),
            _ => None,
        }
    }

    /// The binary64 reading of a string.
    pub open spec fn spec_str_float(self) -> Option<u64> {
        match self {
            JsonValue::Str(t) => t.float,
            _ => None,
        }
    }

    /// An integer number, or a string that reads as one.
    pub open spec fn spec_int_like(self) -> Option<i64> {
        match self {
            JsonValue::Number(n) => n.int,
            JsonValue::Str(t) => t.int,
            _ => None,
        }
    }

    /// A number's binary64 value, or a string that reads as one.
    pub open spec fn spec_float_like(self) -> Option<u64> {
        match self {
            JsonValue::Number(n) => n.float,
            JsonValue::Str(t) => t.float,
            _ => None,
        }
    }

    pub fn get(&self, key: &str) -> (r: Option<&JsonValue>)
        ensures
            r is Some <==> self.spec_get(key@) is Some,
            r is Some ==> *r->Some_0 == self.spec_get(key@)->Some_0,
    {
        match self {
            JsonValue::Object(fields) => {
                let mut i: usize = 0;
                assert(fields@.subrange(0, fields@.len() as int) =~= fields@);
                while i < fields.len()
                    invariant
                        i <= fields@.len(),
                        self.spec_get(key@) == field_lookup(fields@, key@),
                        field_lookup(fields@, key@) == field_lookup(
                            fields@.subrange(i as int, fields@.len() as int),
                            key@,
                        ),
                    decreases fields@.len() - i,
                {
                    let ghost rest = fields@.subrange(i as int, fields@.len() as int);
                    assert(rest.drop_first() =~= fields@.subrange(i + 1, fields@.len() as int));
                    assert(rest[0] == fields@[i as int]);
                    if str_eq(fields[i].key.as_str(), key) {
                        assert(rest.len() > 0 && rest[0].key@ == key@);
                        assert(field_lookup(rest, key@) == Some(fields@[i as int].value));
                        return Some(&fields[i].value);
                    }
                    i = i + 1;
                }
                None
            },
            _ => None,
        }
    }

    pub fn as_str(&self) -> (r: Option<&str>)
        ensures
            r is Some <==> self.spec_as_str() is Some,
            r is Some ==> r->Some_0@ == self.spec_as_str()->Some_0,
    {
        match self {
            JsonValue::Str(t) => Some(t.text.as_str()),
            _ => None,
        }
    }

    pub fn as_i64(&self) -> (r: Option<i64>)
        ensures
            r == self.spec_as_i64(),
    {
        match self {
            JsonValue::Number(n) => n.int,
            _ => None,
        }
    }

    pub fn as_bool(&self) -> (r: Option<bool>)
        ensures
            r == self.spec_as_bool(),
    {
        match self {
            JsonValue::Bool(b) => Some(*b),
            _ => None,
        }
    }

    pub fn as_array(&self) -> (r: Option<&Vec<JsonValue>>)
        ensures
            r is Some <==> self.spec_as_array() is Some,
            r is Some ==> r->Some_0@ == self.spec_as_array()->Some_0,
    {
        match self {
            JsonValue::Array(items) => Some(items),
            _ => None,
        }
    }

    pub fn str_float(&self) -> (r: Option<u64>)
        ensures
            r == self.spec_str_float(),
    {
        match self {
            JsonValue::Str(t) => t.float,
            _ => None,
        }
    }

    pub fn int_like(&self) -> (r: Option<i64>)
        ensures
            r == self.spec_int_like(),
    {
        match self {
            JsonValue::Number(n) => n.int,
            JsonValue::Str(t) => t.int,
            _ => None,
        }
    }

    pub fn float_like(&self) -> (r: Option<u64>)
        ensures
            r == self.spec_float_like(),
    {
        match self {
            JsonValue::Number(n) => n.float,
            JsonValue::Str(t) => t.float,
            _ => None,
        }
    }
}

/// `doc[key]` as a string.
pub open spec fn str_at(doc: JsonValue, key: Seq<char>) -> Option<Seq<char>> {
    match doc.spec_get(key) {
        Some(v) => v.spec_as_str(),
        None => None,
    }
}

/// `doc[key]` as an integer number.
pub open spec fn i64_at(doc: JsonValue, key: Seq<char>) -> Option<i64> {
    match doc.spec_get(key) {
        Some(v) => v.spec_as_i64(),
        None => None,
    }
}

pub open spec fn bool_at(doc: JsonValue, key: Seq<char>) -> Option<bool> {
    match doc.spec_get(key) {
        Some(v) => v.spec_as_bool(),
        None => None,
    }
}

pub open spec fn array_at(doc: JsonValue, key: Seq<char>) -> Option<Seq<JsonValue>> {
    match doc.spec_get(key) {
        Some(v) => v.spec_as_array(),
        None => None,
    }
}

/// `doc[key]` as a string read as a binary64 number.
pub open spec fn strf_at(doc: JsonValue, key: Seq<char>) -> Option<u64> {
    match doc.spec_get(key) {
        Some(v) => v.spec_str_float(),
        None => None,
    }
}

pub fn get_str<'a>(doc: &'a JsonValue, key: &str) -> (r: Option<&'a str>)
    ensures
        r is Some <==> str_at(*doc, key@) is Some,
        r is Some ==> r->Some_0@ == str_at(*doc, key@)->Some_0,
{
    match doc.get(key) {
        Some(v) => v.as_str(),
        None => None,
    }
}

pub fn get_i64(doc: &JsonValue, key: &str) -> (r: Option<i64>)
    ensures
        r == i64_at(*doc, key@),
{
    match doc.get(key) {
        Some(v) => v.as_i64(),
        None => None,
    }
}

pub fn get_bool(doc: &JsonValue, key: &str) -> (r: Option<bool>)
    ensures
        r == bool_at(*doc, key@),
{
    match doc.get(key) {
        Some(v) => v.as_bool(),
        None => None,
    }
}

pub fn get_array<'a>(doc: &'a JsonValue, key: &str) -> (r: Option<&'a Vec<JsonValue>>)
    ensures
        r is Some <==> array_at(*doc, key@) is Some,
        r is Some ==> r->Some_0@ == array_at(*doc, key@)->Some_0,
{
    match doc.get(key) {
        Some(v) => v.as_array(),
        None => None,
    }
}

pub fn get_str_float(doc: &JsonValue, key: &str) -> (r: Option<u64>)
    ensures
        r == strf_at(*doc, key@),
{
    match doc.get(key) {
        Some(v) => v.str_float(),
        None => None,
    }
}

} // verus!
