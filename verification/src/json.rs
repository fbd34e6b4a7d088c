//! A JSON value as the router manager reads it, with the lookups it uses.
//!
//! Lookups follow the conventions of `serde_json::Value`: a member lookup on
//! anything but an object finds nothing, `as_u64` accepts non-negative
//! integers only, `as_i64` accepts integers that fit in an `i64`, and floats
//! are neither.
use vstd::prelude::*;
use crate::text::str_eq;

verus! {

/// A JSON document. Object members keep their order; a member name occurs
/// at most once in objects built from parsed text, and lookups find the
/// first member of a name.
pub enum JsonValue {
    Null,
    Bool(bool),
    /// A non-negative integer.
    UInt(u64),
    /// A negative integer.
    NegInt(i64),
    /// A number with a fraction or an exponent (its value is not kept).
    Float,
    Str(String),
    Array(Vec<JsonValue>),
    Object(Vec<(String, JsonValue)>),
}

/// The value of the first member named `key`.
pub open spec fn lookup(entries: Seq<(String, JsonValue)>, key: Seq<char>) -> Option<JsonValue>
    decreases entries.len(),
{
    if entries.len() == 0 {
        None
    } else if entries[0].0@ == key {
        Some(entries[0].1)
    } else {
        lookup(entries.drop_first(), key)
    }
}

impl JsonValue {
    /// The member `key` of an object (`Value::get` with a name).
    pub open spec fn member(self, key: Seq<char>) -> Option<JsonValue> {
        match self {
            JsonValue::Object(entries) => lookup(entries@, key),
            _ => None,
        }
    }

    pub open spec fn text(self) -> Option<Seq<char>> {
        match self {
            JsonValue::Str(s) => Some(s@),
            _ => None,
        }
    }

    pub open spec fn flag(self) -> Option<bool> {
        match self {
            JsonValue::Bool(b) => Some(b),
            _ => None,
        }
    }

    pub open spec fn unsigned(self) -> Option<u64> {
        match self {
            JsonValue::UInt(n) => Some(n),
            _ => None,
        }
    }

    pub open spec fn signed(self) -> Option<i64> {
        match self {
            JsonValue::UInt(n) => if n <= i64::MAX as u64 {
                Some(n as i64)
            } else {
                None
            },
            JsonValue::NegInt(n) => Some(n),
            _ => None,
        }
    }

    pub open spec fn items(self) -> Option<Seq<JsonValue>> {
        match self {
            JsonValue::Array(v) => Some(v@),
            _ => None,
        }
    }

    pub open spec fn members(self) -> Option<Seq<(String, JsonValue)>> {
        match self {
            JsonValue::Object(e) => Some(e@),
            _ => None,
        }
    }

    /// Member lookup (`Value::get`).
    pub fn get<'a>(&'a self, key: &str) -> (r: Option<&'a JsonValue>)
        ensures
            match r {
                Some(v) => self.member(key@) == Some(*v),
                None => self.member(key@) is None,
            },
    {
        match self {
            JsonValue::Object(entries) => {
                let mut i: usize = 0;
                assert(entries@.subrange(0, entries@.len() as int) =~= entries@);
                while i < entries.len()
                    invariant
                        i <= entries.len(),
                        self.member(key@) == lookup(entries@, key@),
                        lookup(entries@.subrange(i as int, entries@.len() as int), key@) == lookup(
                            entries@,
                            key@,
                        ),
                    decreases entries.len() - i,
                {
                    let ghost rest = entries@.subrange(i as int, entries@.len() as int);
                    assert(rest[0] == entries@[i as int]);
                    let name = entries[i].0.as_str();
                    if str_eq(name, key) {
                        assert(lookup(rest, key@) == Some(entries@[i as int].1));
                        return Some(&entries[i].1);
                    }
                    assert(rest.drop_first() =~= entries@.subrange(i + 1, entries@.len() as int));
                    i = i + 1;
                }
                None
            },
            _ => None,
        }
    }

    /// `Value::as_str`.
    pub fn as_str(&self) -> (r: Option<&str>)
        ensures
            match r {
                Some(s) => self.text() == Some(s@),
                None => self.text() is None,
            },
    {
        match self {
            JsonValue::Str(s) => Some(s.as_str()),
            _ => None,
        }
    }

    /// `Value::as_bool`.
    pub fn as_bool(&self) -> (r: Option<bool>)
        ensures
            r == self.flag(),
    {
        match self {
            JsonValue::Bool(b) => Some(*b),
            _ => None,
        }
    }

    /// `Value::as_u64`.
    pub fn as_u64(&self) -> (r: Option<u64>)
        ensures
            r == self.unsigned(),
    {
        match self {
            JsonValue::UInt(n) => Some(*n),
            _ => None,
        }
    }

    /// `Value::as_i64`.
    pub fn as_i64(&self) -> (r: Option<i64>)
        ensures
            r == self.signed(),
    {
        match self {
            JsonValue::UInt(n) => {
                if *n <= i64::MAX as u64 {
                    Some(*n as i64)
                } else {
                    None
                }
            },
            JsonValue::NegInt(n) => Some(*n),
            _ => None,
        }
    }

    /// `Value::as_array`.
    pub fn as_array(&self) -> (r: Option<&Vec<JsonValue>>)
        ensures
            match r {
                Some(v) => self.items() == Some(v@),
                None => self.items() is None,
            },
    {
        match self {
            JsonValue::Array(v) => Some(v),
            _ => None,
        }
    }

    /// `Value::as_object`.
    pub fn as_object(&self) -> (r: Option<&Vec<(String, JsonValue)>>)
        ensures
            match r {
                Some(e) => self.members() == Some(e@),
                None => self.members() is None,
            },
    {
        match self {
            JsonValue::Object(e) => Some(e),
            _ => None,
        }
    }
}

/// The member `key` of `v`, where `v` may be missing.
pub open spec fn member_of(v: Option<JsonValue>, key: Seq<char>) -> Option<JsonValue> {
    match v {
        Some(x) => x.member(key),
        None => None,
    }
}

/// The text of `v`, where `v` may be missing (`v["k"].as_str()`).
pub open spec fn text_of(v: Option<JsonValue>) -> Option<Seq<char>> {
    match v {
        Some(x) => x.text(),
        None => None,
    }
}

pub open spec fn flag_of(v: Option<JsonValue>) -> Option<bool> {
    match v {
        Some(x) => x.flag(),
        None => None,
    }
}

pub open spec fn unsigned_of(v: Option<JsonValue>) -> Option<u64> {
    match v {
        Some(x) => x.unsigned(),
        None => None,
    }
}

pub open spec fn signed_of(v: Option<JsonValue>) -> Option<i64> {
    match v {
        Some(x) => x.signed(),
        None => None,
    }
}

pub open spec fn items_of(v: Option<JsonValue>) -> Option<Seq<JsonValue>> {
    match v {
        Some(x) => x.items(),
        None => None,
    }
}

pub open spec fn members_of(v: Option<JsonValue>) -> Option<Seq<(String, JsonValue)>> {
    match v {
        Some(x) => x.members(),
        None => None,
    }
}

/// The text of member `key` of `v` (`v[key].as_str()`).
pub fn member_str<'a>(v: &'a JsonValue, key: &str) -> (r: Option<&'a str>)
    ensures
        match r {
            Some(s) => text_of(v.member(key@)) == Some(s@),
            None => text_of(v.member(key@)) is None,
        },
{
    match v.get(key) {
        Some(x) => x.as_str(),
        None => None,
    }
}

/// The flag of member `key` of `v` (`v[key].as_bool()`).
pub fn member_bool(v: &JsonValue, key: &str) -> (r: Option<bool>)
    ensures
        r == flag_of(v.member(key@)),
{
    match v.get(key) {
        Some(x) => x.as_bool(),
        None => None,
    }
}

/// `v[key].as_u64()`.
pub fn member_u64(v: &JsonValue, key: &str) -> (r: Option<u64>)
    ensures
        r == unsigned_of(v.member(key@)),
{
    match v.get(key) {
        Some(x) => x.as_u64(),
        None => None,
    }
}

/// `v[key].as_i64()`.
pub fn member_i64(v: &JsonValue, key: &str) -> (r: Option<i64>)
    ensures
        r == signed_of(v.member(key@)),
{
    match v.get(key) {
        Some(x) => x.as_i64(),
        None => None,
    }
}

/// `v[key].as_array()`.
pub fn member_array<'a>(v: &'a JsonValue, key: &str) -> (r: Option<&'a Vec<JsonValue>>)
    ensures
        match r {
            Some(a) => items_of(v.member(key@)) == Some(a@),
            None => items_of(v.member(key@)) is None,
        },
{
    match v.get(key) {
        Some(x) => x.as_array(),
        None => None,
    }
}

/// `v[key].as_object()`.
pub fn member_object<'a>(v: &'a JsonValue, key: &str) -> (r: Option<&'a Vec<(String, JsonValue)>>)
    ensures
        match r {
            Some(e) => members_of(v.member(key@)) == Some(e@),
            None => members_of(v.member(key@)) is None,
        },
{
    match v.get(key) {
        Some(x) => x.as_object(),
        None => None,
    }
}

} // verus!
