//! A plain model of JSON documents (numbers keep their integer value or are
//! marked as floating), with the accessors that evidence and claims use.

use vstd::prelude::*;
use vstd::string::*;

verus! {

/// A JSON number: a non-negative integer, a negative integer, or a float
/// (whose value the library never reads).
#[derive(Debug, Clone, Copy, PartialEq, Eq)]
pub enum JsonNumber {
    PosInt(u64),
    NegInt(i64),
    Float,
}

/// A JSON value; an object is its list of members.
#[derive(Debug)]
pub enum JsonValue {
    Null,
    Bool(bool),
    Number(JsonNumber),
    String(String),
    Array(Vec<JsonValue>),
    Object(Vec<(String, JsonValue)>),
}

/// The value of the first member named `key`.
pub open spec fn members_lookup(members: Seq<(String, JsonValue)>, key: Seq<char>) -> Option<JsonValue>
    decreases members.len(),
{
    if members.len() == 0 {
        None
    } else if members[0].0@ == key {
        Some(members[0].1)
    } else {
        members_lookup(members.drop_first(), key)
    }
}

/// `value.get(key)`: a member of an object, `None` for anything else.
pub open spec fn json_get(v: JsonValue, key: Seq<char>) -> Option<JsonValue> {
    match v {
        JsonValue::Object(m) => members_lookup(m@, key),
        _ => None,
    }
}

/// `value[key]`: a member of an object, `Null` when there is none.
pub open spec fn json_index(v: JsonValue, key: Seq<char>) -> JsonValue {
    match json_get(v, key) {
        Some(x) => x,
        None => JsonValue::Null,
    }
}

/// `as_str`: the text of a string.
pub open spec fn json_as_str(v: JsonValue) -> Option<Seq<char>> {
    match v {
        JsonValue::String(s) => Some(s@),
        _ => None,
    }
}

/// `as_u64`: a non-negative integer.
pub open spec fn json_as_u64(v: JsonValue) -> Option<u64> {
    match v {
        JsonValue::Number(JsonNumber::PosInt(n)) => Some(n),
        _ => None,
    }
}

/// `as_bool`: a boolean.
pub open spec fn json_as_bool(v: JsonValue) -> Option<bool> {
    match v {
        JsonValue::Bool(b) => Some(b),
        _ => None,
    }
}

/// Whether two string slices hold the same characters.
pub fn str_eq(a: &str, b: &str) -> (r: bool)
    ensures
        r == (a@ == b@),
{
    let x = String::from_str(a);
    let y = String::from_str(b);
    x == y
}

impl JsonValue {
    /// `get(key)`: the first member named `key` of an object.
    pub fn get(&self, key: &str) -> (r: Option<&JsonValue>)
        ensures
            match json_get(*self, key@) {
                Some(x) => r matches Some(y) && *y == x,
                None => r is None,
            },
    {
        match self {
            JsonValue::Object(members) => {
                let mut i: usize = 0;
                assert(members@.subrange(0, members@.len() as int) =~= members@);
                while i < members.len()
                    invariant
                        i <= members@.len(),
                        json_get(*self, key@) == members_lookup(members@, key@),
                        members_lookup(members@, key@) == members_lookup(members@.subrange(i as int, members@.len() as int), key@),
                    decreases members.len() - i,
                {
                    let ghost rest = members@.subrange(i as int, members@.len() as int);
                    assert(rest[0] == members@[i as int]);
                    if str_eq(members[i].0.as_str(), key) {
                        assert(rest.len() > 0);
                        assert(members_lookup(rest, key@) == Some(rest[0].1));
                        assert(json_get(*self, key@) == Some(members@[i as int].1));
                        let r = &members[i].1;
                        assert(*r == members@[i as int].1);
                        return Some(&members[i].1);
                    }
                    assert(rest.drop_first() =~= members@.subrange(i + 1, members@.len() as int));
                    i = i + 1;
                }
                None
            },
            _ => None,
        }
    }

    /// `as_str`: the text of a string value.
    pub fn as_str(&self) -> (r: Option<&String>)
        ensures
            match json_as_str(*self) {
                Some(t) => r matches Some(s) && s@ == t,
                None => r is None,
            },
    {
        match self {
            JsonValue::String(s) => Some(s),
            _ => None,
        }
    }

    /// `as_u64`: the value of a non-negative integer.
    pub fn as_u64(&self) -> (r: Option<u64>)
        ensures
            r == json_as_u64(*self),
    {
        match self {
            JsonValue::Number(JsonNumber::PosInt(n)) => Some(*n),
            _ => None,
        }
    }

    /// `as_bool`: the value of a boolean.
    pub fn as_bool(&self) -> (r: Option<bool>)
        ensures
            r == json_as_bool(*self),
    {
        match self {
            JsonValue::Bool(b) => Some(*b),
            _ => None,
        }
    }

    /// Whether the value is `null`.
    pub fn is_null(&self) -> (r: bool)
        ensures
            r == (*self is Null),
    {
        matches!(self, JsonValue::Null)
    }

    /// `value[key].as_str()`.
    pub fn str_at(&self, key: &str) -> (r: Option<&String>)
        ensures
            match json_as_str(json_index(*self, key@)) {
                Some(t) => r matches Some(s) && s@ == t,
                None => r is None,
            },
    {
        match self.get(key) {
            Some(v) => v.as_str(),
            None => None,
        }
    }

    /// `value[key].as_u64()`.
    pub fn u64_at(&self, key: &str) -> (r: Option<u64>)
        ensures
            r == json_as_u64(json_index(*self, key@)),
    {
        match self.get(key) {
            Some(v) => v.as_u64(),
            None => None,
        }
    }

    /// `value[key].as_bool()`.
    pub fn bool_at(&self, key: &str) -> (r: Option<bool>)
        ensures
            r == json_as_bool(json_index(*self, key@)),
    {
        match self.get(key) {
            Some(v) => v.as_bool(),
            None => None,
        }
    }

    /// `value[a][b][c].as_str()`.
    pub fn str_at_path(&self, a: &str, b: &str, c: &str) -> (r: Option<&String>)
        ensures
            match json_as_str(json_index(json_index(json_index(*self, a@), b@), c@)) {
                Some(t) => r matches Some(s) && s@ == t,
                None => r is None,
            },
    {
        match self.get(a) {
            Some(x) => match x.get(b) {
                Some(y) => y.str_at(c),
                None => None,
            },
            None => None,
        }
    }
}

/// `value[a][b][c].as_str().unwrap_or("")`.
pub open spec fn text_at_path(v: JsonValue, a: Seq<char>, b: Seq<char>, c: Seq<char>) -> Seq<char> {
    match json_as_str(json_index(json_index(json_index(v, a), b), c)) {
        Some(t) => t,
        None => Seq::empty(),
    }
}

} // verus!
