//! JSON values as plain data, for the parts of Jira issues that carry them
//! (Atlassian documents, comment bodies).
//!
//! An object keeps its entries in key order, as `serde_json`'s map does, so
//! two objects are equal when their entries are equal one by one.
use vstd::prelude::*;

verus! {

/// A JSON number: an integer, or the text of a floating-point number.
#[derive(Debug, Clone)]
pub enum JsonNumber {
    PosInt(u64),
    NegInt(i64),
    Float(String),
}

/// A JSON value.
#[derive(Debug)]
pub enum JsonValue {
    Null,
    Bool(bool),
    Number(JsonNumber),
    String(String),
    Array(Vec<JsonValue>),
    Object(Vec<(String, JsonValue)>),
}

/// Two numbers are the same number.
pub open spec fn number_same(a: JsonNumber, b: JsonNumber) -> bool {
    match a {
        JsonNumber::PosInt(x) => b matches JsonNumber::PosInt(y) && x == y,
        JsonNumber::NegInt(x) => b matches JsonNumber::NegInt(y) && x == y,
        JsonNumber::Float(x) => b matches JsonNumber::Float(y) && x@ == y@,
    }
}

/// Two JSON values are equal: same kind, same scalars, same strings, and
/// arrays and objects equal element by element.
pub open spec fn json_same(a: JsonValue, b: JsonValue) -> bool
    decreases a,
{
    match a {
        JsonValue::Null => b is Null,
        JsonValue::Bool(x) => b matches JsonValue::Bool(y) && x == y,
        JsonValue::Number(x) => b matches JsonValue::Number(y) && number_same(x, y),
        JsonValue::String(x) => b matches JsonValue::String(y) && x@ == y@,
        JsonValue::Array(xs) => match b {
            JsonValue::Array(ys) => xs@.len() == ys@.len() && forall|i: int|
                #![trigger xs@[i]]
                0 <= i < xs@.len() ==> json_same(xs@[i], ys@[i]),
            _ => false,
        },
        JsonValue::Object(xs) => match b {
            JsonValue::Object(ys) => xs@.len() == ys@.len() && forall|i: int|
                #![trigger xs@[i]]
                0 <= i < xs@.len() ==> xs@[i].0@ == ys@[i].0@ && json_same(xs@[i].1, ys@[i].1),
            _ => false,
        },
    }
}

impl Clone for JsonValue {
    #[verifier::loop_isolation(false)]
    fn clone(&self) -> (r: Self)
        ensures
            json_same(r, *self),
        decreases self,
    {
        match self {
            JsonValue::Null => JsonValue::Null,
            JsonValue::Bool(x) => JsonValue::Bool(*x),
            JsonValue::Number(n) => JsonValue::Number(
                match n {
                    JsonNumber::PosInt(x) => JsonNumber::PosInt(*x),
                    JsonNumber::NegInt(x) => JsonNumber::NegInt(*x),
                    JsonNumber::Float(x) => JsonNumber::Float(x.clone()),
                },
            ),
            JsonValue::String(x) => JsonValue::String(x.clone()),
            JsonValue::Array(xs) => {
                let mut out: Vec<JsonValue> = Vec::new();
                let mut i: usize = 0;
                while i < xs.len()
                    invariant
                        i <= xs.len(),
                        out@.len() == i,
                        forall|k: int| 0 <= k < i ==> json_same(#[trigger] out@[k], xs@[k]),
                    decreases xs.len() - i,
                {
                    assert(decreases_to!(*self => *xs));
                    assert(decreases_to!(*xs => xs@));
                    assert(decreases_to!(xs@ => xs@[i as int]));
                    out.push(xs[i].clone());
                    i += 1;
                }
                JsonValue::Array(out)
            },
            JsonValue::Object(xs) => {
                let mut out: Vec<(String, JsonValue)> = Vec::new();
                let mut i: usize = 0;
                while i < xs.len()
                    invariant
                        i <= xs.len(),
                        out@.len() == i,
                        forall|k: int|
                            0 <= k < i ==> (#[trigger] out@[k]).0@ == xs@[k].0@ && json_same(
                                out@[k].1,
                                xs@[k].1,
                            ),
                    decreases xs.len() - i,
                {
                    assert(decreases_to!(*self => *xs));
                    assert(decreases_to!(*xs => xs@));
                    assert(decreases_to!(xs@ => xs@[i as int]));
                    assert(decreases_to!(xs@[i as int] => xs@[i as int].1));
                    out.push((xs[i].0.clone(), xs[i].1.clone()));
                    i += 1;
                }
                JsonValue::Object(out)
            },
        }
    }
}

/// Every value is the same as itself.
pub proof fn lemma_json_same_refl(a: JsonValue)
    ensures
        json_same(a, a),
    decreases a,
{
    match a {
        JsonValue::Array(xs) => {
            assert forall|i: int| 0 <= i < xs@.len() implies json_same(xs@[i], xs@[i]) by {
                assert(decreases_to!(a => xs));
                assert(decreases_to!(xs => xs@));
                assert(decreases_to!(xs@ => xs@[i]));
                lemma_json_same_refl(xs@[i]);
            }
        },
        JsonValue::Object(xs) => {
            assert forall|i: int| 0 <= i < xs@.len() implies json_same(xs@[i].1, xs@[i].1) by {
                assert(decreases_to!(a => xs));
                assert(decreases_to!(xs => xs@));
                assert(decreases_to!(xs@ => xs@[i]));
                assert(decreases_to!(xs@[i] => xs@[i].1));
                lemma_json_same_refl(xs@[i].1);
            }
        },
        JsonValue::Number(n) => {},
        _ => {},
    }
}

/// The key of the object entry that `path` ends at, if it ends at one.
pub open spec fn key_at(v: JsonValue, path: Seq<int>) -> Option<Seq<char>>
    decreases path.len(),
{
    if path.len() == 0 {
        None
    } else {
        let i = path[0];
        match v {
            JsonValue::Array(xs) => if 0 <= i < xs@.len() {
                key_at(xs@[i], path.drop_first())
            } else {
                None
            },
            JsonValue::Object(es) => if 0 <= i < es@.len() {
                if path.len() == 1 {
                    Some(es@[i].0@)
                } else {
                    key_at(es@[i].1, path.drop_first())
                }
            } else {
                None
            },
            _ => None,
        }
    }
}

/// What a single place in a JSON value holds: a scalar with its contents,
/// or an array or object with its size.
pub enum JsonShape {
    Null,
    Bool(bool),
    PosInt(u64),
    NegInt(i64),
    Float(Seq<char>),
    Str(Seq<char>),
    Array(nat),
    Object(nat),
}

/// What the place at the end of `path` in `v` holds, where `path` leads
/// somewhere.
pub open spec fn shape_at(v: JsonValue, path: Seq<int>) -> Option<JsonShape>
    decreases path.len(),
{
    if path.len() == 0 {
        Some(
            match v {
                JsonValue::Null => JsonShape::Null,
                JsonValue::Bool(b) => JsonShape::Bool(b),
                JsonValue::Number(JsonNumber::PosInt(x)) => JsonShape::PosInt(x),
                JsonValue::Number(JsonNumber::NegInt(x)) => JsonShape::NegInt(x),
                JsonValue::Number(JsonNumber::Float(t)) => JsonShape::Float(t@),
                JsonValue::String(t) => JsonShape::Str(t@),
                JsonValue::Array(xs) => JsonShape::Array(xs@.len()),
                JsonValue::Object(es) => JsonShape::Object(es@.len()),
            },
        )
    } else {
        let i = path[0];
        match v {
            JsonValue::Array(xs) => if 0 <= i < xs@.len() {
                shape_at(xs@[i], path.drop_first())
            } else {
                None
            },
            JsonValue::Object(es) => if 0 <= i < es@.len() {
                shape_at(es@[i].1, path.drop_first())
            } else {
                None
            },
            _ => None,
        }
    }
}

/// Values that are the same hold the same things at every place in them
/// (the same strings, numbers, booleans, keys and sizes): a value that
/// differs anywhere from another is not the same as it.
pub proof fn law_same_values_agree_everywhere(a: JsonValue, b: JsonValue, path: Seq<int>)
    requires
        json_same(a, b),
    ensures
        key_at(a, path) == key_at(b, path),
        shape_at(a, path) == shape_at(b, path),
    decreases path.len(),
{
    if path.len() > 0 {
        let i = path[0];
        match a {
            JsonValue::Array(xs) => {
                if 0 <= i < xs@.len() {
                    let ys = b->Array_0;
                    assert(json_same(xs@[i], ys@[i]));
                    law_same_values_agree_everywhere(xs@[i], ys@[i], path.drop_first());
                }
            },
            JsonValue::Object(xs) => {
                if 0 <= i < xs@.len() {
                    let ys = b->Object_0;
                    assert(json_same(xs@[i].1, ys@[i].1));
                    law_same_values_agree_everywhere(xs@[i].1, ys@[i].1, path.drop_first());
                }
            },
            _ => {},
        }
    }
}

/// An object entry has key `key`.
pub open spec fn has_key(key: Seq<char>) -> spec_fn((String, JsonValue)) -> bool {
    |e: (String, JsonValue)| e.0@ == key
}

/// The value under `key` in an object (its first entry with that key);
/// nothing for any other value.
pub open spec fn get(v: JsonValue, key: Seq<char>) -> Option<JsonValue> {
    match v {
        JsonValue::Object(entries) => match crate::text::first_index(entries@, has_key(key)) {
            Some(i) => Some(entries@[i].1),
            None => None,
        },
        _ => None,
    }
}

/// The text of a string value.
pub open spec fn as_str(v: JsonValue) -> Option<Seq<char>> {
    match v {
        JsonValue::String(s) => Some(s@),
        _ => None,
    }
}

/// The value of a non-negative integer.
pub open spec fn as_u64(v: JsonValue) -> Option<u64> {
    match v {
        JsonValue::Number(JsonNumber::PosInt(n)) => Some(n),
        _ => None,
    }
}

/// `get`, then `as_str`.
pub open spec fn get_str(v: Option<JsonValue>, key: Seq<char>) -> Option<Seq<char>> {
    match v {
        Some(x) => match get(x, key) {
            Some(y) => as_str(y),
            None => None,
        },
        None => None,
    }
}

/// What `get` finds inside a value is smaller than the value.
pub proof fn lemma_get_decreases(v: JsonValue, key: Seq<char>)
    ensures
        get(v, key) matches Some(x) ==> decreases_to!(v => x),
{
    match v {
        JsonValue::Object(entries) => {
            let pred = has_key(key);
            crate::text::lemma_first_index_from(entries@, pred, 0);
            match crate::text::first_index(entries@, pred) {
                Some(i) => {
                    assert(decreases_to!(v => entries));
                    assert(decreases_to!(entries => entries@));
                    assert(decreases_to!(entries@ => entries@[i]));
                    assert(decreases_to!(entries@[i] => entries@[i].1));
                },
                None => {},
            }
        },
        _ => {},
    }
}

/// The elements of an array are smaller than the array.
pub proof fn lemma_array_decreases(v: JsonValue)
    ensures
        v matches JsonValue::Array(xs) ==> decreases_to!(v => xs@),
{
    match v {
        JsonValue::Array(xs) => {
            assert(decreases_to!(v => xs));
            assert(decreases_to!(xs => xs@));
        },
        _ => {},
    }
}

/// The value under `key` in an object.
pub fn json_get<'a>(v: &'a JsonValue, key: &str) -> (r: Option<&'a JsonValue>)
    ensures
        match r {
            Some(x) => get(*v, key@) == Some(*x),
            None => get(*v, key@) is None,
        },
{
    match v {
        JsonValue::Object(entries) => {
            let mut i: usize = 0;
            while i < entries.len()
                invariant
                    i <= entries@.len(),
                    *v == JsonValue::Object(*entries),
                    crate::text::first_index(entries@, has_key(key@))
                        == crate::text::first_index_from(entries@, has_key(key@), i as int),
                decreases entries@.len() - i,
            {
                if crate::text::str_eq(entries[i].0.as_str(), key) {
                    return Some(&entries[i].1);
                }
                i += 1;
            }
            None
        },
        _ => None,
    }
}

/// The text of a string value.
pub fn json_as_str(v: &JsonValue) -> (r: Option<&str>)
    ensures
        match r {
            Some(s) => as_str(*v) == Some(s@),
            None => as_str(*v) is None,
        },
{
    match v {
        JsonValue::String(s) => Some(s.as_str()),
        _ => None,
    }
}

/// The value of a non-negative integer.
pub fn json_as_u64(v: &JsonValue) -> (r: Option<u64>)
    ensures
        r == as_u64(*v),
{
    match v {
        JsonValue::Number(JsonNumber::PosInt(n)) => Some(*n),
        _ => None,
    }
}

/// `json_get`, then `json_as_str`.
pub fn json_get_str<'a>(v: Option<&'a JsonValue>, key: &str) -> (r: Option<&'a str>)
    ensures
        match r {
            Some(s) => get_str(
                match v {
                    Some(x) => Some(*x),
                    None => None,
                },
                key@,
            ) == Some(s@),
            None => get_str(
                match v {
                    Some(x) => Some(*x),
                    None => None,
                },
                key@,
            ) is None,
        },
{
    match v {
        Some(x) => match json_get(x, key) {
            Some(y) => json_as_str(y),
            None => None,
        },
        None => None,
    }
}

fn number_eq(a: &JsonNumber, b: &JsonNumber) -> (r: bool)
    ensures
        r == number_same(*a, *b),
{
    match a {
        JsonNumber::PosInt(x) => match b {
            JsonNumber::PosInt(y) => *x == *y,
            _ => false,
        },
        JsonNumber::NegInt(x) => match b {
            JsonNumber::NegInt(y) => *x == *y,
            _ => false,
        },
        JsonNumber::Float(x) => match b {
            JsonNumber::Float(y) => *x == *y,
            _ => false,
        },
    }
}

/// Whether two JSON values are equal.
#[verifier::loop_isolation(false)]
pub fn json_eq(a: &JsonValue, b: &JsonValue) -> (r: bool)
    ensures
        r == json_same(*a, *b),
    decreases a,
{
    match a {
        JsonValue::Null => matches!(b, JsonValue::Null),
        JsonValue::Bool(x) => match b {
            JsonValue::Bool(y) => *x == *y,
            _ => false,
        },
        JsonValue::Number(x) => match b {
            JsonValue::Number(y) => number_eq(x, y),
            _ => false,
        },
        JsonValue::String(x) => match b {
            JsonValue::String(y) => *x == *y,
            _ => false,
        },
        JsonValue::Array(xs) => match b {
            JsonValue::Array(ys) => {
                if xs.len() != ys.len() {
                    return false;
                }
                let mut i: usize = 0;
                while i < xs.len()
                    invariant
                        i <= xs.len(),
                        xs@.len() == ys@.len(),
                        forall|k: int| 0 <= k < i ==> json_same(#[trigger] xs@[k], ys@[k]),
                    decreases xs.len() - i,
                {
                    assert(decreases_to!(*a => *xs));
                    assert(decreases_to!(*xs => xs@));
                    assert(decreases_to!(xs@ => xs@[i as int]));
                    if !json_eq(&xs[i], &ys[i]) {
                        return false;
                    }
                    i += 1;
                }
                true
            },
            _ => false,
        },
        JsonValue::Object(xs) => match b {
            JsonValue::Object(ys) => {
                if xs.len() != ys.len() {
                    return false;
                }
                let mut i: usize = 0;
                while i < xs.len()
                    invariant
                        i <= xs.len(),
                        xs@.len() == ys@.len(),
                        forall|k: int|
                            0 <= k < i ==> (#[trigger] xs@[k]).0@ == ys@[k].0@ && json_same(
                                xs@[k].1,
                                ys@[k].1,
                            ),
                    decreases xs.len() - i,
                {
                    assert(decreases_to!(*a => *xs));
                    assert(decreases_to!(*xs => xs@));
                    assert(decreases_to!(xs@ => xs@[i as int]));
                    assert(decreases_to!(xs@[i as int] => xs@[i as int].1));
                    if xs[i].0 != ys[i].0 {
                        return false;
                    }
                    if !json_eq(&xs[i].1, &ys[i].1) {
                        return false;
                    }
                    i += 1;
                }
                true
            },
            _ => false,
        },
    }
}

} // verus!
