use crate::text::str_eq;
use vstd::prelude::*;

verus! {

/// A JSON value, as the library reads it. A number is held as the integer
/// it is when it is one that fits in an `i64`, and as `None` otherwise.
pub enum Json {
    Null,
    Boolean(bool),
    Number(Option<i64>),
    Str(String),
    Array(Vec<Json>),
    Object(Vec<(String, Json)>),
}

/// The value of the first entry with a key.
pub open spec fn entries_lookup(es: Seq<(String, Json)>, key: Seq<char>) -> Option<Json>
    decreases es.len(),
{
    if es.len() == 0 {
        None
    } else if es[0].0@ == key {
        Some(es[0].1)
    } else {
        entries_lookup(es.drop_first(), key)
    }
}

/// The value of an object's field; `None` for a missing field or a value
/// that is not an object.
pub open spec fn json_field(j: Json, key: Seq<char>) -> Option<Json> {
    match j {
        Json::Object(es) => entries_lookup(es@, key),
        _ => None,
    }
}

/// The text of a value that is a string.
pub open spec fn json_str(j: Option<Json>) -> Option<Seq<char>> {
    match j {
        Some(Json::Str(s)) => Some(s@),
        _ => None,
    }
}

/// The elements of a value that is an array; none for any other value.
pub open spec fn json_members(j: Json) -> Seq<Json> {
    match j {
        Json::Array(v) => v@,
        _ => seq![],
    }
}

impl Json {
    /// The value of a field of an object.
    pub fn field(&self, key: &str) -> (r: Option<&Json>)
        ensures
            match r {
                Some(x) => json_field(*self, key@) == Some(*x),
                None => json_field(*self, key@) is None,
            },
    {
        match self {
            Json::Object(es) => {
                let n = es.len();
                let mut i: usize = 0;
                assert(es@.skip(0) =~= es@);
                assert(json_field(*self, key@) == entries_lookup(es@, key@));
                while i < n
                    invariant
                        i <= n == es@.len(),
                        json_field(*self, key@) == entries_lookup(es@, key@),
                        entries_lookup(es@, key@) == entries_lookup(es@.skip(i as int), key@),
                    decreases n - i,
                {
                    let ghost rest = es@.skip(i as int);
                    assert(rest[0] == es@[i as int]);
                    assert(rest.drop_first() =~= es@.skip(i + 1));
                    if str_eq(es[i].0.as_str(), key) {
                        assert(entries_lookup(rest, key@) == Some(es@[i as int].1));
                        return Some(&es[i].1);
                    }
                    i = i + 1;
                }
                assert(es@.skip(n as int).len() == 0);
                None
            },
            _ => None,
        }
    }

    /// The text of a string value.
    pub fn as_str(&self) -> (r: Option<&String>)
        ensures
            match r {
                Some(s) => json_str(Some(*self)) == Some(s@),
                None => json_str(Some(*self)) is None,
            },
    {
        match self {
            Json::Str(s) => Some(s),
            _ => None,
        }
    }

    /// The text of a field that is a string.
    pub fn field_str(&self, key: &str) -> (r: Option<&String>)
        ensures
            match r {
                Some(s) => json_str(json_field(*self, key@)) == Some(s@),
                None => json_str(json_field(*self, key@)) is None,
            },
    {
        match self.field(key) {
            Some(v) => v.as_str(),
            None => None,
        }
    }

    /// The elements of an array; none for any other value.
    pub fn members(&self) -> (r: &[Json])
        ensures
            r@ == json_members(*self),
    {
        match self {
            Json::Array(v) => v.as_slice(),
            _ => &[],
        }
    }

    pub fn is_array(&self) -> (r: bool)
        ensures
            r == (*self is Array),
    {
        match self {
            Json::Array(_) => true,
            _ => false,
        }
    }
}

pub trait ToJson {
    fn to_json(&self) -> Option<Json>;
}

pub trait ToJson2 {
    fn to_json2(&self) -> Json;
}

impl ToJson for &str {
    /// The string value of the text.
    fn to_json(&self) -> (r: Option<Json>)
        ensures
            r matches Some(Json::Str(s)) && s@ == (*self)@,
    {
        Some(Json::Str(String::from_str(*self)))
    }
}

impl ToJson2 for &str {
    /// The string value of the text.
    fn to_json2(&self) -> (r: Json)
        ensures
            r matches Json::Str(s) && s@ == (*self)@,
    {
        Json::Str(String::from_str(*self))
    }
}

impl ToJson for String {
    /// The string value of the text.
    fn to_json(&self) -> (r: Option<Json>)
        ensures
            r matches Some(Json::Str(s)) && s@ == self@,
    {
        Some(Json::Str(self.clone()))
    }
}

impl ToJson2 for String {
    /// The string value of the text.
    fn to_json2(&self) -> (r: Json)
        ensures
            r matches Json::Str(s) && s@ == self@,
    {
        Json::Str(self.clone())
    }
}

impl ToJson2 for bool {
    /// The boolean value.
    fn to_json2(&self) -> (r: Json)
        ensures
            r == Json::Boolean(*self),
    {
        Json::Boolean(*self)
    }
}

impl<T: ToJson> ToJson for Option<T> {
    /// The value of what there is, as its own `to_json` gives it; none for
    /// nothing.
    fn to_json(&self) -> (r: Option<Json>)
        ensures
            self is None ==> r is None,
            self matches Some(d) ==> call_ensures(T::to_json, (&d,), r),
    {
        match self {
            Some(d) => d.to_json(),
            None => None,
        }
    }
}

} // verus!
