use vstd::prelude::*;

verus! {

/// A JSON document held as plain values. Numbers keep their source text;
/// an object keeps its members in order.
#[derive(Debug)]
pub enum Json {
    Null,
    Bool(bool),
    Number(String),
    Str(String),
    Array(Vec<Json>),
    Object(Vec<(String, Json)>),
}

/// The value of the first member named `key` at position `i` or later.
pub open spec fn member_from(fs: Seq<(String, Json)>, key: Seq<char>, i: int) -> Option<Json>
    decreases fs.len() - i,
{
    if i < 0 || i >= fs.len() {
        None
    } else if fs[i].0@ == key {
        Some(fs[i].1)
    } else {
        member_from(fs, key, i + 1)
    }
}

/// The value of member `key` of an object; `None` for a missing member or a non-object.
pub open spec fn member(v: Json, key: Seq<char>) -> Option<Json> {
    match v {
        Json::Object(fs) => member_from(fs@, key, 0),
        _ => None,
    }
}

/// Element `i` of an array; `None` past its end or for a non-array.
pub open spec fn element(v: Json, i: int) -> Option<Json> {
    match v {
        Json::Array(items) => if 0 <= i < items@.len() {
            Some(items@[i])
        } else {
            None
        },
        _ => None,
    }
}

/// The text of a string value.
pub open spec fn text(v: Option<Json>) -> Option<Seq<char>> {
    match v {
        Some(Json::Str(s)) => Some(s@),
        _ => None,
    }
}

/// Whether a string holds exactly the characters of `b`.
pub fn same_text(a: &String, b: &str) -> (r: bool)
    ensures
        r == (a@ == b@),
{
    let other = String::from_str(b);
    a.eq(&other)
}

/// Position of the first member named `key`.
pub fn find_member(fs: &Vec<(String, Json)>, key: &str) -> (r: Option<usize>)
    ensures
        match r {
            Some(i) => i < fs@.len() && member_from(fs@, key@, 0) == Some(fs@[i as int].1),
            None => member_from(fs@, key@, 0).is_none(),
        },
{
    let mut i: usize = 0;
    while i < fs.len()
        invariant
            i <= fs@.len(),
            member_from(fs@, key@, 0) == member_from(fs@, key@, i as int),
        decreases fs@.len() - i,
    {
        if same_text(&fs[i].0, key) {
            return Some(i);
        }
        i = i + 1;
    }
    None
}

/// Member `key` of an object, by reference.
pub fn get_member<'a>(v: &'a Json, key: &str) -> (r: Option<&'a Json>)
    ensures
        match r {
            Some(x) => member(*v, key@) == Some(*x),
            None => member(*v, key@).is_none(),
        },
{
    match v {
        Json::Object(fs) => match find_member(fs, key) {
            Some(i) => Some(&fs[i].1),
            None => None,
        },
        _ => None,
    }
}

/// Element `i` of an array, by reference.
pub fn get_element<'a>(v: &'a Json, i: usize) -> (r: Option<&'a Json>)
    ensures
        match r {
            Some(x) => element(*v, i as int) == Some(*x),
            None => element(*v, i as int).is_none(),
        },
{
    match v {
        Json::Array(items) => if i < items.len() {
            Some(&items[i])
        } else {
            None
        },
        _ => None,
    }
}

/// A copy of the text of a string value.
pub fn get_text(v: Option<&Json>) -> (r: Option<String>)
    ensures
        match r {
            Some(s) => text(match v { Some(x) => Some(*x), None => None }) == Some(s@),
            None => text(match v { Some(x) => Some(*x), None => None }).is_none(),
        },
{
    match v {
        Some(Json::Str(s)) => Some(s.clone()),
        _ => None,
    }
}

} // verus!
