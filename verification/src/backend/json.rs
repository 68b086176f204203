//! JSON values, as far as colors are read from them.
use crate::utils::scan::str_eq;
use vstd::prelude::*;

verus! {

/// A JSON value. A number holds what it is as an unsigned integer, if it is one.
pub enum JsonValue {
    Null,
    Bool(bool),
    Number(Option<u64>),
    String(String),
    Array(Vec<JsonValue>),
    Object(Vec<(String, JsonValue)>),
}

/// Index of the first entry of `entries` with the key `key`, from index `from` on.
pub open spec fn position_of(entries: Seq<(String, JsonValue)>, key: Seq<char>, from: int) -> Option<
    int,
>
    decreases entries.len() - from,
{
    if from < 0 || from >= entries.len() {
        None
    } else if entries[from].0@ == key {
        Some(from)
    } else {
        position_of(entries, key, from + 1)
    }
}

/// Index of the first entry with the key `key`.
pub fn find_key(entries: &Vec<(String, JsonValue)>, key: &str) -> (r: Option<usize>)
    ensures
        match r {
            Some(i) => position_of(entries@, key@, 0) == Some(i as int) && i < entries@.len(),
            None => position_of(entries@, key@, 0) is None,
        },
{
    let mut i: usize = 0;
    while i < entries.len()
        invariant
            i <= entries.len(),
            position_of(entries@, key@, 0) == position_of(entries@, key@, i as int),
        decreases entries.len() - i,
    {
        if str_eq(entries[i].0.as_str(), key) {
            return Some(i);
        }
        i = i + 1;
    }
    None
}

} // verus!
