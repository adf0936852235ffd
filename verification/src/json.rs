//! JSON values as the handlers see them.

use vstd::prelude::*;

use crate::text::str_eq;

verus! {

/// A JSON value.
#[derive(Debug)]
pub enum Json {
    Null,
    Bool(bool),
    Number(Number),
    Text(String),
    Array(Vec<Json>),
    /// The members in the order of their keys. No key occurs twice.
    Object(Vec<(String, Json)>),
}

/// A JSON number: its value where it is a natural number of 64 bits, and its
/// text.
#[derive(Debug)]
pub struct Number {
    pub unsigned: Option<u64>,
    pub text: String,
}

/// The value of the first member with this key.
pub open spec fn member(members: Seq<(String, Json)>, key: Seq<char>) -> Option<Json>
    decreases members.len(),
{
    if members.len() == 0 {
        None
    } else if members[0].0@ == key {
        Some(members[0].1)
    } else {
        member(members.skip(1), key)
    }
}

/// The value of a member of an object. Other values have no members.
pub open spec fn field(value: Json, key: Seq<char>) -> Option<Json> {
    match value {
        Json::Object(members) => member(members@, key),
        _ => None,
    }
}

/// A field is the value of the first member with its key, and absent exactly
/// where no member has the key.
pub proof fn law_fields_are_members(value: Json, key: Seq<char>)
    ensures
        match field(value, key) {
            Some(found) => value matches Json::Object(members) && exists|i: int|
                0 <= i < members@.len() && #[trigger] members@[i].0@ == key && members@[i].1
                    == found && forall|j: int| 0 <= j < i ==> #[trigger] members@[j].0@ != key,
            None => value matches Json::Object(members) ==> forall|i: int|
                0 <= i < members@.len() ==> #[trigger] members@[i].0@ != key,
        },
{
    if let Json::Object(members) = value {
        lemma_member(members@, key);
    }
}

proof fn lemma_member(members: Seq<(String, Json)>, key: Seq<char>)
    ensures
        match member(members, key) {
            Some(found) => exists|i: int|
                0 <= i < members.len() && #[trigger] members[i].0@ == key && members[i].1 == found
                    && forall|j: int| 0 <= j < i ==> #[trigger] members[j].0@ != key,
            None => forall|i: int| 0 <= i < members.len() ==> #[trigger] members[i].0@ != key,
        },
    decreases members.len(),
{
    if members.len() > 0 && members[0].0@ != key {
        let rest = members.skip(1);
        lemma_member(rest, key);
        match member(rest, key) {
            Some(found) => {
                let i = choose|i: int|
                    0 <= i < rest.len() && #[trigger] rest[i].0@ == key && rest[i].1 == found
                        && forall|j: int| 0 <= j < i ==> #[trigger] rest[j].0@ != key;
                assert(members[i + 1].0@ == key);
                assert forall|j: int| 0 <= j < i + 1 implies #[trigger] members[j].0@ != key by {
                    if j > 0 {
                        assert(rest[j - 1] == members[j]);
                    }
                }
            },
            None => {
                assert forall|i: int| 0 <= i < members.len() implies #[trigger] members[i].0@
                    != key by {
                    if i > 0 {
                        assert(rest[i - 1] == members[i]);
                    }
                }
            },
        }
    } else if members.len() > 0 {
        assert(members[0].0@ == key);
    }
}

/// The value of a member of a value that may be absent.
pub open spec fn field_of(value: Option<Json>, key: Seq<char>) -> Option<Json> {
    match value {
        Some(value) => field(value, key),
        None => None,
    }
}

/// The text of a text value.
pub open spec fn text_of(value: Option<Json>) -> Option<Seq<char>> {
    match value {
        Some(Json::Text(s)) => Some(s@),
        _ => None,
    }
}

/// The natural number of a number that is one.
pub open spec fn unsigned_of(value: Option<Json>) -> Option<u64> {
    match value {
        Some(Json::Number(n)) => n.unsigned,
        _ => None,
    }
}

/// The text of a number.
pub open spec fn number_text_of(value: Option<Json>) -> Option<Seq<char>> {
    match value {
        Some(Json::Number(n)) => Some(n.text@),
        _ => None,
    }
}

/// The first element of an array that has one.
pub open spec fn first_of(value: Option<Json>) -> Option<Json> {
    match value {
        Some(Json::Array(items)) => if items@.len() > 0 {
            Some(items@[0])
        } else {
            None
        },
        _ => None,
    }
}

/// The value behind a reference that may be absent.
pub open spec fn deref(value: Option<&Json>) -> Option<Json> {
    match value {
        Some(value) => Some(*value),
        None => None,
    }
}

impl Json {
    /// The value of a member of an object.
    pub fn get(&self, key: &str) -> (r: Option<&Json>)
        ensures
            deref(r) == field(*self, key@),
    {
        match self {
            Json::Object(members) => {
                let mut i: usize = 0;
                assert(members@.skip(0) =~= members@);
                while i < members.len()
                    invariant
                        i <= members.len(),
                        field(*self, key@) == member(members@.skip(i as int), key@),
                    decreases members.len() - i,
                {
                    assert(members@.skip(i as int).skip(1) =~= members@.skip(i + 1));
                    if str_eq(members[i].0.as_str(), key) {
                        return Some(&members[i].1);
                    }
                    i = i + 1;
                }
                None
            },
            _ => None,
        }
    }
}

/// The value of a member of a value that may be absent.
pub fn get_in<'a>(value: Option<&'a Json>, key: &str) -> (r: Option<&'a Json>)
    ensures
        deref(r) == field_of(deref(value), key@),
{
    match value {
        Some(value) => value.get(key),
        None => None,
    }
}

} // verus!
