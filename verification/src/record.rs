//! Records of a session.

use crate::json::{refers, Document, Field, Json};
use crate::text::same;
use vstd::prelude::*;

verus! {

/// The version of the records that this program writes.
pub const SCHEMA_VERSION: u32 = 1;

/// A record: who wrote it, what kind it is, when it was written and what it says.
#[derive(Debug)]
pub struct TranscriptRecord {
    pub schema_version: u32,
    pub sequence: u64,
    pub recorded_at_unix_ms: u64,
    pub source: String,
    pub kind: String,
    pub payload: Document,
}

impl TranscriptRecord {
    /// The record is of that source and kind.
    pub open spec fn is(self, source: Seq<char>, kind: Seq<char>) -> bool {
        self.source@ == source && self.kind@ == kind
    }

    /// Whether the record is of that source and kind.
    pub fn is_of(&self, source: &str, kind: &str) -> (yes: bool)
        ensures
            yes == self.is(source@, kind@),
    {
        same(self.source.as_str(), source) && same(self.kind.as_str(), kind)
    }
}

/// More than one field has that name.
pub open spec fn is_repeated(fields: Seq<Field>, name: Seq<char>) -> bool {
    exists|i: int, j: int|
        0 <= i < j < fields.len() && (#[trigger] fields[i]).name@ == name && (
        #[trigger] fields[j]).name@ == name
}

/// A value that was read before can be read as a structure of `width` fields: an object, or a list
/// of their values in order.
pub open spec fn formed(value: Json, width: int) -> bool {
    match value {
        Json::Object(_) => true,
        Json::List(values) => values@.len() <= width,
        _ => false,
    }
}

/// A text of that value can be read as a structure of the fields of those names: an object that
/// repeats none of them, or a list of their values in order.
pub open spec fn shaped(value: Json, names: Seq<&'static str>) -> bool {
    match value {
        Json::Object(fields) => forall|k: int|
            0 <= k < names.len() ==> !is_repeated(fields@, (#[trigger] names[k])@),
        Json::List(values) => values@.len() <= names.len(),
        _ => false,
    }
}

/// The value of a structure's field, which stands under its name or at its place.
pub open spec fn member(value: Json, name: Seq<char>, place: int) -> Option<Json> {
    match value {
        Json::Object(_) => value.at(name),
        Json::List(values) => if place < values@.len() {
            Some(values@[place])
        } else {
            None
        },
        _ => None,
    }
}

/// Whether a value that was read before can be read as a structure of `width` fields.
pub fn is_formed(value: &Json, width: usize) -> (yes: bool)
    ensures
        yes == formed(*value, width as int),
{
    match value {
        Json::Object(_) => true,
        Json::List(values) => values.len() <= width,
        _ => false,
    }
}

fn repeats(fields: &Vec<Field>, name: &str) -> (yes: bool)
    ensures
        yes == is_repeated(fields@, name@),
{
    let mut found: bool = false;
    let ghost mut first: int = 0;
    let mut i: usize = 0;
    while i < fields.len()
        invariant
            i <= fields@.len(),
            !found ==> forall|k: int| 0 <= k < i ==> (#[trigger] fields@[k]).name@ != name@,
            found ==> 0 <= first < i && fields@[first].name@ == name@ && forall|k: int|
                0 <= k < i && k != first ==> (#[trigger] fields@[k]).name@ != name@,
        decreases fields@.len() - i,
    {
        if same(fields[i].name.as_str(), name) {
            if found {
                assert(fields@[first].name@ == name@ && fields@[i as int].name@ == name@);
                return true;
            }
            found = true;
            proof {
                first = i as int;
            }
        }
        i = i + 1;
    }
    false
}

/// Whether a text of that value can be read as a structure of the fields of those names.
pub fn is_shaped(value: &Json, names: &Vec<&'static str>) -> (yes: bool)
    ensures
        yes == shaped(*value, names@),
{
    match value {
        Json::Object(fields) => {
            let mut k: usize = 0;
            while k < names.len()
                invariant
                    k <= names@.len(),
                    *value == Json::Object(*fields),
                    forall|i: int| 0 <= i < k ==> !is_repeated(fields@, (#[trigger] names@[i])@),
                decreases names@.len() - k,
            {
                if repeats(fields, names[k]) {
                    return false;
                }
                k = k + 1;
            }
            true
        },
        Json::List(values) => values.len() <= names.len(),
        _ => false,
    }
}

/// The value of a structure's field.
pub fn get_member<'a>(value: &'a Json, name: &str, place: usize) -> (found: Option<&'a Json>)
    ensures
        refers(found, member(*value, name@, place as int)),
{
    match value {
        Json::Object(_) => value.get(name),
        Json::List(values) => if place < values.len() {
            Some(&values[place])
        } else {
            None
        },
        _ => None,
    }
}

} // verus!
