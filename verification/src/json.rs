//! JSON values as the transcript reads them.

use crate::composer::option_view;
use crate::text::{begins, has_prefix, same};
use vstd::prelude::*;

verus! {

/// A number: its text, the integers that it is, and its text with three decimals if it is finite.
#[derive(Debug)]
pub struct Number {
    pub text: String,
    pub signed: Option<i64>,
    pub unsigned: Option<u64>,
    pub thousandths: Option<String>,
}

/// A JSON value. An object may repeat a name, as its text does: the last field of a name counts.
#[derive(Debug)]
pub enum Json {
    Null,
    Truth(bool),
    Number(Number),
    Text(String),
    List(Vec<Json>),
    Object(Vec<Field>),
}

/// A field of an object.
#[derive(Debug)]
pub struct Field {
    pub name: String,
    pub value: Json,
}

/// A JSON value with the text that it was read from.
#[derive(Debug)]
pub struct Document {
    pub value: Json,
    pub source: String,
}

/// The JSON text of a value with indentation and line breaks; none where the text is no JSON.
pub uninterp spec fn pretty_json(source: Seq<char>) -> Option<Seq<char>>;

/// The JSON text of a value without white space; none where the text is no JSON.
pub uninterp spec fn compact_json(source: Seq<char>) -> Option<Seq<char>>;

/// `serde_json::from_str` into a `serde_json::Value`, then `serde_json::to_string_pretty`: the
/// indented text of the value. A text that is no JSON has none.
#[verifier::external_body]
pub(crate) fn pretty_print(source: &str) -> (text: Option<String>)
    ensures
        option_view(text) == pretty_json(source@),
{
    let value: serde_json::Value = serde_json::from_str(source).ok()?;
    serde_json::to_string_pretty(&value).ok()
}

/// `serde_json::from_str` into a `serde_json::Value`, then `serde_json::to_string`: the text of the
/// value without white space. A text that is no JSON has none.
#[verifier::external_body]
pub(crate) fn compact_print(source: &str) -> (text: Option<String>)
    ensures
        option_view(text) == compact_json(source@),
{
    let value: serde_json::Value = serde_json::from_str(source).ok()?;
    serde_json::to_string(&value).ok()
}

/// The JSON text without white space of the value of an object's field; none where the text is no
/// JSON, no object or one without that field.
pub uninterp spec fn compact_field_json(source: Seq<char>, name: Seq<char>) -> Option<Seq<char>>;

/// The JSON text without white space of an element of a list; none where the text is no JSON, no
/// list or too short a one.
pub uninterp spec fn compact_element_json(source: Seq<char>, place: usize) -> Option<Seq<char>>;

/// `serde_json::from_str` into a `serde_json::Value`, `Value::get` with a field's name, then
/// `serde_json::to_string`: the text of that field's value without white space.
#[verifier::external_body]
pub(crate) fn compact_field(source: &str, name: &str) -> (text: Option<String>)
    ensures
        option_view(text) == compact_field_json(source@, name@),
{
    let value: serde_json::Value = serde_json::from_str(source).ok()?;
    serde_json::to_string(value.get(name)?).ok()
}

/// `serde_json::from_str` into a `serde_json::Value`, `Value::get` with an index, then
/// `serde_json::to_string`: the text of that element without white space.
#[verifier::external_body]
pub(crate) fn compact_element(source: &str, place: usize) -> (text: Option<String>)
    ensures
        option_view(text) == compact_element_json(source@, place),
{
    let value: serde_json::Value = serde_json::from_str(source).ok()?;
    serde_json::to_string(value.get(place)?).ok()
}

/// The text of an optional value, or another one.
pub open spec fn or_text(text: Option<Seq<char>>, other: Seq<char>) -> Seq<char> {
    match text {
        Some(found) => found,
        None => other,
    }
}

impl Document {
    /// The indented text of the value.
    pub open spec fn pretty(self) -> Seq<char> {
        or_text(pretty_json(self.source@), self.source@)
    }

    /// The text of the value without white space.
    pub open spec fn compact(self) -> Seq<char> {
        or_text(compact_json(self.source@), self.source@)
    }

    /// The indented text of the value.
    pub fn pretty_text(&self) -> (text: String)
        ensures
            text@ == self.pretty(),
    {
        match pretty_print(self.source.as_str()) {
            Some(text) => text,
            None => self.source.clone(),
        }
    }

    /// The text of the value without white space.
    pub fn compact_text(&self) -> (text: String)
        ensures
            text@ == self.compact(),
    {
        match compact_print(self.source.as_str()) {
            Some(text) => text,
            None => self.source.clone(),
        }
    }
}

/// The value of the last field of that name among the first `n`.
pub open spec fn last_field(fields: Seq<Field>, name: Seq<char>, n: int) -> Option<Json>
    decreases n,
{
    if n <= 0 {
        None
    } else if fields[n - 1].name@ == name {
        Some(fields[n - 1].value)
    } else {
        last_field(fields, name, n - 1)
    }
}

/// A later field has the name of field `i`, and takes its place.
pub open spec fn is_replaced(fields: Seq<Field>, i: int) -> bool {
    exists|j: int| i < j < fields.len() && (#[trigger] fields[j]).name@ == fields[i].name@
}

/// The number of those among the first `n` fields that no later one replaces.
pub open spec fn kept_fields(fields: Seq<Field>, n: int) -> int
    decreases n,
{
    if n <= 0 {
        0
    } else {
        kept_fields(fields, n - 1) + if is_replaced(fields, n - 1) {
            0int
        } else {
            1
        }
    }
}

/// The value of the last field of that name.
pub fn find_field<'a>(fields: &'a Vec<Field>, name: &str) -> (found: Option<&'a Json>)
    ensures
        refers(found, last_field(fields@, name@, fields@.len() as int)),
{
    let mut i: usize = fields.len();
    while i > 0
        invariant
            i <= fields@.len(),
            last_field(fields@, name@, i as int) == last_field(
                fields@,
                name@,
                fields@.len() as int,
            ),
        decreases i,
    {
        i = i - 1;
        if same(fields[i].name.as_str(), name) {
            return Some(&fields[i].value);
        }
    }
    None
}

fn has_successor(fields: &Vec<Field>, i: usize) -> (yes: bool)
    requires
        i < fields@.len(),
    ensures
        yes == is_replaced(fields@, i as int),
{
    let total: usize = fields.len();
    let mut j: usize = i + 1;
    while j < total
        invariant
            total == fields@.len(),
            i < j <= total,
            forall|k: int| i < k < j ==> (#[trigger] fields@[k]).name@ != fields@[i as int].name@,
        decreases total - j,
    {
        if same(fields[j].name.as_str(), fields[i].name.as_str()) {
            return true;
        }
        j = j + 1;
    }
    false
}

/// A reference to the value that a specification names.
pub open spec fn refers(found: Option<&Json>, named: Option<Json>) -> bool {
    match found {
        Some(value) => named == Some(*value),
        None => named is None,
    }
}

/// A reference to the text that a specification names.
pub open spec fn reads(found: Option<&str>, named: Option<Seq<char>>) -> bool {
    match found {
        Some(text) => named == Some(text@),
        None => named is None,
    }
}

impl Json {
    /// The value of a field.
    pub open spec fn at(self, name: Seq<char>) -> Option<Json> {
        match self {
            Json::Object(fields) => last_field(fields@, name, fields@.len() as int),
            _ => None,
        }
    }

    pub open spec fn text(self) -> Option<Seq<char>> {
        match self {
            Json::Text(text) => Some(text@),
            _ => None,
        }
    }

    pub open spec fn list(self) -> Option<Seq<Json>> {
        match self {
            Json::List(values) => Some(values@),
            _ => None,
        }
    }

    pub open spec fn signed(self) -> Option<i64> {
        match self {
            Json::Number(number) => number.signed,
            _ => None,
        }
    }

    pub open spec fn unsigned(self) -> Option<u64> {
        match self {
            Json::Number(number) => number.unsigned,
            _ => None,
        }
    }

    pub open spec fn thousandths(self) -> Option<Seq<char>> {
        match self {
            Json::Number(number) => option_view(number.thousandths),
            _ => None,
        }
    }

    /// The text of a field.
    pub open spec fn text_at(self, name: Seq<char>) -> Option<Seq<char>> {
        match self.at(name) {
            Some(value) => value.text(),
            None => None,
        }
    }

    /// The integer of a field.
    pub open spec fn signed_at(self, name: Seq<char>) -> Option<i64> {
        match self.at(name) {
            Some(value) => value.signed(),
            None => None,
        }
    }

    /// The number of fields.
    pub open spec fn field_count(self) -> int {
        match self {
            Json::Object(fields) => kept_fields(fields@, fields@.len() as int),
            _ => 0,
        }
    }

    /// The value of a field.
    pub fn get(&self, name: &str) -> (found: Option<&Json>)
        ensures
            refers(found, self.at(name@)),
    {
        match self {
            Json::Object(fields) => find_field(fields, name),
            _ => None,
        }
    }

    /// The text of a string.
    pub fn as_str(&self) -> (text: Option<&str>)
        ensures
            reads(text, self.text()),
    {
        match self {
            Json::Text(text) => Some(text.as_str()),
            _ => None,
        }
    }

    /// The values of a list.
    pub fn as_array(&self) -> (values: Option<&Vec<Json>>)
        ensures
            values is Some == self.list() is Some,
            values matches Some(found) ==> self.list() == Some(found@),
    {
        match self {
            Json::List(values) => Some(values),
            _ => None,
        }
    }

    /// The integer that a number is.
    pub fn as_i64(&self) -> (number: Option<i64>)
        ensures
            number == self.signed(),
    {
        match self {
            Json::Number(number) => number.signed,
            _ => None,
        }
    }

    /// The natural number that a number is.
    pub fn as_u64(&self) -> (number: Option<u64>)
        ensures
            number == self.unsigned(),
    {
        match self {
            Json::Number(number) => number.unsigned,
            _ => None,
        }
    }

    /// The text of a field.
    pub fn str_at(&self, name: &str) -> (text: Option<&str>)
        ensures
            reads(text, self.text_at(name@)),
    {
        match self.get(name) {
            Some(value) => value.as_str(),
            None => None,
        }
    }

    /// The integer of a field.
    pub fn i64_at(&self, name: &str) -> (number: Option<i64>)
        ensures
            number == self.signed_at(name@),
    {
        match self.get(name) {
            Some(value) => value.as_i64(),
            None => None,
        }
    }

    /// The number of fields.
    pub fn count_fields(&self) -> (count: usize)
        ensures
            count == self.field_count(),
    {
        match self {
            Json::Object(fields) => {
                let mut count: usize = 0;
                let mut i: usize = 0;
                while i < fields.len()
                    invariant
                        count <= i <= fields@.len(),
                        count == kept_fields(fields@, i as int),
                    decreases fields@.len() - i,
                {
                    if !has_successor(fields, i) {
                        count = count + 1;
                    }
                    i = i + 1;
                }
                count
            },
            _ => 0,
        }
    }
}

/// A value holds an image as a data address.
pub open spec fn holds_image(value: Json) -> bool
    decreases value,
{
    match value {
        Json::Text(text) => begins(text@, "data:image/"@),
        Json::List(values) => exists|i: int|
            0 <= i < values@.len() && holds_image(#[trigger] values@[i]),
        Json::Object(fields) => exists|i: int|
            0 <= i < fields@.len() && !is_replaced(fields@, i) && holds_image(
                (#[trigger] fields@[i]).value,
            ),
        _ => false,
    }
}

/// Whether a value holds an image as a data address.
pub fn contains_image_data(value: &Json) -> (yes: bool)
    ensures
        yes == holds_image(*value),
    decreases *value,
{
    match value {
        Json::Text(text) => has_prefix(text.as_str(), "data:image/"),
        Json::List(values) => {
            let mut i: usize = 0;
            while i < values.len()
                invariant
                    i <= values@.len(),
                    *value == Json::List(*values),
                    forall|k: int| 0 <= k < i ==> !holds_image(#[trigger] values@[k]),
                decreases values@.len() - i,
            {
                assert(decreases_to!(*value => value->List_0));
                assert(decreases_to!(value->List_0 => value->List_0@));
                assert(decreases_to!(value->List_0@ => value->List_0@[i as int]));
                if contains_image_data(&values[i]) {
                    return true;
                }
                i = i + 1;
            }
            false
        },
        Json::Object(fields) => {
            let mut i: usize = 0;
            while i < fields.len()
                invariant
                    i <= fields@.len(),
                    *value == Json::Object(*fields),
                    forall|k: int|
                        0 <= k < i && !is_replaced(fields@, k) ==> !holds_image(
                            (#[trigger] fields@[k]).value,
                        ),
                decreases fields@.len() - i,
            {
                assert(decreases_to!(*value => value->Object_0));
                assert(decreases_to!(value->Object_0 => value->Object_0@));
                assert(decreases_to!(value->Object_0@ => value->Object_0@[i as int]));
                assert(decreases_to!(value->Object_0@[i as int] => value->Object_0@[i as int].value));
                if !has_successor(fields, i) && contains_image_data(&fields[i].value) {
                    return true;
                }
                i = i + 1;
            }
            false
        },
        _ => false,
    }
}

} // verus!
