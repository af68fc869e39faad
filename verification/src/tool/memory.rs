//! Calls of the memory store.

use crate::composer::option_view;
use crate::draw::{colored, lines, Look, Tone, Word, Words};
use crate::format::{count_label, counted};
use crate::geometry::least;
use crate::json::{find_field, last_field, Document, Field, Json};
use crate::numeral::{decimal, decimal_text};
use crate::order::{join_texts, texts};
use crate::text::{characters, concat, cut, joined_with, offset_of, same};
use crate::tool::shell::{signed_decimal, signed_text};
use crate::tool::{
    generic, generic_view, presented, truncate, truncated, Presentation, Shown, ToolEntry,
    ToolState,
};
use crate::wrap::{wrap_onto, wrapped_text};
use vstd::prelude::*;

verus! {

/// The identifier of a memory, and its version where it is known.
#[derive(Debug)]
pub struct MemoryKey {
    pub id: String,
    pub version: Option<u64>,
}

/// A key as mathematical values.
pub struct Key {
    pub id: Seq<char>,
    pub version: Option<u64>,
}

impl View for MemoryKey {
    type V = Key;

    open spec fn view(&self) -> Key {
        Key { id: self.id@, version: self.version }
    }
}

/// The keys of a list.
pub open spec fn keys_view(list: Seq<MemoryKey>) -> Seq<Key> {
    list.map_values(|key: MemoryKey| key@)
}

pub open spec fn optional_key(key: Option<MemoryKey>) -> Option<Key> {
    match key {
        Some(found) => Some(found@),
        None => None,
    }
}

/// The identifier that a value is: an integer, or a text that is not empty.
pub open spec fn id_of(value: Json) -> Option<Seq<char>> {
    match value.signed() {
        Some(id) => Some(signed_decimal(id as int)),
        None => match value.unsigned() {
            Some(id) => Some(decimal(id as int)),
            None => match value.text() {
                Some(id) => if id.len() == 0 {
                    None
                } else {
                    Some(id)
                },
                None => None,
            },
        },
    }
}

/// The object that holds a key: the field `key` where it is an object, or the value itself.
pub open spec fn key_holder(value: Json) -> Json {
    match value.at("key"@) {
        Some(inner) => if inner is Object {
            inner
        } else {
            value
        },
        None => value,
    }
}

/// The key that a value is.
pub open spec fn key_of(value: Json) -> Option<Key> {
    if !(value is Object) {
        match id_of(value) {
            Some(id) => Some(Key { id, version: None }),
            None => None,
        }
    } else {
        let holder = key_holder(value);
        match holder.at("id"@) {
            None => None,
            Some(field) => match id_of(field) {
                None => None,
                Some(id) => match holder.at("version"@) {
                    None => Some(Key { id, version: None }),
                    Some(version) => match version.unsigned() {
                        Some(number) => Some(Key { id, version: Some(number) }),
                        None => None,
                    },
                },
            },
        }
    }
}

/// The key that a value is, if its version is known.
pub open spec fn versioned_key_of(value: Json) -> Option<Key> {
    match key_of(value) {
        Some(key) => if key.version is Some {
            Some(key)
        } else {
            None
        },
        None => None,
    }
}

/// The keys that the first `n` values of a list are.
pub open spec fn keys_of(values: Seq<Json>, n: int) -> Option<Seq<Key>>
    decreases n,
{
    if n <= 0 {
        Some(Seq::empty())
    } else {
        match (keys_of(values, n - 1), key_of(values[n - 1])) {
            (Some(front), Some(key)) => Some(front.push(key)),
            _ => None,
        }
    }
}

/// The keys that a value lists, if it lists any.
pub open spec fn key_list(value: Json) -> Option<Seq<Key>> {
    match value.list() {
        None => None,
        Some(values) => match keys_of(values, values.len() as int) {
            None => None,
            Some(keys) => if keys.len() == 0 {
                None
            } else {
                Some(keys)
            },
        },
    }
}

/// The identifier that a value is.
pub fn parse_id(value: &Json) -> (id: Option<String>)
    ensures
        option_view(id) == id_of(*value),
{
    match value.as_i64() {
        Some(id) => return Some(signed_text(id)),
        None => {},
    }
    match value.as_u64() {
        Some(id) => return Some(decimal_text(id)),
        None => {},
    }
    match value.as_str() {
        Some(id) => if id.is_empty() {
            None
        } else {
            Some(id.to_owned())
        },
        None => None,
    }
}

fn is_object(value: &Json) -> (yes: bool)
    ensures
        yes == (value is Object),
{
    match value {
        Json::Object(_) => true,
        _ => false,
    }
}

impl Key {
    /// A key as it is shown.
    pub open spec fn label(self) -> Seq<char> {
        match self.version {
            Some(version) => self.id + "@v"@ + decimal(version as int),
            None => self.id,
        }
    }
}

impl MemoryKey {
    /// The key that a value is.
    pub fn parse(value: &Json) -> (key: Option<MemoryKey>)
        ensures
            optional_key(key) == key_of(*value),
    {
        if !is_object(value) {
            return match parse_id(value) {
                Some(id) => Some(MemoryKey { id, version: None }),
                None => None,
            };
        }
        let holder: &Json = match value.get("key") {
            Some(inner) => if is_object(inner) {
                inner
            } else {
                value
            },
            None => value,
        };
        let id: String = match holder.get("id") {
            Some(field) => match parse_id(field) {
                Some(id) => id,
                None => return None,
            },
            None => return None,
        };
        match holder.get("version") {
            None => Some(MemoryKey { id, version: None }),
            Some(version) => match version.as_u64() {
                Some(number) => Some(MemoryKey { id, version: Some(number) }),
                None => None,
            },
        }
    }

    /// The key that a value is, if its version is known.
    pub fn parse_versioned(value: &Json) -> (key: Option<MemoryKey>)
        ensures
            optional_key(key) == versioned_key_of(*value),
    {
        match Self::parse(value) {
            Some(key) => if key.version.is_some() {
                Some(key)
            } else {
                None
            },
            None => None,
        }
    }

    /// A key as it is shown.
    pub fn display(&self) -> (label: String)
        ensures
            label@ == self@.label(),
    {
        match self.version {
            Some(version) => {
                let mut label: String = concat(self.id.as_str(), "@v");
                label.push_str(decimal_text(version).as_str());
                label
            },
            None => self.id.clone(),
        }
    }
}

/// The keys that a value lists, if it lists any.
pub fn parse_keys(value: &Json) -> (keys: Option<Vec<MemoryKey>>)
    ensures
        keys is Some == key_list(*value) is Some,
        keys matches Some(list) ==> key_list(*value) == Some(keys_view(list@)),
{
    let values: &Vec<Json> = match value.as_array() {
        Some(values) => values,
        None => return None,
    };
    let mut keys: Vec<MemoryKey> = Vec::new();
    let mut i: usize = 0;
    assert(keys_view(keys@) =~= Seq::<Key>::empty());
    while i < values.len()
        invariant
            value.list() == Some(values@),
            i <= values@.len(),
            keys@.len() == i,
            keys_of(values@, i as int) == Some(keys_view(keys@)),
        decreases values@.len() - i,
    {
        let ghost sofar = keys_view(keys@);
        match MemoryKey::parse(&values[i]) {
            Some(key) => {
                keys.push(key);
                assert(keys_view(keys@) =~= sofar.push(key@));
            },
            None => {
                proof {
                    lemma_keys_fail(values@, i as int, values@.len() as int);
                }
                return None;
            },
        }
        i = i + 1;
    }
    if keys.len() == 0 {
        None
    } else {
        Some(keys)
    }
}

proof fn lemma_keys_fail(values: Seq<Json>, i: int, n: int)
    requires
        0 <= i < n,
        key_of(values[i]) is None,
    ensures
        keys_of(values, n) is None,
    decreases n,
{
    if i < n - 1 {
        lemma_keys_fail(values, i, n - 1);
    }
}

/// What a call asks of the store.
#[derive(Debug)]
pub enum Operation<'a> {
    Scan { query: &'a str },
    Read { keys: Vec<MemoryKey> },
    Put { content: &'a str, replace: Option<MemoryKey> },
    Delete { key: MemoryKey },
}

/// What a call asks of the store, as mathematical values.
pub enum Demand {
    Scan { query: Seq<char> },
    Read { keys: Seq<Key> },
    Put { content: Seq<char>, replace: Option<Key> },
    Delete { key: Key },
}

impl<'a> View for Operation<'a> {
    type V = Demand;

    open spec fn view(&self) -> Demand {
        match self {
            Operation::Scan { query } => Demand::Scan { query: query@ },
            Operation::Read { keys } => Demand::Read { keys: keys_view(keys@) },
            Operation::Put { content, replace } => Demand::Put {
                content: content@,
                replace: optional_key(*replace),
            },
            Operation::Delete { key } => Demand::Delete { key: key@ },
        }
    }
}

/// What the arguments of a call ask.
pub open spec fn demand_of(arguments: Json) -> Option<Demand> {
    match arguments.text_at("operation"@) {
        None => None,
        Some(name) => if name == "scan"@ {
            match arguments.text_at("query"@) {
                Some(query) => Some(Demand::Scan { query }),
                None => None,
            }
        } else if name == "read"@ {
            match arguments.at("ids"@) {
                Some(ids) => match key_list(ids) {
                    Some(keys) => Some(Demand::Read { keys }),
                    None => None,
                },
                None => None,
            }
        } else if name == "put"@ {
            match arguments.text_at("content"@) {
                None => None,
                Some(content) => match arguments.at("replace"@) {
                    None => Some(Demand::Put { content, replace: None }),
                    Some(replace) => match versioned_key_of(replace) {
                        Some(key) => Some(Demand::Put { content, replace: Some(key) }),
                        None => None,
                    },
                },
            }
        } else if name == "delete"@ {
            match versioned_key_of(arguments) {
                Some(key) => Some(Demand::Delete { key }),
                None => None,
            }
        } else {
            None
        },
    }
}

impl Demand {
    pub open spec fn label(self) -> Seq<char> {
        match self {
            Demand::Scan { .. } => "scan"@,
            Demand::Read { .. } => "read"@,
            Demand::Put { .. } => "put"@,
            Demand::Delete { .. } => "delete"@,
        }
    }
}

impl<'a> Operation<'a> {
    /// What the arguments of a call ask.
    pub fn parse(arguments: &'a Json) -> (operation: Option<Operation<'a>>)
        ensures
            operation is Some == demand_of(*arguments) is Some,
            operation matches Some(found) ==> demand_of(*arguments) == Some(found@),
    {
        let name: &str = match arguments.str_at("operation") {
            Some(name) => name,
            None => return None,
        };
        if same(name, "scan") {
            match arguments.str_at("query") {
                Some(query) => Some(Operation::Scan { query }),
                None => None,
            }
        } else if same(name, "read") {
            match arguments.get("ids") {
                Some(ids) => match parse_keys(ids) {
                    Some(keys) => Some(Operation::Read { keys }),
                    None => None,
                },
                None => None,
            }
        } else if same(name, "put") {
            match arguments.str_at("content") {
                None => None,
                Some(content) => match arguments.get("replace") {
                    None => Some(Operation::Put { content, replace: None }),
                    Some(replace) => match MemoryKey::parse_versioned(replace) {
                        Some(key) => Some(Operation::Put { content, replace: Some(key) }),
                        None => None,
                    },
                },
            }
        } else if same(name, "delete") {
            match MemoryKey::parse_versioned(arguments) {
                Some(key) => Some(Operation::Delete { key }),
                None => None,
            }
        } else {
            None
        }
    }

    /// The name of the operation.
    pub fn name(&self) -> (name: &'static str)
        ensures
            name@ == self@.label(),
    {
        match self {
            Operation::Scan { .. } => "scan",
            Operation::Read { .. } => "read",
            Operation::Put { .. } => "put",
            Operation::Delete { .. } => "delete",
        }
    }
}

/// A memory that a scan found.
#[derive(Debug)]
pub struct Candidate<'a> {
    pub key: MemoryKey,
    pub preview: &'a str,
    pub score: &'a str,
}

/// A memory.
#[derive(Debug)]
pub struct Memory<'a> {
    pub key: MemoryKey,
    pub content: &'a str,
    pub fields: &'a Vec<Field>,
}

/// A memory that a scan found, as mathematical values.
pub struct Find {
    pub key: Key,
    pub preview: Seq<char>,
    pub score: Seq<char>,
}

/// A memory as mathematical values.
pub struct Entry {
    pub key: Key,
    pub content: Seq<char>,
    pub fields: Seq<Field>,
}

impl<'a> View for Candidate<'a> {
    type V = Find;

    open spec fn view(&self) -> Find {
        Find { key: self.key@, preview: self.preview@, score: self.score@ }
    }
}

impl<'a> View for Memory<'a> {
    type V = Entry;

    open spec fn view(&self) -> Entry {
        Entry { key: self.key@, content: self.content@, fields: self.fields@ }
    }
}

pub open spec fn finds_view(list: Seq<Candidate>) -> Seq<Find> {
    list.map_values(|found: Candidate| found@)
}

pub open spec fn entries_view(list: Seq<Memory>) -> Seq<Entry> {
    list.map_values(|memory: Memory| memory@)
}

/// The memory that a scan found. Its score is a finite number.
pub open spec fn find_of(value: Json) -> Option<Find> {
    match value.at("score"@) {
        None => None,
        Some(number) => match number.thousandths() {
            None => None,
            Some(score) => match key_of(value) {
                None => None,
                Some(key) => match value.text_at("preview"@) {
                    None => None,
                    Some(preview) => Some(Find { key, preview, score }),
                },
            },
        },
    }
}

/// The memory that a value is.
pub open spec fn entry_of(value: Json) -> Option<Entry> {
    match key_of(value) {
        None => None,
        Some(key) => match value.text_at("content"@) {
            None => None,
            Some(content) => match value {
                Json::Object(fields) => Some(Entry { key, content, fields: fields@ }),
                _ => None,
            },
        },
    }
}

pub open spec fn finds_of(values: Seq<Json>, n: int) -> Option<Seq<Find>>
    decreases n,
{
    if n <= 0 {
        Some(Seq::empty())
    } else {
        match (finds_of(values, n - 1), find_of(values[n - 1])) {
            (Some(front), Some(found)) => Some(front.push(found)),
            _ => None,
        }
    }
}

pub open spec fn entries_of(values: Seq<Json>, n: int) -> Option<Seq<Entry>>
    decreases n,
{
    if n <= 0 {
        Some(Seq::empty())
    } else {
        match (entries_of(values, n - 1), entry_of(values[n - 1])) {
            (Some(front), Some(entry)) => Some(front.push(entry)),
            _ => None,
        }
    }
}

proof fn lemma_finds_fail(values: Seq<Json>, i: int, n: int)
    requires
        0 <= i < n,
        find_of(values[i]) is None,
    ensures
        finds_of(values, n) is None,
    decreases n,
{
    if i < n - 1 {
        lemma_finds_fail(values, i, n - 1);
    }
}

proof fn lemma_entries_fail(values: Seq<Json>, i: int, n: int)
    requires
        0 <= i < n,
        entry_of(values[i]) is None,
    ensures
        entries_of(values, n) is None,
    decreases n,
{
    if i < n - 1 {
        lemma_entries_fail(values, i, n - 1);
    }
}

impl<'a> Candidate<'a> {
    /// The memory that a scan found.
    pub fn parse(value: &'a Json) -> (candidate: Option<Candidate<'a>>)
        ensures
            candidate is Some == find_of(*value) is Some,
            candidate matches Some(found) ==> find_of(*value) == Some(found@),
    {
        let score: &str = match value.get("score") {
            Some(Json::Number(number)) => match &number.thousandths {
                Some(score) => score.as_str(),
                None => return None,
            },
            _ => return None,
        };
        let key: MemoryKey = match MemoryKey::parse(value) {
            Some(key) => key,
            None => return None,
        };
        match value.str_at("preview") {
            Some(preview) => Some(Candidate { key, preview, score }),
            None => None,
        }
    }
}

impl<'a> Memory<'a> {
    /// The memory that a value is.
    pub fn parse(value: &'a Json) -> (memory: Option<Memory<'a>>)
        ensures
            memory is Some == entry_of(*value) is Some,
            memory matches Some(found) ==> entry_of(*value) == Some(found@),
    {
        let key: MemoryKey = match MemoryKey::parse(value) {
            Some(key) => key,
            None => return None,
        };
        let content: &str = match value.str_at("content") {
            Some(content) => content,
            None => return None,
        };
        match value {
            Json::Object(fields) => Some(Memory { key, content, fields }),
            _ => None,
        }
    }
}

fn parse_candidates(values: &Vec<Json>) -> (list: Option<Vec<Candidate<'_>>>)
    ensures
        list is Some == finds_of(values@, values@.len() as int) is Some,
        list matches Some(found) ==> finds_of(values@, values@.len() as int) == Some(
            finds_view(found@),
        ),
{
    let mut list: Vec<Candidate<'_>> = Vec::new();
    let mut i: usize = 0;
    assert(finds_view(list@) =~= Seq::<Find>::empty());
    while i < values.len()
        invariant
            i <= values@.len(),
            finds_of(values@, i as int) == Some(finds_view(list@)),
        decreases values@.len() - i,
    {
        let ghost sofar = finds_view(list@);
        match Candidate::parse(&values[i]) {
            Some(candidate) => {
                list.push(candidate);
                assert(finds_view(list@) =~= sofar.push(candidate@));
            },
            None => {
                proof {
                    lemma_finds_fail(values@, i as int, values@.len() as int);
                }
                return None;
            },
        }
        i = i + 1;
    }
    Some(list)
}

fn parse_memories(values: &Vec<Json>) -> (list: Option<Vec<Memory<'_>>>)
    ensures
        list is Some == entries_of(values@, values@.len() as int) is Some,
        list matches Some(found) ==> entries_of(values@, values@.len() as int) == Some(
            entries_view(found@),
        ),
{
    let mut list: Vec<Memory<'_>> = Vec::new();
    let mut i: usize = 0;
    assert(entries_view(list@) =~= Seq::<Entry>::empty());
    while i < values.len()
        invariant
            i <= values@.len(),
            entries_of(values@, i as int) == Some(entries_view(list@)),
        decreases values@.len() - i,
    {
        let ghost sofar = entries_view(list@);
        match Memory::parse(&values[i]) {
            Some(memory) => {
                list.push(memory);
                assert(entries_view(list@) =~= sofar.push(memory@));
            },
            None => {
                proof {
                    lemma_entries_fail(values@, i as int, values@.len() as int);
                }
                return None;
            },
        }
        i = i + 1;
    }
    Some(list)
}

/// What the store answered.
#[derive(Debug)]
pub enum ResultValue<'a> {
    Pending,
    Failed,
    Scan { abstained: bool, candidates: Vec<Candidate<'a>> },
    Read { memories: Vec<Memory<'a>> },
    Put { memory: Memory<'a>, replaced: bool },
    Delete { key: MemoryKey },
}

/// What the store answered, as mathematical values.
pub enum Reply {
    Pending,
    Failed,
    Scan { abstained: bool, finds: Seq<Find> },
    Read { entries: Seq<Entry> },
    Put { entry: Entry, replaced: bool },
    Delete { key: Key },
}

impl<'a> View for ResultValue<'a> {
    type V = Reply;

    open spec fn view(&self) -> Reply {
        match self {
            ResultValue::Pending => Reply::Pending,
            ResultValue::Failed => Reply::Failed,
            ResultValue::Scan { abstained, candidates } => Reply::Scan {
                abstained: *abstained,
                finds: finds_view(candidates@),
            },
            ResultValue::Read { memories } => Reply::Read { entries: entries_view(memories@) },
            ResultValue::Put { memory, replaced } => Reply::Put {
                entry: memory@,
                replaced: *replaced,
            },
            ResultValue::Delete { key } => Reply::Delete { key: key@ },
        }
    }
}

/// A value tells that a memory was replaced.
pub open spec fn tells_replaced(value: Json) -> bool {
    !(value is Null) && value != Json::Truth(false)
}

/// Whether a value tells that a memory was replaced.
pub fn was_replaced(value: &Json) -> (yes: bool)
    ensures
        yes == tells_replaced(*value),
{
    match value {
        Json::Null => false,
        Json::Truth(replaced) => *replaced,
        _ => true,
    }
}

/// What a value answers to an operation.
pub open spec fn answer_of(value: Json, operation: Seq<char>) -> Option<Reply> {
    if operation == "scan"@ {
        match value.at("abstained"@) {
            Some(Json::Truth(abstained)) => match value.at("candidates"@) {
                Some(Json::List(values)) => match finds_of(values@, values@.len() as int) {
                    Some(finds) => Some(Reply::Scan { abstained, finds }),
                    None => None,
                },
                _ => None,
            },
            _ => None,
        }
    } else if operation == "read"@ {
        match value.at("memories"@) {
            Some(Json::List(values)) => match entries_of(values@, values@.len() as int) {
                Some(entries) => Some(Reply::Read { entries }),
                None => None,
            },
            _ => None,
        }
    } else if operation == "put"@ {
        match value.at("memory"@) {
            None => None,
            Some(memory) => match entry_of(memory) {
                None => None,
                Some(entry) => match value.at("replaced"@) {
                    None => None,
                    Some(replaced) => Some(
                        Reply::Put { entry, replaced: tells_replaced(replaced) },
                    ),
                },
            },
        }
    } else if operation == "delete"@ {
        match key_of(value) {
            Some(key) => Some(Reply::Delete { key }),
            None => None,
        }
    } else {
        None
    }
}

/// What the store answered to a call.
pub open spec fn reply_of(tool: ToolEntry, operation: Seq<char>) -> Option<Reply> {
    match tool.result {
        None => Some(Reply::Pending),
        Some(document) => if tool.state == ToolState::Failed && document.value.text_at("error"@)
            is Some {
            Some(Reply::Failed)
        } else if document.value.text_at("operation"@) != Some(operation) {
            None
        } else {
            answer_of(document.value, operation)
        },
    }
}

fn parse_answer<'a>(value: &'a Json, operation: &str) -> (answer: Option<ResultValue<'a>>)
    ensures
        answer is Some == answer_of(*value, operation@) is Some,
        answer matches Some(found) ==> answer_of(*value, operation@) == Some(found@),
{
    if same(operation, "scan") {
        let abstained: bool = match value.get("abstained") {
            Some(Json::Truth(abstained)) => *abstained,
            _ => return None,
        };
        match value.get("candidates") {
            Some(Json::List(values)) => match parse_candidates(values) {
                Some(candidates) => Some(ResultValue::Scan { abstained, candidates }),
                None => None,
            },
            _ => None,
        }
    } else if same(operation, "read") {
        match value.get("memories") {
            Some(Json::List(values)) => match parse_memories(values) {
                Some(memories) => Some(ResultValue::Read { memories }),
                None => None,
            },
            _ => None,
        }
    } else if same(operation, "put") {
        let memory: Memory<'a> = match value.get("memory") {
            Some(memory) => match Memory::parse(memory) {
                Some(memory) => memory,
                None => return None,
            },
            None => return None,
        };
        match value.get("replaced") {
            Some(replaced) => Some(ResultValue::Put { memory, replaced: was_replaced(replaced) }),
            None => None,
        }
    } else if same(operation, "delete") {
        match MemoryKey::parse(value) {
            Some(key) => Some(ResultValue::Delete { key }),
            None => None,
        }
    } else {
        None
    }
}

impl<'a> ResultValue<'a> {
    /// What the store answered to a call.
    pub fn parse(tool: &'a ToolEntry, operation: &str) -> (reply: Option<ResultValue<'a>>)
        ensures
            reply is Some == reply_of(*tool, operation@) is Some,
            reply matches Some(found) ==> reply_of(*tool, operation@) == Some(found@),
    {
        let document: &'a Document = match &tool.result {
            Some(document) => document,
            None => return Some(ResultValue::Pending),
        };
        if tool.state == ToolState::Failed && document.value.str_at("error").is_some() {
            return Some(ResultValue::Failed);
        }
        match document.value.str_at("operation") {
            Some(name) => if !same(name, operation) {
                return None;
            },
            None => return None,
        }
        parse_answer(&document.value, operation)
    }
}

/// A string without the run of a character at its end.
pub open spec fn without_trailing(s: Seq<char>, c: char) -> Seq<char>
    decreases s.len(),
{
    if s.len() > 0 && s.last() == c {
        without_trailing(s.drop_last(), c)
    } else {
        s
    }
}

fn trim_trailing(text: &str, c: char) -> (part: &str)
    ensures
        part@ == without_trailing(text@, c),
{
    let chars = characters(text);
    let mut n: usize = chars.len();
    assert(text@.take(n as int) =~= text@);
    while n > 0 && chars[n - 1] == c
        invariant
            chars@ == text@,
            n <= chars@.len(),
            without_trailing(text@.take(n as int), c) == without_trailing(text@, c),
        decreases n,
    {
        assert(text@.take(n as int).drop_last() =~= text@.take(n - 1));
        n = n - 1;
    }
    let at: usize = offset_of(text, n);
    let (head, _) = cut(text, at);
    head
}

/// A score with three decimals as it is shown: without zeros at its end.
pub open spec fn score_text(thousandths: Seq<char>) -> Seq<char> {
    without_trailing(without_trailing(thousandths, '0'), '.')
}

/// A score with three decimals as it is shown.
pub fn format_score(thousandths: &str) -> (text: &str)
    ensures
        text@ == score_text(thousandths@),
{
    trim_trailing(trim_trailing(thousandths, '0'), '.')
}

/// The text of a value that is no list and no object.
pub open spec fn scalar_text(value: Json) -> Option<Seq<char>> {
    match value {
        Json::Number(number) => Some(number.text@),
        Json::Text(text) => Some(text@),
        Json::Truth(yes) => Some(
            if yes {
                "true"@
            } else {
                "false"@
            },
        ),
        _ => None,
    }
}

/// The text of a value that is no list and no object.
pub fn scalar(value: &Json) -> (text: Option<String>)
    ensures
        option_view(text) == scalar_text(*value),
{
    match value {
        Json::Number(number) => Some(number.text.clone()),
        Json::Text(text) => Some(text.clone()),
        Json::Truth(yes) => if *yes {
            Some("true".to_owned())
        } else {
            Some("false".to_owned())
        },
        _ => None,
    }
}

/// The fields of a memory that are shown below it.
pub open spec fn shown_fields() -> Seq<&'static str> {
    seq![
        "created_at_ms",
        "updated_at_ms",
        "last_scanned_at_ms",
        "scan_count",
        "last_used_at_ms",
        "use_count",
        "probation_until_ms",
    ]
}

/// What the shown fields are called.
pub open spec fn field_labels() -> Seq<&'static str> {
    seq!["created", "updated", "last scanned", "scans", "last used", "uses", "probation until"]
}

/// The texts of the first `n` shown fields that a memory has.
pub open spec fn metadata_parts(fields: Seq<Field>, n: int) -> Seq<Seq<char>>
    decreases n,
{
    if n <= 0 {
        Seq::empty()
    } else {
        let front = metadata_parts(fields, n - 1);
        match last_field(fields, shown_fields()[n - 1]@, fields.len() as int) {
            None => front,
            Some(value) => match scalar_text(value) {
                None => front,
                Some(text) => front.push(field_labels()[n - 1]@ + " "@ + text),
            },
        }
    }
}

/// The line below a memory.
pub open spec fn metadata_text(fields: Seq<Field>) -> Option<Seq<char>> {
    let parts = metadata_parts(fields, 7);
    if parts.len() == 0 {
        None
    } else {
        Some(joined_with(parts, " · "@))
    }
}

/// The line below a memory.
pub fn selected_metadata(fields: &Vec<Field>) -> (line: Option<String>)
    ensures
        option_view(line) == metadata_text(fields@),
{
    let mut names: Vec<&'static str> = Vec::new();
    names.push("created_at_ms");
    names.push("updated_at_ms");
    names.push("last_scanned_at_ms");
    names.push("scan_count");
    names.push("last_used_at_ms");
    names.push("use_count");
    names.push("probation_until_ms");
    assert(names@ =~= shown_fields());
    let mut labels: Vec<&'static str> = Vec::new();
    labels.push("created");
    labels.push("updated");
    labels.push("last scanned");
    labels.push("scans");
    labels.push("last used");
    labels.push("uses");
    labels.push("probation until");
    assert(labels@ =~= field_labels());
    let mut parts: Vec<String> = Vec::new();
    let mut i: usize = 0;
    assert(texts(parts@) =~= metadata_parts(fields@, 0));
    while i < names.len()
        invariant
            names@ == shown_fields(),
            labels@ == field_labels(),
            names@.len() == 7,
            labels@.len() == 7,
            i <= 7,
            texts(parts@) == metadata_parts(fields@, i as int),
        decreases 7 - i,
    {
        let ghost sofar = texts(parts@);
        match find_field(fields, names[i]) {
            Some(value) => match scalar(value) {
                Some(text) => {
                    let mut part: String = concat(labels[i], " ");
                    part.push_str(text.as_str());
                    parts.push(part);
                    assert(texts(parts@) =~= sofar.push(part@));
                },
                None => {},
            },
            None => {},
        }
        i = i + 1;
    }
    assert(texts(parts@).len() == parts@.len());
    if parts.len() == 0 {
        None
    } else {
        Some(join_texts(&parts, " · "))
    }
}

/// The rows of a memory.
pub open spec fn entry_rows(entry: Entry, width: int) -> Seq<Seq<Word>> {
    wrapped_text(entry.key.label(), width, colored(Tone::Accent)) + wrapped_text(
        entry.content,
        width,
        colored(Tone::Text),
    ) + match metadata_text(entry.fields) {
        Some(line) => wrapped_text(line, width, colored(Tone::Muted)),
        None => Seq::empty(),
    }
}

/// Appends the rows of a memory.
pub fn memory_details(details: &mut Vec<Vec<Words>>, memory: &Memory<'_>, limit: u16)
    ensures
        lines(final(details)@) == lines(old(details)@) + entry_rows(memory@, limit as int),
{
    let ghost start = lines(details@);
    let columns: usize = limit as usize;
    wrap_onto(details, memory.key.display().as_str(), columns, Look::plain(Tone::Accent));
    wrap_onto(details, memory.content, columns, Look::plain(Tone::Text));
    match selected_metadata(memory.fields) {
        Some(line) => wrap_onto(details, line.as_str(), columns, Look::plain(Tone::Muted)),
        None => {},
    }
    assert(lines(details@) =~= start + entry_rows(memory@, limit as int));
}

/// The rows of the first `n` memories.
pub open spec fn all_entry_rows(entries: Seq<Entry>, n: int, width: int) -> Seq<Seq<Word>>
    decreases n,
{
    if n <= 0 {
        Seq::empty()
    } else {
        all_entry_rows(entries, n - 1, width) + entry_rows(entries[n - 1], width)
    }
}

/// The rows of the first `n` finds.
pub open spec fn find_rows(finds: Seq<Find>, n: int, width: int) -> Seq<Seq<Word>>
    decreases n,
{
    if n <= 0 {
        Seq::empty()
    } else {
        find_rows(finds, n - 1, width) + wrapped_text(
            finds[n - 1].key.label() + " · score "@ + score_text(finds[n - 1].score),
            width,
            colored(Tone::Accent),
        ) + wrapped_text(truncated(finds[n - 1].preview, 240), width, colored(Tone::Text))
    }
}

/// A scan as it is shown: at most eight finds.
pub open spec fn scan_view(query: Seq<char>, reply: Reply, width: int, expanded: bool) -> Shown {
    let plain = presented("Memory scan"@, query);
    match reply {
        Reply::Scan { abstained, finds } => {
            let count = counted(finds.len() as int, "candidate"@, "candidates"@);
            let shown = plain.with_outcome(
                if abstained {
                    "abstained"@
                } else {
                    count
                },
            );
            let most_shown = least(finds.len() as int, 8);
            if !expanded {
                shown
            } else {
                shown.with_details(find_rows(finds, most_shown, width)).with_footer(
                    if abstained {
                        "memory scan abstained"@
                    } else if most_shown < finds.len() {
                        decimal(most_shown) + " of "@ + decimal(finds.len() as int)
                            + " candidates"@
                    } else {
                        count
                    },
                )
            }
        },
        _ => plain,
    }
}

pub open spec fn key_labels(keys: Seq<Key>) -> Seq<Seq<char>> {
    keys.map_values(|key: Key| key.label())
}

/// A read as it is shown.
pub open spec fn read_view(keys: Seq<Key>, reply: Reply, width: int, expanded: bool) -> Shown {
    let plain = presented("Memory read"@, joined_with(key_labels(keys), ", "@));
    match reply {
        Reply::Read { entries } => {
            let count = counted(entries.len() as int, "memory"@, "memories"@);
            let shown = plain.with_outcome(count);
            if !expanded {
                shown
            } else {
                shown.with_details(
                    all_entry_rows(entries, entries.len() as int, width),
                ).with_footer(count)
            }
        },
        _ => plain,
    }
}

/// A store as it is shown.
pub open spec fn put_view(
    content: Seq<char>,
    replace: Option<Key>,
    reply: Reply,
    width: int,
    expanded: bool,
) -> Shown {
    match reply {
        Reply::Put { entry, replaced } => {
            let shown = presented(
                if replaced {
                    "Memory replaced"@
                } else {
                    "Memory stored"@
                },
                entry.key.label(),
            );
            if !expanded {
                shown
            } else {
                shown.with_details(entry_rows(entry, width)).with_footer("memory record"@)
            }
        },
        _ => {
            let shown = match replace {
                Some(key) => presented("Memory replace"@, key.label()),
                None => presented("Memory store"@, Seq::empty()),
            };
            if !expanded {
                shown
            } else {
                shown.with_details(
                    wrapped_text(content, width, colored(Tone::Text)),
                ).with_footer("memory content"@)
            }
        },
    }
}

/// A removal as it is shown.
pub open spec fn delete_view(key: Key, reply: Reply, width: int, expanded: bool) -> Shown {
    let (title, gone) = match reply {
        Reply::Delete { key: gone } => ("Memory deleted"@, gone),
        _ => ("Memory delete"@, key),
    };
    let shown = presented(title, gone.label());
    if !expanded {
        shown
    } else {
        shown.with_details(
            wrapped_text(gone.label(), width, colored(Tone::Accent)),
        ).with_footer("memory key"@)
    }
}

/// A call of the memory store as it is shown. A call of another shape is shown as any other tool.
pub open spec fn memory_view(tool: ToolEntry, width: int, expanded: bool) -> Shown {
    match demand_of(tool.arguments.value) {
        None => generic_view(tool, width, expanded),
        Some(demand) => match reply_of(tool, demand.label()) {
            None => generic_view(tool, width, expanded),
            Some(reply) => match demand {
                Demand::Scan { query } => scan_view(query, reply, width, expanded),
                Demand::Read { keys } => read_view(keys, reply, width, expanded),
                Demand::Put { content, replace } => put_view(
                    content,
                    replace,
                    reply,
                    width,
                    expanded,
                ),
                Demand::Delete { key } => delete_view(key, reply, width, expanded),
            },
        },
    }
}

fn scan_details(candidates: &Vec<Candidate<'_>>, shown: usize, limit: u16) -> (details: Vec<
    Vec<Words>,
>)
    requires
        shown <= candidates@.len(),
    ensures
        lines(details@) == find_rows(finds_view(candidates@), shown as int, limit as int),
{
    let mut details: Vec<Vec<Words>> = Vec::new();
    let mut i: usize = 0;
    assert(lines(details@) =~= Seq::<Seq<Word>>::empty());
    while i < shown
        invariant
            i <= shown <= candidates@.len(),
            lines(details@) == find_rows(finds_view(candidates@), i as int, limit as int),
        decreases shown - i,
    {
        let ghost sofar = lines(details@);
        assert(finds_view(candidates@)[i as int] == candidates@[i as int]@);
        let mut label: String = candidates[i].key.display();
        label.push_str(" · score ");
        label.push_str(format_score(candidates[i].score));
        wrap_onto(&mut details, label.as_str(), limit as usize, Look::plain(Tone::Accent));
        let preview: String = truncate(candidates[i].preview, 240);
        wrap_onto(&mut details, preview.as_str(), limit as usize, Look::plain(Tone::Text));
        i = i + 1;
    }
    details
}

fn scan(query: &str, result: ResultValue<'_>, limit: u16, expanded: bool) -> (presentation:
    Presentation)
    ensures
        presentation@ == scan_view(query@, result@, limit as int, expanded),
{
    let presentation = Presentation::new("Memory scan", query.to_owned());
    match result {
        ResultValue::Scan { abstained, candidates } => {
            let total: usize = candidates.len();
            assert(finds_view(candidates@).len() == total);
            let outcome: String = if abstained {
                "abstained".to_owned()
            } else {
                count_label(total, "candidate", "candidates")
            };
            let presentation = presentation.outcome(outcome);
            if !expanded {
                return presentation;
            }
            let shown: usize = if total < 8 {
                total
            } else {
                8
            };
            let details = scan_details(&candidates, shown, limit);
            let footer: String = if abstained {
                "memory scan abstained".to_owned()
            } else if shown < total {
                let mut footer: String = decimal_text(shown as u64);
                footer.push_str(" of ");
                footer.push_str(decimal_text(total as u64).as_str());
                footer.push_str(" candidates");
                footer
            } else {
                count_label(total, "candidate", "candidates")
            };
            presentation.details(details).footer(footer)
        },
        _ => presentation,
    }
}

fn display_keys(keys: &Vec<MemoryKey>) -> (text: String)
    ensures
        text@ == joined_with(key_labels(keys_view(keys@)), ", "@),
{
    let mut labels: Vec<String> = Vec::new();
    let mut i: usize = 0;
    let ghost all = key_labels(keys_view(keys@));
    assert(texts(labels@) =~= all.take(0));
    while i < keys.len()
        invariant
            all == key_labels(keys_view(keys@)),
            i <= keys@.len(),
            texts(labels@) == all.take(i as int),
        decreases keys@.len() - i,
    {
        let ghost sofar = texts(labels@);
        let label: String = keys[i].display();
        labels.push(label);
        i = i + 1;
        assert(texts(labels@) =~= sofar.push(label@));
        assert(texts(labels@) =~= all.take(i as int));
    }
    assert(texts(labels@) =~= all);
    join_texts(&labels, ", ")
}

fn read(keys: &Vec<MemoryKey>, result: ResultValue<'_>, limit: u16, expanded: bool) -> (presentation:
    Presentation)
    ensures
        presentation@ == read_view(keys_view(keys@), result@, limit as int, expanded),
{
    let presentation = Presentation::new("Memory read", display_keys(keys));
    match result {
        ResultValue::Read { memories } => {
            let total: usize = memories.len();
            let ghost entries = entries_view(memories@);
            assert(entries.len() == total);
            let presentation = presentation.outcome(count_label(total, "memory", "memories"));
            if !expanded {
                return presentation;
            }
            let mut details: Vec<Vec<Words>> = Vec::new();
            let mut i: usize = 0;
            assert(lines(details@) =~= Seq::<Seq<Word>>::empty());
            while i < memories.len()
                invariant
                    entries == entries_view(memories@),
                    i <= memories@.len(),
                    lines(details@) == all_entry_rows(entries, i as int, limit as int),
                decreases memories@.len() - i,
            {
                assert(entries[i as int] == memories@[i as int]@);
                memory_details(&mut details, &memories[i], limit);
                i = i + 1;
            }
            presentation.details(details).footer(count_label(total, "memory", "memories"))
        },
        _ => presentation,
    }
}

fn put(
    content: &str,
    replace: Option<MemoryKey>,
    result: ResultValue<'_>,
    limit: u16,
    expanded: bool,
) -> (presentation: Presentation)
    ensures
        presentation@ == put_view(content@, optional_key(replace), result@, limit as int, expanded),
{
    match result {
        ResultValue::Put { memory, replaced } => {
            let title: &str = if replaced {
                "Memory replaced"
            } else {
                "Memory stored"
            };
            let presentation = Presentation::new(title, memory.key.display());
            if !expanded {
                return presentation;
            }
            let mut details: Vec<Vec<Words>> = Vec::new();
            memory_details(&mut details, &memory, limit);
            assert(lines(details@) =~= entry_rows(memory@, limit as int));
            presentation.details(details).footer("memory record".to_owned())
        },
        _ => {
            let presentation = match replace {
                Some(key) => Presentation::new("Memory replace", key.display()),
                None => Presentation::new("Memory store", String::new()),
            };
            if !expanded {
                return presentation;
            }
            let mut details: Vec<Vec<Words>> = Vec::new();
            wrap_onto(&mut details, content, limit as usize, Look::plain(Tone::Text));
            assert(lines(details@) =~= wrapped_text(content@, limit as int, colored(Tone::Text)));
            presentation.details(details).footer("memory content".to_owned())
        },
    }
}

fn delete(key: MemoryKey, result: ResultValue<'_>, limit: u16, expanded: bool) -> (presentation:
    Presentation)
    ensures
        presentation@ == delete_view(key@, result@, limit as int, expanded),
{
    let (title, gone): (&str, MemoryKey) = match result {
        ResultValue::Delete { key: gone } => ("Memory deleted", gone),
        _ => ("Memory delete", key),
    };
    let label: String = gone.display();
    let presentation = Presentation::new(title, label.clone());
    if !expanded {
        return presentation;
    }
    let mut details: Vec<Vec<Words>> = Vec::new();
    wrap_onto(&mut details, label.as_str(), limit as usize, Look::plain(Tone::Accent));
    assert(lines(details@) =~= wrapped_text(label@, limit as int, colored(Tone::Accent)));
    presentation.details(details).footer("memory key".to_owned())
}

/// Presents a call of the memory store.
pub fn present(tool: &ToolEntry, limit: u16, expanded: bool) -> (presentation: Presentation)
    ensures
        presentation@ == memory_view(*tool, limit as int, expanded),
{
    let operation: Operation<'_> = match Operation::parse(&tool.arguments.value) {
        Some(operation) => operation,
        None => return generic(tool, limit, expanded),
    };
    let result: ResultValue<'_> = match ResultValue::parse(tool, operation.name()) {
        Some(result) => result,
        None => return generic(tool, limit, expanded),
    };
    match operation {
        Operation::Scan { query } => scan(query, result, limit, expanded),
        Operation::Read { keys } => read(&keys, result, limit, expanded),
        Operation::Put { content, replace } => put(content, replace, result, limit, expanded),
        Operation::Delete { key } => delete(key, result, limit, expanded),
    }
}

/// The folded presentation of a stored or read memory does not depend on the memory's content.
pub proof fn law_folded_calls_hide_contents(
    content: Seq<char>,
    other: Seq<char>,
    replace: Option<Key>,
    key: Key,
    fields: Seq<Field>,
    replaced: bool,
    width: int,
)
    ensures
        put_view(content, replace, Reply::Pending, width, false) == put_view(
            other,
            replace,
            Reply::Pending,
            width,
            false,
        ),
        put_view(
            content,
            replace,
            Reply::Put { entry: Entry { key, content, fields }, replaced },
            width,
            false,
        ) == put_view(
            other,
            replace,
            Reply::Put { entry: Entry { key, content: other, fields }, replaced },
            width,
            false,
        ),
{
}

/// The folded presentation of a read depends on the number of memories only.
pub proof fn law_folded_reads_hide_contents(
    keys: Seq<Key>,
    entries: Seq<Entry>,
    others: Seq<Entry>,
    width: int,
)
    requires
        entries.len() == others.len(),
    ensures
        read_view(keys, Reply::Read { entries }, width, false) == read_view(
            keys,
            Reply::Read { entries: others },
            width,
            false,
        ),
{
}

} // verus!
