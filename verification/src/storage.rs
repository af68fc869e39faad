//! How sessions are stored: what each record changes, and what stored data has to satisfy.

use crate::composer::option_view;
use crate::json::{
    compact_element, compact_element_json, compact_field, compact_field_json, or_text, reads, Json,
};
use crate::numeral::{decimal, decimal_text};
use crate::recent_prompts::{on_one_line, one_line_preview};
use crate::record::{get_member, is_shaped, member, shaped, TranscriptRecord, SCHEMA_VERSION};
use crate::session::SessionSummary;
use crate::settings::{ReasoningEffort, ReasoningMode};
use crate::text::{concat, same};
use vstd::prelude::*;

verus! {

/// The version of the database.
pub const FORMAT_VERSION: i32 = 2;

/// The version of the state that a session is resumed from.
pub const RESUME_STATE_FORMAT_VERSION: u32 = 2;

/// How hard records and states are compressed.
pub const RECORD_COMPRESSION_LEVEL: i32 = 1;

pub const STATE_COMPRESSION_LEVEL: i32 = 3;

/// How many prompts are offered.
pub const MAX_RECENT_PROMPTS: usize = 100;

/// The preview of a session without a prompt.
pub const NO_PROMPT: &'static str = "No user prompt";

/// Why data cannot be stored or used.
#[derive(Clone, Copy, Debug, PartialEq, Eq, Structural)]
pub enum StorageError {
    UnsupportedVersion { found: i32 },
    UnsupportedRecordVersion { version: u32 },
    /// A record does not say what its kind has to say.
    Payload,
    Compress,
    Decode,
}

/// The error of reading or writing.
#[verifier::external_type_specification]
#[verifier::external_body]
pub struct ExIoError(std::io::Error);

/// The zstd frame of some bytes at a level; none where they cannot be compressed.
pub uninterp spec fn zstd_frame(bytes: Seq<u8>, level: i32) -> Option<Seq<u8>>;

/// The bytes in zstd frames; none where the data is no frame.
pub uninterp spec fn zstd_bytes(data: Seq<u8>) -> Option<Seq<u8>>;

/// The bytes of a result.
pub open spec fn bytes_of<E>(result: Result<Vec<u8>, E>) -> Option<Seq<u8>> {
    match result {
        Ok(bytes) => Some(bytes@),
        Err(_) => None,
    }
}

/// `zstd::encode_all`: the frame of the bytes at a level. Decompressing it gives the bytes back; the
/// levels are those whose window every decompressor accepts.
#[verifier::external_body]
fn zstd_compress(bytes: &[u8], level: i32) -> (frame: Result<Vec<u8>, std::io::Error>)
    requires
        1 <= level <= 3,
    ensures
        bytes_of(frame) == zstd_frame(bytes@, level),
        frame matches Ok(data) ==> zstd_bytes(data@) == Some(bytes@),
{
    zstd::encode_all(bytes, level)
}

/// `zstd::decode_all`: the bytes in the frames.
#[verifier::external_body]
fn zstd_decompress(data: &[u8]) -> (bytes: Result<Vec<u8>, std::io::Error>)
    ensures
        bytes_of(bytes) == zstd_bytes(data@),
{
    zstd::decode_all(data)
}

/// A frame of a level that holds the bytes, or the error.
pub open spec fn compresses(bytes: Seq<u8>, level: i32, frame: Result<Vec<u8>, StorageError>) -> bool {
    match frame {
        Ok(data) => zstd_frame(bytes, level) == Some(data@) && zstd_bytes(data@) == Some(bytes),
        Err(error) => error == StorageError::Compress && zstd_frame(bytes, level) is None,
    }
}

/// Compresses a record.
pub fn compress_record(encoded: &[u8]) -> (frame: Result<Vec<u8>, StorageError>)
    ensures
        compresses(encoded@, RECORD_COMPRESSION_LEVEL, frame),
{
    match zstd_compress(encoded, RECORD_COMPRESSION_LEVEL) {
        Ok(data) => Ok(data),
        Err(_) => Err(StorageError::Compress),
    }
}

/// Compresses the state that a session is resumed from.
pub fn compress_state(encoded: &[u8]) -> (frame: Result<Vec<u8>, StorageError>)
    ensures
        compresses(encoded@, STATE_COMPRESSION_LEVEL, frame),
{
    match zstd_compress(encoded, STATE_COMPRESSION_LEVEL) {
        Ok(data) => Ok(data),
        Err(_) => Err(StorageError::Compress),
    }
}

/// Decompresses a record or a state.
pub fn decompress(data: &[u8]) -> (bytes: Result<Vec<u8>, StorageError>)
    ensures
        match bytes {
            Ok(bytes) => zstd_bytes(data@) == Some(bytes@),
            Err(error) => error == StorageError::Decode && zstd_bytes(data@) is None,
        },
{
    match zstd_decompress(data) {
        Ok(bytes) => Ok(bytes),
        Err(_) => Err(StorageError::Decode),
    }
}

/// A state that was compressed is decompressed to itself.
pub proof fn law_states_come_back(encoded: Seq<u8>, frame: Vec<u8>)
    requires
        compresses(encoded, STATE_COMPRESSION_LEVEL, Ok(frame)),
    ensures
        zstd_bytes(frame@) == Some(encoded),
{
}

/// Checks the version of a database; 0 is that of a new one.
pub fn check_version(version: i32) -> (checked: Result<(), StorageError>)
    ensures
        checked == (if version == 0 || version == FORMAT_VERSION {
            Ok::<(), StorageError>(())
        } else {
            Err::<(), StorageError>(StorageError::UnsupportedVersion { found: version })
        }),
{
    if version != 0 && version != FORMAT_VERSION {
        return Err(StorageError::UnsupportedVersion { found: version });
    }
    Ok(())
}

/// A time as the database holds it.
pub open spec fn sql_time(value: u64) -> i64 {
    if value > i64::MAX {
        i64::MAX
    } else {
        value as i64
    }
}

/// A time from the database.
pub open spec fn time_in_sql(value: i64) -> u64 {
    if value < 0 {
        0
    } else {
        value as u64
    }
}

/// A time as the database holds it.
pub fn to_sql_u64(value: u64) -> (number: i64)
    ensures
        number == sql_time(value),
{
    if value > i64::MAX as u64 {
        i64::MAX
    } else {
        value as i64
    }
}

/// A time from the database.
pub fn from_sql_u64(value: i64) -> (number: u64)
    ensures
        number == time_in_sql(value),
{
    if value < 0 {
        0
    } else {
        value as u64
    }
}

/// How many rows are asked for.
pub fn sql_limit(limit: usize) -> (rows: i64)
    ensures
        rows == sql_time(limit as u64),
{
    to_sql_u64(limit as u64)
}

/// A time that fits into the database comes back as it was.
pub proof fn law_times_come_back(value: u64)
    requires
        value <= i64::MAX,
    ensures
        time_in_sql(sql_time(value)) == value,
{
}

/// What a session's first record says.
#[derive(Debug)]
pub struct SessionStarted {
    pub session_id: String,
    pub parent_session_id: Option<String>,
    pub model: String,
    pub effort: ReasoningEffort,
    pub reasoning_mode: ReasoningMode,
    pub fast_mode: bool,
    pub workspace: String,
    pub application_version: String,
}

/// What a session's first record says, as mathematical values.
pub struct Beginning {
    pub session_id: Seq<char>,
    pub parent_session_id: Option<Seq<char>>,
    pub model: Seq<char>,
    pub effort: ReasoningEffort,
    pub reasoning_mode: ReasoningMode,
    pub fast_mode: bool,
    pub workspace: Seq<char>,
    pub application_version: Seq<char>,
}

impl View for SessionStarted {
    type V = Beginning;

    open spec fn view(&self) -> Beginning {
        Beginning {
            session_id: self.session_id@,
            parent_session_id: option_view(self.parent_session_id),
            model: self.model@,
            effort: self.effort,
            reasoning_mode: self.reasoning_mode,
            fast_mode: self.fast_mode,
            workspace: self.workspace@,
            application_version: self.application_version@,
        }
    }
}

/// The text of a structure's field.
pub open spec fn text_member(value: Json, name: Seq<char>, place: int) -> Option<Seq<char>> {
    match member(value, name, place) {
        Some(found) => found.text(),
        None => None,
    }
}

fn get_text<'a>(value: &'a Json, name: &str, place: usize) -> (text: Option<&'a str>)
    ensures
        reads(text, text_member(*value, name@, place as int)),
{
    match get_member(value, name, place) {
        Some(found) => found.as_str(),
        None => None,
    }
}

fn has_only(value: &Json, name: &'static str) -> (yes: bool)
    ensures
        yes == shaped(*value, seq![name]),
{
    let names: Vec<&'static str> = vec![name];
    assert(names@ =~= seq![name]);
    is_shaped(value, &names)
}

/// The text of a field that may be left out or null; nothing where it is something else.
pub open spec fn optional_text(value: Option<Json>) -> Option<Option<Seq<char>>> {
    match value {
        None => Some(None),
        Some(Json::Null) => Some(None),
        Some(Json::Text(text)) => Some(Some(text@)),
        _ => None,
    }
}

/// The truth of a field that may be left out; nothing where it is something else.
pub open spec fn optional_truth(value: Option<Json>) -> Option<bool> {
    match value {
        None => Some(false),
        Some(Json::Truth(yes)) => Some(yes),
        _ => None,
    }
}

/// The kind of reasoning that may be left out; nothing where it is something else.
pub open spec fn optional_mode(value: Option<Json>) -> Option<ReasoningMode> {
    match value {
        None => Some(ReasoningMode::Standard),
        Some(Json::Text(text)) => ReasoningMode::named(text@),
        _ => None,
    }
}

/// The fields of a session's first record.
pub open spec fn started_fields() -> Seq<&'static str> {
    seq![
        "session_id",
        "parent_session_id",
        "model",
        "effort",
        "reasoning_mode",
        "fast_mode",
        "workspace",
        "application_version",
    ]
}

/// What a session's first record says; nothing where it cannot be read.
pub open spec fn beginning_in(payload: Json) -> Option<Beginning> {
    let effort = match text_member(payload, "effort"@, 3) {
        Some(text) => ReasoningEffort::named(text),
        None => None,
    };
    match (
        (
            text_member(payload, "session_id"@, 0),
            optional_text(member(payload, "parent_session_id"@, 1)),
            text_member(payload, "model"@, 2),
            effort,
        ),
        (
            optional_mode(member(payload, "reasoning_mode"@, 4)),
            optional_truth(member(payload, "fast_mode"@, 5)),
            text_member(payload, "workspace"@, 6),
            text_member(payload, "application_version"@, 7),
        ),
    ) {
        (
            (Some(session_id), Some(parent_session_id), Some(model), Some(effort)),
            (Some(reasoning_mode), Some(fast_mode), Some(workspace), Some(application_version)),
        ) => if shaped(payload, started_fields()) {
            Some(
                Beginning {
                    session_id,
                    parent_session_id,
                    model,
                    effort,
                    reasoning_mode,
                    fast_mode,
                    workspace,
                    application_version,
                },
            )
        } else {
            None
        },
        _ => None,
    }
}

pub open spec fn beginning_view(started: Option<SessionStarted>) -> Option<Beginning> {
    match started {
        Some(started) => Some(started@),
        None => None,
    }
}

/// Reads what a session's first record says.
pub fn read_started(payload: &Json) -> (started: Option<SessionStarted>)
    ensures
        beginning_view(started) == beginning_in(*payload),
{
    let session_id = get_text(payload, "session_id", 0);
    let parent: Option<Option<String>> = match get_member(payload, "parent_session_id", 1) {
        None => Some(None),
        Some(Json::Null) => Some(None),
        Some(Json::Text(text)) => Some(Some(text.clone())),
        _ => None,
    };
    let model = get_text(payload, "model", 2);
    let effort: Option<ReasoningEffort> = match get_text(payload, "effort", 3) {
        Some(text) => ReasoningEffort::parse(text),
        None => None,
    };
    let mode: Option<ReasoningMode> = match get_member(payload, "reasoning_mode", 4) {
        None => Some(ReasoningMode::Standard),
        Some(Json::Text(text)) => ReasoningMode::parse(text.as_str()),
        _ => None,
    };
    let fast: Option<bool> = match get_member(payload, "fast_mode", 5) {
        None => Some(false),
        Some(Json::Truth(yes)) => Some(*yes),
        _ => None,
    };
    let workspace = get_text(payload, "workspace", 6);
    let version = get_text(payload, "application_version", 7);
    let names: Vec<&'static str> = vec![
        "session_id",
        "parent_session_id",
        "model",
        "effort",
        "reasoning_mode",
        "fast_mode",
        "workspace",
        "application_version",
    ];
    assert(names@ =~= started_fields());
    if !is_shaped(payload, &names) {
        return None;
    }
    match ((session_id, parent, model, effort), (mode, fast, workspace, version)) {
        (
            (Some(session_id), Some(parent), Some(model), Some(effort)),
            (Some(mode), Some(fast), Some(workspace), Some(version)),
        ) => Some(
            SessionStarted {
                session_id: session_id.to_owned(),
                parent_session_id: parent,
                model: model.to_owned(),
                effort,
                reasoning_mode: mode,
                fast_mode: fast,
                workspace: workspace.to_owned(),
                application_version: version.to_owned(),
            },
        ),
        _ => None,
    }
}

/// The prompt of a record: nothing in the records of other kinds, an error where the text is
/// missing.
pub open spec fn prompt_in(record: TranscriptRecord) -> Result<Option<Seq<char>>, StorageError> {
    if record.source@ != "tact"@ || !(record.kind@ == "user.submitted"@ || record.kind@
        == "user.steered"@) {
        Ok(None)
    } else {
        match text_member(record.payload.value, "text"@, 0) {
            Some(text) => if shaped(record.payload.value, seq!["text"]) {
                Ok(Some(text))
            } else {
                Err(StorageError::Payload)
            },
            None => Err(StorageError::Payload),
        }
    }
}

/// A text or an error as a specification names it.
pub open spec fn says(found: Result<Option<String>, StorageError>, named: Result<Option<Seq<char>>, StorageError>) -> bool {
    match found {
        Ok(text) => named == Ok::<Option<Seq<char>>, StorageError>(option_view(text)),
        Err(error) => named == Err::<Option<Seq<char>>, StorageError>(error),
    }
}

/// The prompt of a record.
pub fn prompt_text(record: &TranscriptRecord) -> (text: Result<Option<String>, StorageError>)
    ensures
        says(text, prompt_in(*record)),
{
    if !same(record.source.as_str(), "tact") || !(same(record.kind.as_str(), "user.submitted")
        || same(record.kind.as_str(), "user.steered")) {
        return Ok(None);
    }
    if !has_only(&record.payload.value, "text") {
        return Err(StorageError::Payload);
    }
    match get_text(&record.payload.value, "text", 0) {
        Some(text) => Ok(Some(text.to_owned())),
        None => Err(StorageError::Payload),
    }
}

/// The part of an answer that a record belongs to: the turn, the call and the phase, as JSON.
/// Nothing in the records of other kinds, an error where the call is missing.
pub open spec fn stream_in(active_turn: Option<u64>, record: TranscriptRecord) -> Result<
    Option<Seq<char>>,
    StorageError,
> {
    if !(record.kind@ == "assistant.delta"@ || record.kind@ == "assistant.message"@) {
        Ok(None)
    } else {
        match call_index(record.payload.value) {
            Some(call) => if has_phase(record.payload.value) {
                Ok(
                    Some(
                        "["@ + turn_text(active_turn) + ","@ + decimal(call as int) + ","@
                            + or_text(phase_in(record), "null"@) + "]"@,
                    ),
                )
            } else {
                Err(StorageError::Payload)
            },
            None => Err(StorageError::Payload),
        }
    }
}

/// The phase of an answer can be read: an object may leave it out, a list has it in second place.
pub open spec fn has_phase(payload: Json) -> bool {
    match payload {
        Json::Object(_) => shaped(payload, seq!["model_call_index", "phase"]),
        Json::List(values) => values@.len() == 2,
        _ => false,
    }
}

/// The phase that a record of an answer gives, as JSON.
pub open spec fn phase_in(record: TranscriptRecord) -> Option<Seq<char>> {
    match record.payload.value {
        Json::List(_) => compact_element_json(record.payload.source@, 1),
        _ => compact_field_json(record.payload.source@, "phase"@),
    }
}

/// The number of the call, which has 32 bits.
pub open spec fn call_index(payload: Json) -> Option<u64> {
    match member(payload, "model_call_index"@, 0) {
        Some(value) => match value.unsigned() {
            Some(call) => if call <= u32::MAX {
                Some(call)
            } else {
                None
            },
            None => None,
        },
        None => None,
    }
}

pub open spec fn turn_text(turn: Option<u64>) -> Seq<char> {
    match turn {
        Some(turn) => decimal(turn as int),
        None => "null"@,
    }
}

/// The part of an answer that a record belongs to.
pub fn assistant_stream(active_turn: Option<u64>, record: &TranscriptRecord) -> (stream: Result<
    Option<String>,
    StorageError,
>)
    ensures
        says(stream, stream_in(active_turn, *record)),
{
    if !(same(record.kind.as_str(), "assistant.delta") || same(
        record.kind.as_str(),
        "assistant.message",
    )) {
        return Ok(None);
    }
    let phase: Option<String> = match &record.payload.value {
        Json::Object(_) => {
            let names: Vec<&'static str> = vec!["model_call_index", "phase"];
            assert(names@ =~= seq!["model_call_index", "phase"]);
            if !is_shaped(&record.payload.value, &names) {
                return Err(StorageError::Payload);
            }
            compact_field(record.payload.source.as_str(), "phase")
        },
        Json::List(values) => if values.len() == 2 {
            compact_element(record.payload.source.as_str(), 1)
        } else {
            return Err(StorageError::Payload);
        },
        _ => return Err(StorageError::Payload),
    };
    let call: u64 = match get_member(&record.payload.value, "model_call_index", 0) {
        Some(value) => match value.as_u64() {
            Some(call) => call,
            None => return Err(StorageError::Payload),
        },
        None => return Err(StorageError::Payload),
    };
    if call > u32::MAX as u64 {
        return Err(StorageError::Payload);
    }
    let mut text: String = "[".to_owned();
    match active_turn {
        Some(turn) => text.push_str(decimal_text(turn).as_str()),
        None => text.push_str("null"),
    }
    text.push_str(",");
    text.push_str(decimal_text(call).as_str());
    text.push_str(",");
    match phase {
        Some(phase) => text.push_str(phase.as_str()),
        None => text.push_str("null"),
    }
    text.push_str("]");
    Ok(Some(text))
}

/// The turn that goes on after a record: another one where the record says that it was accepted.
pub open spec fn turn_after(active_turn: Option<u64>, record: TranscriptRecord) -> Result<
    Option<u64>,
    StorageError,
> {
    if record.is("tact"@, "worker.turn_accepted"@) {
        match member(record.payload.value, "id"@, 0) {
            Some(value) => match value.unsigned() {
                Some(id) => if shaped(record.payload.value, seq!["id"]) {
                    Ok(Some(id))
                } else {
                    Err(StorageError::Payload)
                },
                None => Err(StorageError::Payload),
            },
            None => Err(StorageError::Payload),
        }
    } else {
        Ok(active_turn)
    }
}

/// The turn that goes on after a record.
pub fn next_turn(active_turn: Option<u64>, record: &TranscriptRecord) -> (turn: Result<
    Option<u64>,
    StorageError,
>)
    ensures
        turn == turn_after(active_turn, *record),
{
    if !record.is_of("tact", "worker.turn_accepted") {
        return Ok(active_turn);
    }
    if !has_only(&record.payload.value, "id") {
        return Err(StorageError::Payload);
    }
    match get_member(&record.payload.value, "id", 0) {
        Some(value) => match value.as_u64() {
            Some(id) => Ok(Some(id)),
            None => Err(StorageError::Payload),
        },
        None => Err(StorageError::Payload),
    }
}

/// A change to the database.
#[derive(Debug)]
pub enum Statement {
    /// Adds a session, or renews what is known of it.
    UpsertSession { started: SessionStarted, effort: String, reasoning_mode: String, at: i64 },
    /// Drops the parts of an answer that the whole answer replaces.
    DeleteStream { stream: String },
    /// Adds the record.
    InsertEvent {
        record: Vec<u8>,
        prompt: Option<String>,
        prompt_at: Option<i64>,
        assistant_stream: Option<String>,
    },
    /// Says when the session changed.
    Touch { at: i64 },
    /// Names the session after its first prompt.
    SetPreview { preview: String },
    SetEffort { effort: String },
    SetFastMode { enabled: bool },
}

/// A change as mathematical values.
pub enum Deed {
    UpsertSession { started: Beginning, effort: Seq<char>, reasoning_mode: Seq<char>, at: i64 },
    DeleteStream { stream: Seq<char> },
    InsertEvent {
        record: Seq<u8>,
        prompt: Option<Seq<char>>,
        prompt_at: Option<i64>,
        assistant_stream: Option<Seq<char>>,
    },
    Touch { at: i64 },
    SetPreview { preview: Seq<char> },
    SetEffort { effort: Seq<char> },
    SetFastMode { enabled: bool },
}

impl View for Statement {
    type V = Deed;

    open spec fn view(&self) -> Deed {
        match self {
            Statement::UpsertSession { started, effort, reasoning_mode, at } =>
                Deed::UpsertSession {
                started: started@,
                effort: effort@,
                reasoning_mode: reasoning_mode@,
                at: *at,
            },
            Statement::DeleteStream { stream } => Deed::DeleteStream { stream: stream@ },
            Statement::InsertEvent { record, prompt, prompt_at, assistant_stream } =>
                Deed::InsertEvent {
                record: record@,
                prompt: option_view(*prompt),
                prompt_at: *prompt_at,
                assistant_stream: option_view(*assistant_stream),
            },
            Statement::Touch { at } => Deed::Touch { at: *at },
            Statement::SetPreview { preview } => Deed::SetPreview { preview: preview@ },
            Statement::SetEffort { effort } => Deed::SetEffort { effort: effort@ },
            Statement::SetFastMode { enabled } => Deed::SetFastMode { enabled: *enabled },
        }
    }
}

pub open spec fn deeds(list: Seq<Statement>) -> Seq<Deed> {
    list.map_values(|statement: Statement| statement@)
}

/// A name as JSON text.
pub open spec fn in_quotes(name: Seq<char>) -> Seq<char> {
    "\""@ + name + "\""@
}

fn quoted_name(name: &str) -> (text: String)
    ensures
        text@ == in_quotes(name@),
{
    let mut text: String = concat("\"", name);
    text.push_str("\"");
    text
}

/// What the first record of a session changes.
pub open spec fn start_deeds(record: TranscriptRecord) -> Result<Seq<Deed>, StorageError> {
    if record.is("tact"@, "session.started"@) {
        match beginning_in(record.payload.value) {
            Some(started) => Ok(
                seq![
                    Deed::UpsertSession {
                        started,
                        effort: in_quotes(started.effort.name()),
                        reasoning_mode: in_quotes(started.reasoning_mode.name()),
                        at: sql_time(record.recorded_at_unix_ms),
                    },
                ],
            ),
            None => Err(StorageError::Payload),
        }
    } else {
        Ok(Seq::empty())
    }
}

/// What a record changes in a session's settings.
pub open spec fn setting_deeds(record: TranscriptRecord) -> Result<Seq<Deed>, StorageError> {
    let payload = record.payload.value;
    if record.is("tact"@, "effort.changed"@) {
        let effort = match text_member(payload, "to"@, 0) {
            Some(text) => ReasoningEffort::named(text),
            None => None,
        };
        match effort {
            Some(effort) => if shaped(payload, seq!["to"]) {
                Ok(seq![Deed::SetEffort { effort: in_quotes(effort.name()) }])
            } else {
                Err(StorageError::Payload)
            },
            None => Err(StorageError::Payload),
        }
    } else if record.is("tact"@, "fast_mode.changed"@) {
        match member(payload, "to"@, 0) {
            Some(Json::Truth(enabled)) => if shaped(payload, seq!["to"]) {
                Ok(seq![Deed::SetFastMode { enabled }])
            } else {
                Err(StorageError::Payload)
            },
            _ => Err(StorageError::Payload),
        }
    } else {
        Ok(Seq::empty())
    }
}

/// What a record with a prompt and a part of an answer changes, its frame given.
pub open spec fn event_deeds(
    record: TranscriptRecord,
    frame: Seq<u8>,
    prompt: Option<Seq<char>>,
    stream: Option<Seq<char>>,
) -> Seq<Deed> {
    let at = sql_time(record.recorded_at_unix_ms);
    let dropped = match stream {
        Some(stream) => if record.kind@ == "assistant.message"@ {
            seq![Deed::DeleteStream { stream }]
        } else {
            Seq::empty()
        },
        None => Seq::empty(),
    };
    let named = match prompt {
        Some(text) => {
            let preview = on_one_line(text, text.len() as int);
            if preview.len() > 0 {
                seq![Deed::SetPreview { preview }]
            } else {
                Seq::empty()
            }
        },
        None => Seq::empty(),
    };
    dropped + seq![
        Deed::InsertEvent {
            record: frame,
            prompt,
            prompt_at: if prompt is Some {
                Some(at)
            } else {
                None
            },
            assistant_stream: if record.kind@ == "assistant.delta"@ {
                stream
            } else {
                None
            },
        },
        Deed::Touch { at },
    ] + named
}

/// What a record changes, its frame given. A record that cannot be read changes nothing.
pub open spec fn record_deeds(
    active_turn: Option<u64>,
    record: TranscriptRecord,
    frame: Seq<u8>,
) -> Result<Seq<Deed>, StorageError> {
    match (
        start_deeds(record),
        prompt_in(record),
        stream_in(active_turn, record),
        setting_deeds(record),
    ) {
        (Ok(first), Ok(prompt), Ok(stream), Ok(last)) => Ok(
            first + event_deeds(record, frame, prompt, stream) + last,
        ),
        _ => Err(StorageError::Payload),
    }
}

fn start_statements(record: &TranscriptRecord) -> (list: Result<Vec<Statement>, StorageError>)
    ensures
        plans(list, start_deeds(*record)),
{
    let mut list: Vec<Statement> = Vec::new();
    if !record.is_of("tact", "session.started") {
        assert(deeds(list@) =~= Seq::<Deed>::empty());
        return Ok(list);
    }
    match read_started(&record.payload.value) {
        Some(started) => {
            let effort: String = quoted_name(started.effort.as_str());
            let reasoning_mode: String = quoted_name(started.reasoning_mode.as_str());
            let statement = Statement::UpsertSession {
                started,
                effort,
                reasoning_mode,
                at: to_sql_u64(record.recorded_at_unix_ms),
            };
            list.push(statement);
            assert(deeds(list@) =~= seq![statement@]);
            Ok(list)
        },
        None => Err(StorageError::Payload),
    }
}

fn setting_statements(record: &TranscriptRecord) -> (list: Result<Vec<Statement>, StorageError>)
    ensures
        plans(list, setting_deeds(*record)),
{
    let mut list: Vec<Statement> = Vec::new();
    if record.is_of("tact", "effort.changed") {
        let effort: Option<ReasoningEffort> = match get_text(&record.payload.value, "to", 0) {
            Some(text) => ReasoningEffort::parse(text),
            None => None,
        };
        return match effort {
            Some(effort) => {
                if !has_only(&record.payload.value, "to") {
                    return Err(StorageError::Payload);
                }
                let statement = Statement::SetEffort { effort: quoted_name(effort.as_str()) };
                list.push(statement);
                assert(deeds(list@) =~= seq![statement@]);
                Ok(list)
            },
            None => Err(StorageError::Payload),
        };
    }
    if record.is_of("tact", "fast_mode.changed") {
        return match get_member(&record.payload.value, "to", 0) {
            Some(Json::Truth(enabled)) => {
                if !has_only(&record.payload.value, "to") {
                    return Err(StorageError::Payload);
                }
                list.push(Statement::SetFastMode { enabled: *enabled });
                assert(deeds(list@) =~= seq![Deed::SetFastMode { enabled: *enabled }]);
                Ok(list)
            },
            _ => Err(StorageError::Payload),
        };
    }
    assert(deeds(list@) =~= Seq::<Deed>::empty());
    Ok(list)
}

/// A list of changes or an error as a specification names it.
pub open spec fn plans(found: Result<Vec<Statement>, StorageError>, named: Result<Seq<Deed>, StorageError>) -> bool {
    match found {
        Ok(list) => named == Ok::<Seq<Deed>, StorageError>(deeds(list@)),
        Err(error) => named == Err::<Seq<Deed>, StorageError>(error),
    }
}

fn event_statements(
    record: &TranscriptRecord,
    frame: Vec<u8>,
    prompt: Option<String>,
    stream: Option<String>,
) -> (list: Vec<Statement>)
    ensures
        deeds(list@) == event_deeds(
            *record,
            frame@,
            option_view(prompt),
            option_view(stream),
        ),
{
    let ghost wanted = event_deeds(*record, frame@, option_view(prompt), option_view(stream));
    let mut list: Vec<Statement> = Vec::new();
    let at: i64 = to_sql_u64(record.recorded_at_unix_ms);
    let whole: bool = same(record.kind.as_str(), "assistant.message");
    let part: bool = same(record.kind.as_str(), "assistant.delta");
    match &stream {
        Some(text) => {
            if whole {
                list.push(Statement::DeleteStream { stream: text.clone() });
            }
        },
        None => {},
    }
    let preview: Option<String> = match &prompt {
        Some(text) => Some(one_line_preview(text.as_str())),
        None => None,
    };
    let prompt_at: Option<i64> = if prompt.is_some() {
        Some(at)
    } else {
        None
    };
    let kept: Option<String> = if part {
        stream
    } else {
        None
    };
    list.push(Statement::InsertEvent { record: frame, prompt, prompt_at, assistant_stream: kept });
    list.push(Statement::Touch { at });
    match preview {
        Some(preview) => {
            if !preview.as_str().is_empty() {
                list.push(Statement::SetPreview { preview });
            }
        },
        None => {},
    }
    assert(deeds(list@) =~= wanted);
    list
}

/// Plans what a record changes; `frame` is the record, encoded and compressed.
pub fn plan_record(active_turn: Option<u64>, record: &TranscriptRecord, frame: Vec<u8>) -> (list:
    Result<Vec<Statement>, StorageError>)
    ensures
        plans(list, record_deeds(active_turn, *record, frame@)),
{
    let mut first: Vec<Statement> = match start_statements(record) {
        Ok(list) => list,
        Err(error) => return Err(error),
    };
    let prompt: Option<String> = match prompt_text(record) {
        Ok(text) => text,
        Err(error) => return Err(error),
    };
    let stream: Option<String> = match assistant_stream(active_turn, record) {
        Ok(stream) => stream,
        Err(error) => return Err(error),
    };
    let mut last: Vec<Statement> = match setting_statements(record) {
        Ok(list) => list,
        Err(error) => return Err(error),
    };
    let mut middle = event_statements(record, frame, prompt, stream);
    let ghost a = first@;
    let ghost b = middle@;
    let ghost c = last@;
    first.append(&mut middle);
    first.append(&mut last);
    assert(deeds(first@) =~= deeds(a) + deeds(b) + deeds(c));
    Ok(first)
}

/// A record and its encoded bytes.
#[derive(Debug)]
pub struct Encoded {
    pub record: TranscriptRecord,
    pub bytes: Vec<u8>,
}

/// What the first `n` records of a batch change one after the other, and the turn that then goes
/// on; the error of the first record that has one. A record belongs to the turn that goes on once
/// it has come.
pub open spec fn batch_deeds(active_turn: Option<u64>, records: Seq<Encoded>, n: int) -> Result<
    (Seq<Deed>, Option<u64>),
    StorageError,
>
    decreases n,
{
    if n <= 0 {
        Ok((Seq::empty(), active_turn))
    } else {
        match batch_deeds(active_turn, records, n - 1) {
            Err(error) => Err(error),
            Ok((before, turn)) => step_deeds(before, turn, records[n - 1]),
        }
    }
}

/// The changes and the turn behind one record more. A record that cannot be read is refused before
/// one that cannot be compressed.
pub open spec fn step_deeds(before: Seq<Deed>, turn: Option<u64>, next: Encoded) -> Result<
    (Seq<Deed>, Option<u64>),
    StorageError,
> {
    let frame = zstd_frame(next.bytes@, RECORD_COMPRESSION_LEVEL);
    match turn_after(turn, next.record) {
        Err(error) => Err(error),
        Ok(turn) => match record_deeds(
            turn,
            next.record,
            match frame {
                Some(frame) => frame,
                None => Seq::empty(),
            },
        ) {
            Err(error) => Err(error),
            Ok(more) => if frame is None {
                Err(StorageError::Compress)
            } else {
                Ok((before + more, turn))
            },
        },
    }
}

/// Changes and a turn, or an error, as a specification names them.
pub open spec fn plans_batch(
    found: Result<(Vec<Statement>, Option<u64>), StorageError>,
    named: Result<(Seq<Deed>, Option<u64>), StorageError>,
) -> bool {
    match found {
        Ok((list, turn)) => named == Ok::<(Seq<Deed>, Option<u64>), StorageError>(
            (deeds(list@), turn),
        ),
        Err(error) => named == Err::<(Seq<Deed>, Option<u64>), StorageError>(error),
    }
}

proof fn lemma_batch_fails(active_turn: Option<u64>, records: Seq<Encoded>, n: int, m: int)
    requires
        0 <= n <= m,
        batch_deeds(active_turn, records, n) is Err,
    ensures
        batch_deeds(active_turn, records, m) == batch_deeds(active_turn, records, n),
    decreases m - n,
{
    if n < m {
        lemma_batch_fails(active_turn, records, n, m - 1);
    }
}

fn plan_next(turn: Option<u64>, next: &Encoded) -> (plan: Result<
    (Vec<Statement>, Option<u64>),
    StorageError,
>)
    ensures
        plans_batch(plan, step_deeds(Seq::empty(), turn, *next)),
{
    let turn: Option<u64> = match next_turn(turn, &next.record) {
        Ok(turn) => turn,
        Err(error) => return Err(error),
    };
    match compress_record(next.bytes.as_slice()) {
        Ok(frame) => match plan_record(turn, &next.record, frame) {
            Ok(list) => {
                assert(Seq::<Deed>::empty() + deeds(list@) =~= deeds(list@));
                Ok((list, turn))
            },
            Err(error) => Err(error),
        },
        Err(_) => {
            let empty: Vec<u8> = Vec::new();
            assert(empty@ =~= Seq::<u8>::empty());
            match plan_record(turn, &next.record, empty) {
                Ok(_) => Err(StorageError::Compress),
                Err(error) => Err(error),
            }
        },
    }
}

/// Plans what a batch of records changes, and says which turn goes on behind it.
pub fn plan_records(active_turn: Option<u64>, records: &Vec<Encoded>) -> (plan: Result<
    (Vec<Statement>, Option<u64>),
    StorageError,
>)
    ensures
        plans_batch(plan, batch_deeds(active_turn, records@, records@.len() as int)),
{
    let mut turn: Option<u64> = active_turn;
    let mut list: Vec<Statement> = Vec::new();
    let mut i: usize = 0;
    assert(deeds(list@) =~= Seq::<Deed>::empty());
    while i < records.len()
        invariant
            i <= records@.len(),
            batch_deeds(active_turn, records@, i as int) == Ok::<
                (Seq<Deed>, Option<u64>),
                StorageError,
            >((deeds(list@), turn)),
        decreases records@.len() - i,
    {
        let ghost before = list@;
        let ghost held = turn;
        match plan_next(turn, &records[i]) {
            Ok((more, next)) => {
                let mut more: Vec<Statement> = more;
                let ghost added = more@;
                list.append(&mut more);
                turn = next;
                assert(deeds(list@) =~= deeds(before) + deeds(added));
                assert(Seq::<Deed>::empty() + deeds(added) =~= deeds(added));
                proof {
                    lemma_step(deeds(before), held, records@[i as int]);
                }
            },
            Err(error) => {
                proof {
                    lemma_step(deeds(before), held, records@[i as int]);
                    lemma_batch_fails(active_turn, records@, i + 1, records@.len() as int);
                }
                return Err(error);
            },
        }
        i = i + 1;
    }
    Ok((list, turn))
}

/// A batch may be planned in parts: what comes first changes what it changes alone, and the rest
/// goes on with the turn that is left.
pub proof fn law_batches_follow_each_other(
    active_turn: Option<u64>,
    first: Seq<Encoded>,
    second: Seq<Encoded>,
    n: int,
)
    requires
        0 <= n <= second.len(),
    ensures
        batch_deeds(active_turn, first + second, first.len() + n) == (match batch_deeds(
            active_turn,
            first,
            first.len() as int,
        ) {
            Err(error) => Err::<(Seq<Deed>, Option<u64>), StorageError>(error),
            Ok((before, turn)) => match batch_deeds(turn, second, n) {
                Err(error) => Err::<(Seq<Deed>, Option<u64>), StorageError>(error),
                Ok((after, turn)) => Ok::<(Seq<Deed>, Option<u64>), StorageError>(
                    (before + after, turn),
                ),
            },
        }),
    decreases n,
{
    if n == 0 {
        lemma_batch_prefix(active_turn, first, second, first.len() as int);
        match batch_deeds(active_turn, first, first.len() as int) {
            Ok((before, turn)) => {
                assert(before + Seq::<Deed>::empty() =~= before);
            },
            Err(_) => {},
        }
    } else {
        law_batches_follow_each_other(active_turn, first, second, n - 1);
        assert((first + second)[first.len() + n - 1] == second[n - 1]);
        match batch_deeds(active_turn, first, first.len() as int) {
            Ok((before, turn)) => match batch_deeds(turn, second, n - 1) {
                Ok((middle, left)) => {
                    lemma_step(before + middle, left, second[n - 1]);
                    lemma_step(middle, left, second[n - 1]);
                    match step_deeds(Seq::empty(), left, second[n - 1]) {
                        Ok((more, _)) => {
                            assert((before + middle) + more =~= before + (middle + more));
                        },
                        Err(_) => {},
                    }
                },
                Err(_) => {},
            },
            Err(_) => {},
        }
    }
}

proof fn lemma_batch_prefix(
    active_turn: Option<u64>,
    first: Seq<Encoded>,
    second: Seq<Encoded>,
    n: int,
)
    requires
        n <= first.len(),
    ensures
        batch_deeds(active_turn, first + second, n) == batch_deeds(active_turn, first, n),
    decreases n,
{
    if n > 0 {
        lemma_batch_prefix(active_turn, first, second, n - 1);
        assert((first + second)[n - 1] == first[n - 1]);
    }
}

proof fn lemma_step(before: Seq<Deed>, turn: Option<u64>, next: Encoded)
    ensures
        step_deeds(before, turn, next) == (match step_deeds(Seq::empty(), turn, next) {
            Ok((more, turn)) => Ok::<(Seq<Deed>, Option<u64>), StorageError>((before + more, turn)),
            Err(error) => Err::<(Seq<Deed>, Option<u64>), StorageError>(error),
        }),
{
    match step_deeds(Seq::empty(), turn, next) {
        Ok((more, _)) => {
            let frame = zstd_frame(next.bytes@, RECORD_COMPRESSION_LEVEL)->0;
            let own = record_deeds(turn_after(turn, next.record)->Ok_0, next.record, frame)->Ok_0;
            assert(Seq::<Deed>::empty() + own =~= own);
            assert(more == own);
        },
        Err(_) => {},
    }
}

/// A whole answer takes the place of its parts: the statement that adds it comes behind one that
/// drops every record of the same turn, call and phase.
pub proof fn law_answers_replace_their_parts(
    active_turn: Option<u64>,
    part: TranscriptRecord,
    whole: TranscriptRecord,
    frame: Seq<u8>,
)
    requires
        part.kind@ == "assistant.delta"@,
        whole.kind@ == "assistant.message"@,
        stream_in(active_turn, part) == stream_in(active_turn, whole),
        stream_in(active_turn, part) is Ok,
    ensures
        ({
            let stream = stream_in(active_turn, part)->Ok_0;
            &&& stream is Some
            &&& event_deeds(part, frame, None, stream)[0] == (Deed::InsertEvent {
                record: frame,
                prompt: None,
                prompt_at: None,
                assistant_stream: stream,
            })
            &&& event_deeds(whole, frame, None, stream)[0] == (Deed::DeleteStream {
                stream: stream->0,
            })
            &&& event_deeds(whole, frame, None, stream)[1] == (Deed::InsertEvent {
                record: frame,
                prompt: None,
                prompt_at: None,
                assistant_stream: None,
            })
        }),
{
    reveal_strlit("assistant.delta");
    reveal_strlit("assistant.message");
    assert("assistant.delta"@.len() != "assistant.message"@.len());
}

/// Checks the version of a stored record.
pub fn check_record(version: u32) -> (checked: Result<(), StorageError>)
    ensures
        checked == (if version == SCHEMA_VERSION {
            Ok::<(), StorageError>(())
        } else {
            Err::<(), StorageError>(StorageError::UnsupportedRecordVersion { version })
        }),
{
    if version != SCHEMA_VERSION {
        return Err(StorageError::UnsupportedRecordVersion { version });
    }
    Ok(())
}

/// Every one of the first `n` records is of this program's version.
pub open spec fn records_fit(records: Seq<TranscriptRecord>, n: int) -> bool {
    forall|i: int| 0 <= i < n ==> (#[trigger] records[i]).schema_version == SCHEMA_VERSION
}

/// The records of a session, or the version of the first one that is of another version.
pub fn load_transcript(records: Vec<TranscriptRecord>) -> (loaded: Result<
    Vec<TranscriptRecord>,
    StorageError,
>)
    ensures
        match loaded {
            Ok(list) => list@ == records@ && records_fit(records@, records@.len() as int),
            Err(error) => exists|i: int|
                #![trigger records@[i]]
                0 <= i < records@.len() && records_fit(records@, i)
                    && records@[i].schema_version != SCHEMA_VERSION && error
                    == (StorageError::UnsupportedRecordVersion {
                    version: records@[i].schema_version,
                }),
        },
{
    let mut i: usize = 0;
    while i < records.len()
        invariant
            i <= records@.len(),
            records_fit(records@, i as int),
        decreases records@.len() - i,
    {
        match check_record(records[i].schema_version) {
            Ok(()) => {},
            Err(error) => {
                assert(records@[i as int].schema_version != SCHEMA_VERSION);
                return Err(error);
            },
        }
        i = i + 1;
    }
    Ok(records)
}

/// A session as it is stored.
#[derive(Debug)]
pub struct StoredSession {
    pub session_id: String,
    pub started_at_unix_ms: u64,
    pub model: String,
    pub effort: ReasoningEffort,
    pub reasoning_mode: ReasoningMode,
    pub workspace: String,
    pub preview: String,
}

pub open spec fn summary_of(stored: StoredSession) -> SessionSummary {
    SessionSummary {
        session_id: stored.session_id,
        started_at_unix_ms: stored.started_at_unix_ms,
        model: stored.model,
        effort: stored.effort,
        reasoning_mode: stored.reasoning_mode,
        workspace: stored.workspace,
        preview: stored.preview,
    }
}

/// The summaries of stored sessions.
pub fn list(stored: Vec<StoredSession>) -> (sessions: Vec<SessionSummary>)
    ensures
        sessions@ == stored@.map_values(|session: StoredSession| summary_of(session)),
{
    let ghost all = stored@;
    let mut rest = stored;
    let mut sessions: Vec<SessionSummary> = Vec::new();
    while rest.len() > 0
        invariant
            sessions@.len() + rest@.len() == all.len(),
            rest@ == all.skip(sessions@.len() as int),
            forall|k: int|
                0 <= k < sessions@.len() ==> #[trigger] sessions@[k] == summary_of(all[k]),
        decreases rest@.len(),
    {
        let ghost done = sessions@.len() as int;
        assert(rest@[0] == all[done]);
        let session = rest.remove(0);
        sessions.push(
            SessionSummary {
                session_id: session.session_id,
                started_at_unix_ms: session.started_at_unix_ms,
                model: session.model,
                effort: session.effort,
                reasoning_mode: session.reasoning_mode,
                workspace: session.workspace,
                preview: session.preview,
            },
        );
        assert(rest@ =~= all.skip(done + 1));
    }
    assert(sessions@ =~= all.map_values(|session: StoredSession| summary_of(session)));
    sessions
}

/// The first `n` sessions without the one that is active.
pub open spec fn others_in(sessions: Seq<SessionSummary>, active: Seq<char>, n: int) -> Seq<
    SessionSummary,
>
    decreases n,
{
    if n <= 0 {
        Seq::empty()
    } else {
        let rest = others_in(sessions, active, n - 1);
        if sessions[n - 1].session_id@ == active {
            rest
        } else {
            rest.push(sessions[n - 1])
        }
    }
}

/// The sessions without the one that is active.
pub fn other_sessions(sessions: Vec<SessionSummary>, active: &str) -> (others: Vec<SessionSummary>)
    ensures
        others@ == others_in(sessions@, active@, sessions@.len() as int),
{
    let ghost all = sessions@;
    let ghost mut n: int = 0;
    let mut rest = sessions;
    let mut others: Vec<SessionSummary> = Vec::new();
    while rest.len() > 0
        invariant
            0 <= n <= all.len(),
            rest@ == all.skip(n),
            others@ == others_in(all, active@, n),
        decreases rest@.len(),
    {
        assert(rest@[0] == all[n]);
        let session = rest.remove(0);
        if !same(session.session_id.as_str(), active) {
            others.push(session);
        }
        proof {
            n = n + 1;
            assert(rest@ =~= all.skip(n));
        }
    }
    others
}

/// The first record of `from` and those behind it that starts a session; their number if none does.
pub open spec fn start_index(records: Seq<TranscriptRecord>, from: int) -> int
    decreases records.len() - from,
{
    if from >= records.len() {
        records.len() as int
    } else if records[from].is("tact"@, "session.started"@) {
        from
    } else {
        start_index(records, from + 1)
    }
}

/// The kind of reasoning of a session: what its first record says, or the standard one.
pub fn reasoning_mode(records: &Vec<TranscriptRecord>) -> (mode: ReasoningMode)
    ensures
        mode == ({
            let at = start_index(records@, 0);
            if at < records@.len() {
                match beginning_in(records@[at].payload.value) {
                    Some(started) => started.reasoning_mode,
                    None => ReasoningMode::Standard,
                }
            } else {
                ReasoningMode::Standard
            }
        }),
{
    let mut i: usize = 0;
    while i < records.len() && !records[i].is_of("tact", "session.started")
        invariant
            i <= records@.len(),
            start_index(records@, i as int) == start_index(records@, 0),
        decreases records@.len() - i,
    {
        i = i + 1;
    }
    if i == records.len() {
        return ReasoningMode::Standard;
    }
    match read_started(&records[i].payload.value) {
        Some(started) => started.reasoning_mode,
        None => ReasoningMode::Standard,
    }
}

/// Why a session cannot be resumed.
#[derive(Clone, Copy, Debug, PartialEq, Eq, Structural)]
pub enum CheckpointError {
    MissingCheckpoint,
    IncompatibleCheckpoint { found: u32 },
}

/// Checks the version of the state that a session is resumed from, if there is one.
pub fn check_checkpoint(version: Option<u32>) -> (checked: Result<(), CheckpointError>)
    ensures
        checked == (match version {
            None => Err::<(), CheckpointError>(CheckpointError::MissingCheckpoint),
            Some(found) => if found == RESUME_STATE_FORMAT_VERSION {
                Ok::<(), CheckpointError>(())
            } else {
                Err::<(), CheckpointError>(CheckpointError::IncompatibleCheckpoint { found })
            },
        }),
{
    match version {
        None => Err(CheckpointError::MissingCheckpoint),
        Some(found) => if found == RESUME_STATE_FORMAT_VERSION {
            Ok(())
        } else {
            Err(CheckpointError::IncompatibleCheckpoint { found })
        },
    }
}

} // verus!
