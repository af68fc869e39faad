//! What a session's telemetry says of its context: counts and modes, never contents.

use crate::json::{refers, Json};
use crate::record::{
    formed, get_member, is_formed, is_shaped, member, shaped, TranscriptRecord,
};
use crate::text::same;
use vstd::prelude::*;

verus! {

/// How a request hands over the conversation.
#[derive(Clone, Copy, Debug, PartialEq, Eq, Structural)]
pub enum ContinuationMode {
    FullContext,
    PreviousResponse,
}

/// The tokens that the model's window holds.
pub const MODEL_WINDOW_TOKENS: u64 = 272_000;

/// The tokens at which the context is compacted, unless a compaction says otherwise.
pub const AUTO_COMPACT_TOKEN_LIMIT: u64 = 244_800;

/// The tokens of a call.
#[derive(Clone, Copy, Debug, PartialEq, Eq, Structural)]
pub struct TokenUsage {
    pub input: u64,
    pub cached_input: u64,
    pub uncached_input: u64,
    pub output: u64,
    pub total: u64,
}

/// Why the context was compacted.
#[derive(Clone, Copy, Debug, PartialEq, Eq, Structural)]
pub enum CompactionTrigger {
    Automatic,
}

/// A compaction: its times, and the tokens before and after it.
#[derive(Clone, Copy, Debug, PartialEq, Eq, Structural)]
pub struct CompactionDiagnostics {
    pub trigger: CompactionTrigger,
    pub started_at_unix_ms: u64,
    pub completed_at_unix_ms: Option<u64>,
    pub before_tokens: Option<u64>,
    pub after_tokens: Option<u64>,
}

/// What is known of the context. Nothing in it is content of a request or an identifier.
#[derive(Clone, Copy, Debug, PartialEq, Eq, Structural)]
pub struct ContextDiagnostics {
    pub model_window_tokens: u64,
    pub auto_compact_token_limit: u64,
    pub usage: Option<TokenUsage>,
    pub continuation: Option<ContinuationMode>,
    pub prompt_cache: Option<bool>,
    pub compactions_started: u64,
    pub compactions_completed: u64,
    pub last_compaction: Option<CompactionDiagnostics>,
    pub awaiting_post_compaction_usage: bool,
}

/// A call's usage as it is reported.
#[derive(Clone, Copy, Debug, PartialEq, Eq, Structural)]
pub struct Usage {
    pub input_tokens: u64,
    pub input_tokens_details: Option<InputTokenDetails>,
    pub output_tokens: u64,
    pub total_tokens: u64,
}

/// The tokens of the input that came from a cache.
#[derive(Clone, Copy, Debug, PartialEq, Eq, Structural)]
pub struct InputTokenDetails {
    pub cached_tokens: u64,
}

impl Usage {
    pub open spec fn tokens(self) -> TokenUsage {
        let cached: int = match self.input_tokens_details {
            Some(details) => details.cached_tokens as int,
            None => 0,
        };
        TokenUsage {
            input: self.input_tokens,
            cached_input: cached as u64,
            uncached_input: if self.input_tokens >= cached {
                (self.input_tokens - cached) as u64
            } else {
                0
            },
            output: self.output_tokens,
            total: self.total_tokens,
        }
    }

    /// The tokens of the call.
    pub fn into_tokens(self) -> (tokens: TokenUsage)
        ensures
            tokens == self.tokens(),
    {
        let cached_input: u64 = match self.input_tokens_details {
            Some(details) => details.cached_tokens,
            None => 0,
        };
        TokenUsage {
            input: self.input_tokens,
            cached_input,
            uncached_input: self.input_tokens.saturating_sub(cached_input),
            output: self.output_tokens,
            total: self.total_tokens,
        }
    }
}

/// A number that may be left out.
pub open spec fn number_or_zero(value: Option<Json>) -> Option<u64> {
    match value {
        None => Some(0),
        Some(value) => value.unsigned(),
    }
}

/// The fields of a usage.
pub open spec fn usage_fields() -> Seq<&'static str> {
    seq!["input_tokens", "input_tokens_details", "output_tokens", "total_tokens"]
}

/// A value can be read as a structure: its text, where `raw` says that it comes from there, or the
/// value that was read before.
pub open spec fn readable(value: Json, names: Seq<&'static str>, raw: bool) -> bool {
    if raw {
        shaped(value, names)
    } else {
        formed(value, names.len() as int)
    }
}

fn is_readable(value: &Json, names: &Vec<&'static str>, raw: bool) -> (yes: bool)
    ensures
        yes == readable(*value, names@, raw),
{
    if raw {
        is_shaped(value, names)
    } else {
        is_formed(value, names.len())
    }
}

/// The details that may be left out or null; nothing where they cannot be read.
pub open spec fn details_of(value: Option<Json>, raw: bool) -> Option<Option<InputTokenDetails>> {
    match value {
        None => Some(None),
        Some(Json::Null) => Some(None),
        Some(value) => if readable(value, seq!["cached_tokens"], raw) {
            match number_or_zero(member(value, "cached_tokens"@, 0)) {
                Some(cached_tokens) => Some(Some(InputTokenDetails { cached_tokens })),
                None => None,
            }
        } else {
            None
        },
    }
}

/// The usage that a value reports; nothing where it cannot be read.
pub open spec fn usage_in(value: Json, raw: bool) -> Option<Usage> {
    if !readable(value, usage_fields(), raw) {
        None
    } else {
        match (
            number_or_zero(member(value, "input_tokens"@, 0)),
            details_of(member(value, "input_tokens_details"@, 1), raw),
            number_or_zero(member(value, "output_tokens"@, 2)),
            number_or_zero(member(value, "total_tokens"@, 3)),
        ) {
            (Some(input), Some(details), Some(output), Some(total)) => Some(
                Usage {
                    input_tokens: input,
                    input_tokens_details: details,
                    output_tokens: output,
                    total_tokens: total,
                },
            ),
            _ => None,
        }
    }
}

fn read_number(value: Option<&Json>) -> (number: Option<u64>)
    ensures
        value matches Some(found) ==> number == number_or_zero(Some(*found)),
        value is None ==> number == number_or_zero(None),
{
    match value {
        None => Some(0),
        Some(value) => value.as_u64(),
    }
}

fn read_details(value: Option<&Json>, raw: bool) -> (details: Option<Option<InputTokenDetails>>)
    ensures
        value matches Some(found) ==> details == details_of(Some(*found), raw),
        value is None ==> details == details_of(None, raw),
{
    let value: &Json = match value {
        None => return Some(None),
        Some(value) => value,
    };
    if let Json::Null = value {
        return Some(None);
    }
    let names: Vec<&'static str> = vec!["cached_tokens"];
    assert(names@ =~= seq!["cached_tokens"]);
    if !is_readable(value, &names, raw) {
        return None;
    }
    match read_number(get_member(value, "cached_tokens", 0)) {
        Some(cached_tokens) => Some(Some(InputTokenDetails { cached_tokens })),
        None => None,
    }
}

/// The usage that a value reports.
pub fn read_usage(value: &Json, raw: bool) -> (usage: Option<Usage>)
    ensures
        usage == usage_in(*value, raw),
{
    let names: Vec<&'static str> = vec![
        "input_tokens",
        "input_tokens_details",
        "output_tokens",
        "total_tokens",
    ];
    assert(names@ =~= usage_fields());
    if !is_readable(value, &names, raw) {
        return None;
    }
    let input = read_number(get_member(value, "input_tokens", 0));
    let details = read_details(get_member(value, "input_tokens_details", 1), raw);
    let output = read_number(get_member(value, "output_tokens", 2));
    let total = read_number(get_member(value, "total_tokens", 3));
    match (input, details, output, total) {
        (Some(input), Some(details), Some(output), Some(total)) => Some(
            Usage {
                input_tokens: input,
                input_tokens_details: details,
                output_tokens: output,
                total_tokens: total,
            },
        ),
        _ => None,
    }
}

/// The tokens of a usage.
pub open spec fn tokens_of(usage: Option<Usage>) -> Option<TokenUsage> {
    match usage {
        Some(usage) => Some(usage.tokens()),
        None => None,
    }
}

/// The tokens that a value reports.
pub open spec fn tokens_in(value: Json) -> Option<TokenUsage> {
    tokens_of(usage_in(value, false))
}

fn count_tokens(usage: Option<Usage>) -> (tokens: Option<TokenUsage>)
    ensures
        tokens == tokens_of(usage),
{
    match usage {
        Some(usage) => Some(usage.into_tokens()),
        None => None,
    }
}

/// The tokens that a value reports.
pub fn usage_from_value(value: &Json) -> (tokens: Option<TokenUsage>)
    ensures
        tokens == tokens_in(*value),
{
    count_tokens(read_usage(value, false))
}

/// A message to or from the model's interface: its direction, its phase and itself.
pub open spec fn api_event(payload: Json) -> Option<(Seq<char>, Seq<char>, Json)> {
    match (
        member(payload, "direction"@, 0),
        member(payload, "phase"@, 1),
        member(payload, "event"@, 2),
    ) {
        (Some(direction), Some(phase), Some(event)) => match (direction.text(), phase.text()) {
            (Some(direction), Some(phase)) => if shaped(payload, seq!["direction", "phase", "event"]) {
                Some((direction, phase, event))
            } else {
                None
            },
            _ => None,
        },
        _ => None,
    }
}

/// The message if it is one of the generation phase and of that direction.
pub open spec fn generation_event(payload: Json, direction: Seq<char>) -> Option<Json> {
    match api_event(payload) {
        Some((way, phase, event)) => if phase == "generation"@ && way == direction {
            Some(event)
        } else {
            None
        },
        None => None,
    }
}

fn read_generation<'a>(payload: &'a Json, direction: &str) -> (event: Option<&'a Json>)
    ensures
        refers(event, generation_event(*payload, direction@)),
{
    let way = get_member(payload, "direction", 0);
    let phase = get_member(payload, "phase", 1);
    let event = get_member(payload, "event", 2);
    let names: Vec<&'static str> = vec!["direction", "phase", "event"];
    assert(names@ =~= seq!["direction", "phase", "event"]);
    match (way, phase, event) {
        (Some(way), Some(phase), Some(event)) => match (way.as_str(), phase.as_str()) {
            (Some(way), Some(phase)) => if is_shaped(payload, &names) && same(phase, "generation")
                && same(way, direction) {
                Some(event)
            } else {
                None
            },
            _ => None,
        },
        _ => None,
    }
}

/// The usage of a message that says that a response is complete.
pub open spec fn response_usage(event: Json) -> Option<Json> {
    if event.text_at("type"@) == Some("response.completed"@) {
        match event.at("response"@) {
            Some(response) => response.at("usage"@),
            None => None,
        }
    } else {
        None
    }
}

fn read_response_usage(event: &Json) -> (usage: Option<&Json>)
    ensures
        refers(usage, response_usage(*event)),
{
    match event.str_at("type") {
        Some(kind) => {
            if !same(kind, "response.completed") {
                return None;
            }
        },
        None => return None,
    }
    match event.get("response") {
        Some(response) => response.get("usage"),
        None => None,
    }
}

/// A field that holds a string.
pub open spec fn names(request: Json, field: Seq<char>) -> bool {
    request.text_at(field) is Some
}

/// The tokens of a compaction's start, and its limit; nothing where they cannot be read.
pub open spec fn compaction_in(payload: Json) -> Option<(u64, Option<u64>)> {
    let limit = match member(payload, "auto_compact_token_limit"@, 1) {
        None => Some(None),
        Some(Json::Null) => Some(None),
        Some(value) => match value.unsigned() {
            Some(limit) => Some(Some(limit)),
            None => None,
        },
    };
    match member(payload, "active_context_tokens"@, 0) {
        Some(value) => match (value.unsigned(), limit) {
            (Some(tokens), Some(limit)) => if shaped(
                payload,
                seq!["active_context_tokens", "auto_compact_token_limit"],
            ) {
                Some((tokens, limit))
            } else {
                None
            },
            _ => None,
        },
        None => None,
    }
}

fn read_compaction(payload: &Json) -> (found: Option<(u64, Option<u64>)>)
    ensures
        found == compaction_in(*payload),
{
    let limit: Option<Option<u64>> = match get_member(payload, "auto_compact_token_limit", 1) {
        None => Some(None),
        Some(Json::Null) => Some(None),
        Some(value) => match value.as_u64() {
            Some(limit) => Some(Some(limit)),
            None => None,
        },
    };
    let names: Vec<&'static str> = vec!["active_context_tokens", "auto_compact_token_limit"];
    assert(names@ =~= seq!["active_context_tokens", "auto_compact_token_limit"]);
    match get_member(payload, "active_context_tokens", 0) {
        Some(value) => match (value.as_u64(), limit) {
            (Some(tokens), Some(limit)) => if is_shaped(payload, &names) {
                Some((tokens, limit))
            } else {
                None
            },
            _ => None,
        },
        None => None,
    }
}

/// The tokens of a completed call: nothing where it cannot be read, or reports none.
pub open spec fn call_usage(payload: Json) -> Option<TokenUsage> {
    if !shaped(payload, seq!["usage"]) {
        None
    } else {
        match member(payload, "usage"@, 0) {
            None => None,
            Some(Json::Null) => None,
            Some(value) => tokens_of(usage_in(value, true)),
        }
    }
}

pub open spec fn next_count(n: u64) -> u64 {
    if n == u64::MAX {
        n
    } else {
        (n + 1) as u64
    }
}

impl ContextDiagnostics {
    /// Nothing is known yet.
    pub open spec fn unknown() -> ContextDiagnostics {
        ContextDiagnostics {
            model_window_tokens: MODEL_WINDOW_TOKENS,
            auto_compact_token_limit: AUTO_COMPACT_TOKEN_LIMIT,
            usage: None,
            continuation: None,
            prompt_cache: None,
            compactions_started: 0,
            compactions_completed: 0,
            last_compaction: None,
            awaiting_post_compaction_usage: false,
        }
    }

    /// A call reported its tokens. The first report after a compaction tells what is left.
    pub open spec fn used(self, usage: Option<TokenUsage>) -> ContextDiagnostics {
        match usage {
            None => self,
            Some(tokens) => ContextDiagnostics {
                usage: Some(tokens),
                last_compaction: match self.last_compaction {
                    Some(compaction) => Some(
                        if self.awaiting_post_compaction_usage {
                            CompactionDiagnostics {
                                after_tokens: Some(tokens.input),
                                ..compaction
                            }
                        } else {
                            compaction
                        },
                    ),
                    None => None,
                },
                awaiting_post_compaction_usage: false,
                ..self
            },
        }
    }

    /// A request went out.
    pub open spec fn requested(self, request: Json) -> ContextDiagnostics {
        ContextDiagnostics {
            prompt_cache: Some(names(request, "prompt_cache_key"@)),
            continuation: Some(
                if names(request, "previous_response_id"@) {
                    ContinuationMode::PreviousResponse
                } else {
                    ContinuationMode::FullContext
                },
            ),
            ..self
        }
    }

    /// A message of the model's interface.
    pub open spec fn messaged(self, payload: Json) -> ContextDiagnostics {
        match (
            generation_event(payload, "outbound"@),
            generation_event(payload, "inbound"@),
        ) {
            (Some(request), _) => self.requested(request),
            (None, Some(event)) => match response_usage(event) {
                Some(usage) => self.used(tokens_in(usage)),
                None => self,
            },
            (None, None) => self,
        }
    }

    /// A compaction started.
    pub open spec fn compacting(self, payload: Json, at: u64) -> ContextDiagnostics {
        let found = compaction_in(payload);
        ContextDiagnostics {
            auto_compact_token_limit: match found {
                Some((_, Some(limit))) => limit,
                _ => self.auto_compact_token_limit,
            },
            compactions_started: next_count(self.compactions_started),
            last_compaction: Some(
                CompactionDiagnostics {
                    trigger: CompactionTrigger::Automatic,
                    started_at_unix_ms: at,
                    completed_at_unix_ms: None,
                    before_tokens: match found {
                        Some((tokens, _)) => Some(tokens),
                        None => None,
                    },
                    after_tokens: None,
                },
            ),
            awaiting_post_compaction_usage: false,
            ..self
        }
    }

    /// A compaction ended.
    pub open spec fn compacted(self, at: u64) -> ContextDiagnostics {
        ContextDiagnostics {
            compactions_completed: next_count(self.compactions_completed),
            last_compaction: match self.last_compaction {
                Some(compaction) => Some(
                    CompactionDiagnostics { completed_at_unix_ms: Some(at), ..compaction },
                ),
                None => None,
            },
            awaiting_post_compaction_usage: self.last_compaction is Some
                || self.awaiting_post_compaction_usage,
            ..self
        }
    }

    /// A record tells something.
    pub open spec fn told(self, record: TranscriptRecord) -> ContextDiagnostics {
        let payload = record.payload.value;
        if record.is("agent"@, "api.event"@) {
            self.messaged(payload)
        } else if record.is("agent"@, "model.call.completed"@) {
            self.used(call_usage(payload))
        } else if record.is("agent"@, "model.compaction.started"@) {
            self.compacting(payload, record.recorded_at_unix_ms)
        } else if record.is("agent"@, "model.compaction.completed"@) {
            self.compacted(record.recorded_at_unix_ms)
        } else {
            self
        }
    }

    /// What the first `n` records tell.
    pub open spec fn rebuilt(records: Seq<TranscriptRecord>, n: int) -> ContextDiagnostics
        decreases n,
    {
        if n <= 0 {
            Self::unknown()
        } else {
            Self::rebuilt(records, n - 1).told(records[n - 1])
        }
    }

    /// Nothing is known yet.
    pub fn new() -> (diagnostics: Self)
        ensures
            diagnostics == Self::unknown(),
    {
        ContextDiagnostics {
            model_window_tokens: MODEL_WINDOW_TOKENS,
            auto_compact_token_limit: AUTO_COMPACT_TOKEN_LIMIT,
            usage: None,
            continuation: None,
            prompt_cache: None,
            compactions_started: 0,
            compactions_completed: 0,
            last_compaction: None,
            awaiting_post_compaction_usage: false,
        }
    }

    /// What records tell.
    pub fn rebuild(records: &Vec<TranscriptRecord>) -> (diagnostics: Self)
        ensures
            diagnostics == Self::rebuilt(records@, records@.len() as int),
    {
        let mut diagnostics = Self::new();
        let mut i: usize = 0;
        while i < records.len()
            invariant
                i <= records@.len(),
                diagnostics == Self::rebuilt(records@, i as int),
            decreases records@.len() - i,
        {
            diagnostics.observe(&records[i]);
            i = i + 1;
        }
        diagnostics
    }

    /// Takes in a record.
    pub fn observe(&mut self, record: &TranscriptRecord)
        ensures
            *final(self) == old(self).told(*record),
    {
        if record.is_of("agent", "api.event") {
            self.observe_api_event(record);
        } else if record.is_of("agent", "model.call.completed") {
            self.observe_model_call_completed(record);
        } else if record.is_of("agent", "model.compaction.started") {
            self.observe_compaction_started(record);
        } else if record.is_of("agent", "model.compaction.completed") {
            self.observe_compaction_completed(record);
        }
    }

    /// Takes in a message of the model's interface.
    pub fn observe_api_event(&mut self, record: &TranscriptRecord)
        ensures
            *final(self) == old(self).messaged(record.payload.value),
    {
        match read_generation(&record.payload.value, "outbound") {
            Some(request) => {
                self.observe_request(request);
                return ;
            },
            None => {},
        }
        match read_generation(&record.payload.value, "inbound") {
            Some(event) => self.observe_response_event(event),
            None => {},
        }
    }

    /// Takes in a request.
    pub fn observe_request(&mut self, request: &Json)
        ensures
            *final(self) == old(self).requested(*request),
    {
        self.prompt_cache = Some(request.str_at("prompt_cache_key").is_some());
        self.continuation = Some(
            if request.str_at("previous_response_id").is_some() {
                ContinuationMode::PreviousResponse
            } else {
                ContinuationMode::FullContext
            },
        );
    }

    /// Takes in a message of a response.
    pub fn observe_response_event(&mut self, event: &Json)
        ensures
            *final(self) == (match response_usage(*event) {
                Some(usage) => old(self).used(tokens_in(usage)),
                None => *old(self),
            }),
    {
        match read_response_usage(event) {
            Some(usage) => self.set_usage(usage_from_value(usage)),
            None => {},
        }
    }

    /// Takes in a completed call.
    pub fn observe_model_call_completed(&mut self, record: &TranscriptRecord)
        ensures
            *final(self) == old(self).used(call_usage(record.payload.value)),
    {
        let names: Vec<&'static str> = vec!["usage"];
        assert(names@ =~= seq!["usage"]);
        if !is_shaped(&record.payload.value, &names) {
            return ;
        }
        match get_member(&record.payload.value, "usage", 0) {
            None => {},
            Some(Json::Null) => {},
            Some(value) => self.set_usage(count_tokens(read_usage(value, true))),
        }
    }

    /// Takes in the tokens of a call.
    pub fn set_usage(&mut self, usage: Option<TokenUsage>)
        ensures
            *final(self) == old(self).used(usage),
    {
        let usage: TokenUsage = match usage {
            Some(usage) => usage,
            None => return ,
        };
        self.usage = Some(usage);
        if self.awaiting_post_compaction_usage {
            match self.last_compaction {
                Some(compaction) => {
                    let mut compaction = compaction;
                    compaction.after_tokens = Some(usage.input);
                    self.last_compaction = Some(compaction);
                },
                None => {},
            }
            self.awaiting_post_compaction_usage = false;
        }
    }

    /// Takes in the start of a compaction.
    pub fn observe_compaction_started(&mut self, record: &TranscriptRecord)
        ensures
            *final(self) == old(self).compacting(
                record.payload.value,
                record.recorded_at_unix_ms,
            ),
    {
        let found = read_compaction(&record.payload.value);
        let before_tokens: Option<u64> = match found {
            Some((tokens, _)) => Some(tokens),
            None => None,
        };
        match found {
            Some((_, Some(limit))) => {
                self.auto_compact_token_limit = limit;
            },
            _ => {},
        }
        self.compactions_started = self.compactions_started.saturating_add(1);
        self.last_compaction = Some(
            CompactionDiagnostics {
                trigger: CompactionTrigger::Automatic,
                started_at_unix_ms: record.recorded_at_unix_ms,
                completed_at_unix_ms: None,
                before_tokens,
                after_tokens: None,
            },
        );
        self.awaiting_post_compaction_usage = false;
    }

    /// Takes in the end of a compaction.
    pub fn observe_compaction_completed(&mut self, record: &TranscriptRecord)
        ensures
            *final(self) == old(self).compacted(record.recorded_at_unix_ms),
    {
        self.compactions_completed = self.compactions_completed.saturating_add(1);
        match self.last_compaction {
            Some(compaction) => {
                let mut compaction = compaction;
                compaction.completed_at_unix_ms = Some(record.recorded_at_unix_ms);
                self.last_compaction = Some(compaction);
                self.awaiting_post_compaction_usage = true;
            },
            None => {},
        }
    }
}

/// The tokens of the context that a record tells: those of a completed response.
pub open spec fn tokens_told(record: TranscriptRecord) -> Option<u64> {
    if !record.is("agent"@, "api.event"@) {
        None
    } else {
        match generation_event(record.payload.value, "inbound"@) {
            Some(event) => match response_usage(event) {
                Some(usage) => match usage.at("total_tokens"@) {
                    Some(total) => total.unsigned(),
                    None => None,
                },
                None => None,
            },
            None => None,
        }
    }
}

/// The tokens of the context that a record tells.
pub fn completed_transcript_tokens(record: &TranscriptRecord) -> (tokens: Option<u64>)
    ensures
        tokens == tokens_told(*record),
{
    if !record.is_of("agent", "api.event") {
        return None;
    }
    match read_generation(&record.payload.value, "inbound") {
        Some(event) => match read_response_usage(event) {
            Some(usage) => match usage.get("total_tokens") {
                Some(total) => total.as_u64(),
                None => None,
            },
            None => None,
        },
        None => None,
    }
}

/// The first usage after a compaction tells what the compaction left, and no later one does.
pub proof fn law_first_usage_after_a_compaction(
    diagnostics: ContextDiagnostics,
    payload: Json,
    started: u64,
    ended: u64,
    first: TokenUsage,
    second: TokenUsage,
)
    ensures
        ({
            let after = diagnostics.compacting(payload, started).compacted(ended).used(Some(first));
            &&& after.last_compaction matches Some(compaction)
            &&& compaction.started_at_unix_ms == started
            &&& compaction.completed_at_unix_ms == Some(ended)
            &&& compaction.after_tokens == Some(first.input)
            &&& after.used(Some(second)).last_compaction == after.last_compaction
            &&& after.used(Some(second)).usage == Some(second)
        }),
{
}

/// Records that are not the agent's tell nothing.
pub proof fn law_other_records_tell_nothing(
    diagnostics: ContextDiagnostics,
    record: TranscriptRecord,
)
    requires
        record.source@ != "agent"@,
    ensures
        diagnostics.told(record) == diagnostics,
        tokens_told(record) is None,
{
}

} // verus!
