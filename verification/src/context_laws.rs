//! What holds of what is known of the context.

use crate::context::{
    compaction_in, tokens_told, usage_in, ContextDiagnostics, ContinuationMode, TokenUsage, Usage,
};
use crate::json::Json;
use crate::record::{shaped, TranscriptRecord};
use vstd::prelude::*;

verus! {

/// The input is what came from the cache and what did not, and the other counts are as they were
/// told.
pub proof fn law_usage_adds_up(usage: Usage)
    ensures
        ({
            let tokens = usage.tokens();
            &&& tokens.input == usage.input_tokens
            &&& tokens.output == usage.output_tokens
            &&& tokens.total == usage.total_tokens
            &&& usage.input_tokens_details is None ==> tokens.cached_input == 0
            &&& usage.input_tokens_details matches Some(details) ==> tokens.cached_input
                == details.cached_tokens
            &&& tokens.cached_input <= tokens.input ==> tokens.cached_input + tokens.uncached_input
                == tokens.input
            &&& tokens.cached_input > tokens.input ==> tokens.uncached_input == 0
        }),
{
}

/// A request goes on from the response before it exactly if it names that response, and uses the
/// cache exactly if it names a key; nothing else is learned from it.
pub proof fn law_requests_tell_how_they_go_on(diagnostics: ContextDiagnostics, request: Json)
    ensures
        ({
            let next = diagnostics.requested(request);
            &&& next.continuation == Some(ContinuationMode::PreviousResponse) <==> request.text_at(
                "previous_response_id"@,
            ) is Some
            &&& next.continuation == Some(ContinuationMode::FullContext) <==> request.text_at(
                "previous_response_id"@,
            ) is None
            &&& next.prompt_cache == Some(request.text_at("prompt_cache_key"@) is Some)
            &&& next.usage == diagnostics.usage
            &&& next.last_compaction == diagnostics.last_compaction
            &&& next.compactions_started == diagnostics.compactions_started
            &&& next.compactions_completed == diagnostics.compactions_completed
        }),
{
}

/// A compaction is counted when it begins and again when it ends, with the time of each. What was in
/// the context before is what the record tells.
pub proof fn law_compactions_are_counted(
    diagnostics: ContextDiagnostics,
    payload: Json,
    began: u64,
    ended: u64,
)
    requires
        diagnostics.compactions_started < u64::MAX,
        diagnostics.compactions_completed < u64::MAX,
    ensures
        ({
            let during = diagnostics.compacting(payload, began);
            let after = during.compacted(ended);
            &&& during.compactions_started == diagnostics.compactions_started + 1
            &&& during.compactions_completed == diagnostics.compactions_completed
            &&& during.last_compaction matches Some(compaction)
            &&& compaction.started_at_unix_ms == began
            &&& compaction.completed_at_unix_ms is None
            &&& compaction.after_tokens is None
            &&& compaction_in(payload) matches Some(found) ==> compaction.before_tokens == Some(
                found.0,
            )
            &&& after.compactions_completed == diagnostics.compactions_completed + 1
            &&& after.compactions_started == during.compactions_started
            &&& after.last_compaction matches Some(done)
            &&& done.completed_at_unix_ms == Some(ended)
            &&& done.before_tokens == compaction.before_tokens
            &&& after.usage == diagnostics.usage
        }),
{
}

/// A record of a compaction tells the tokens in use and, unless it leaves it out, the limit.
pub proof fn law_compactions_tell_their_tokens(payload: Json, tokens: u64)
    requires
        payload is Object,
        shaped(payload, seq!["active_context_tokens", "auto_compact_token_limit"]),
        payload.at("active_context_tokens"@) matches Some(value) && value.unsigned() == Some(tokens),
    ensures
        payload.at("auto_compact_token_limit"@) is None ==> compaction_in(payload) == Some(
            (tokens, None::<u64>),
        ),
        payload.at("auto_compact_token_limit"@) matches Some(value) ==> value.unsigned() is Some
            ==> compaction_in(payload) == Some((tokens, value.unsigned())),
{
}

/// Where nothing is told of the usage, the usage that is known stays.
pub proof fn law_usage_stays_known(diagnostics: ContextDiagnostics, tokens: TokenUsage)
    ensures
        diagnostics.used(None) == diagnostics,
        diagnostics.used(Some(tokens)).usage == Some(tokens),
        !diagnostics.used(Some(tokens)).awaiting_post_compaction_usage,
        diagnostics.used(Some(tokens)).compactions_started == diagnostics.compactions_started,
        diagnostics.used(Some(tokens)).continuation == diagnostics.continuation,
        diagnostics.last_compaction is None ==> diagnostics.used(Some(tokens)).last_compaction is None,
{
}

/// A response that is complete tells the tokens in use: those of its `total_tokens`. A request tells
/// none.
pub proof fn law_complete_responses_tell_tokens(record: TranscriptRecord, event: Json, total: u64)
    requires
        record.is("agent"@, "api.event"@),
        record.payload.value is Object,
        shaped(record.payload.value, seq!["direction", "phase", "event"]),
        record.payload.value.at("event"@) == Some(event),
        record.payload.value.text_at("phase"@) == Some("generation"@),
        event.text_at("type"@) == Some("response.completed"@),
        event.at("response"@) matches Some(response) && response.at("usage"@) matches Some(usage)
            && usage.at("total_tokens"@) matches Some(value) && value.unsigned() == Some(total),
    ensures
        record.payload.value.text_at("direction"@) == Some("inbound"@) ==> tokens_told(record)
            == Some(total),
        record.payload.value.text_at("direction"@) == Some("outbound"@) ==> tokens_told(record) is None,
{
    reveal_strlit("inbound");
    reveal_strlit("outbound");
    assert("inbound"@.len() != "outbound"@.len());
}

/// What is known of the context after a record depends on the records before it only through what
/// was known before, so a session that is loaded knows what it knew.
pub proof fn law_context_is_rebuilt(records: Seq<TranscriptRecord>, next: TranscriptRecord, n: int)
    requires
        0 <= n <= records.len(),
    ensures
        ContextDiagnostics::rebuilt(records.push(next), n) == ContextDiagnostics::rebuilt(
            records,
            n,
        ),
        ContextDiagnostics::rebuilt(records.push(next), records.len() as int + 1)
            == ContextDiagnostics::rebuilt(records.push(next), records.len() as int).told(next),
    decreases n,
{
    if n > 0 {
        law_context_is_rebuilt(records, next, n - 1);
    }
}

/// A count that is left out is zero; one that is there must be a whole number.
pub proof fn law_counts_may_be_left_out(value: Json, n: u64)
    ensures
        crate::context::number_or_zero(None) == Some(0u64),
        value.unsigned() == Some(n) ==> crate::context::number_or_zero(Some(value)) == Some(n),
        value.unsigned() is None ==> crate::context::number_or_zero(Some(value)) is None,
{
}

/// Details may be left out or null; an object of details tells the cached tokens.
pub proof fn law_details_may_be_left_out(value: Json, raw: bool, n: u64)
    ensures
        crate::context::details_of(None, raw) == Some(None::<crate::context::InputTokenDetails>),
        crate::context::details_of(Some(Json::Null), raw) == Some(
            None::<crate::context::InputTokenDetails>,
        ),
        value is Object && value.at("cached_tokens"@) is Some && value.at(
            "cached_tokens"@,
        )->0.unsigned() == Some(n) ==> crate::context::details_of(Some(value), false) == Some(
            Some(crate::context::InputTokenDetails { cached_tokens: n }),
        ),
        value is Truth || value is Text || value is Number ==> crate::context::details_of(
            Some(value),
            raw,
        ) is None,
{
}

/// At first nothing is known but the sizes of the window, and nothing was compacted.
pub proof fn law_nothing_is_known_at_first()
    ensures
        ({
            let diagnostics = ContextDiagnostics::unknown();
            &&& diagnostics.usage is None && diagnostics.continuation is None
                && diagnostics.prompt_cache is None && diagnostics.last_compaction is None
            &&& diagnostics.compactions_started == 0 && diagnostics.compactions_completed == 0
            &&& !diagnostics.awaiting_post_compaction_usage
            &&& diagnostics.model_window_tokens == 272_000
            &&& 10 * diagnostics.auto_compact_token_limit == 9 * diagnostics.model_window_tokens
        }),
{
}

/// A message changes how a request goes on only where it is a request, and the usage only where it is
/// a reply; it compacts nothing.
pub proof fn law_messages_compact_nothing(diagnostics: ContextDiagnostics, payload: Json)
    ensures
        ({
            let next = diagnostics.messaged(payload);
            &&& next.compactions_started == diagnostics.compactions_started
            &&& next.compactions_completed == diagnostics.compactions_completed
            &&& next.model_window_tokens == diagnostics.model_window_tokens
            &&& crate::context::generation_event(payload, "outbound"@) is Some ==> next.usage
                == diagnostics.usage && next.continuation is Some && next.prompt_cache is Some
            &&& crate::context::generation_event(payload, "outbound"@) is None
                ==> next.continuation == diagnostics.continuation && next.prompt_cache
                == diagnostics.prompt_cache
            &&& crate::context::api_event(payload) is None ==> next == diagnostics
        }),
{
}

/// Raw fields are held to more than read ones: where raw fields are accepted, read ones are too, and
/// without repeated fields there is no difference.
pub proof fn law_raw_fields_are_not_repeated(value: Json, names: Seq<&'static str>)
    ensures
        crate::record::shaped(value, names) ==> crate::record::formed(value, names.len() as int),
        crate::record::formed(value, names.len() as int) && (value matches Json::Object(fields)
            ==> forall|i: int, j: int|
            0 <= i < j < fields@.len() ==> (#[trigger] fields@[i]).name@ != (
            #[trigger] fields@[j]).name@) ==> crate::record::shaped(value, names),
{
}

/// The usage that a response tells is read field by field; what is left out counts as zero.
pub proof fn law_usage_is_read_by_name(value: Json, input: u64, output: u64, total: u64)
    requires
        value is Object,
        value.at("input_tokens"@) is Some,
        value.at("input_tokens"@)->0.unsigned() == Some(input),
        value.at("output_tokens"@) is Some,
        value.at("output_tokens"@)->0.unsigned() == Some(output),
        value.at("total_tokens"@) is Some,
        value.at("total_tokens"@)->0.unsigned() == Some(total),
        value.at("input_tokens_details"@) is None,
    ensures
        crate::context::usage_in(value, false) is Some,
        crate::context::usage_in(value, false)->0.input_tokens == input,
        crate::context::usage_in(value, false)->0.output_tokens == output,
        crate::context::usage_in(value, false)->0.total_tokens == total,
        crate::context::tokens_in(value) is Some,
        crate::context::tokens_in(value)->0.input == input,
        crate::context::tokens_in(value)->0.uncached_input == input,
        crate::context::tokens_in(value)->0.cached_input == 0,
        crate::context::tokens_in(value)->0.output == output,
        crate::context::tokens_in(value)->0.total == total,
{
}

} // verus!
