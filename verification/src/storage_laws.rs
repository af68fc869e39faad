//! What holds of what is stored.

use crate::json::{or_text, Json};
use crate::numeral::{decimal, law_numbers_read_back};
use crate::recent_prompts::on_one_line;
use crate::record::{member, TranscriptRecord};
use crate::session::SessionSummary;
use crate::settings::{ReasoningEffort, ReasoningMode};
use crate::storage::{
    batch_deeds, beginning_in, call_index, event_deeds, others_in, phase_in, prompt_in,
    record_deeds, setting_deeds, sql_time, start_deeds, start_index, stream_in, summary_of,
    text_member, turn_after, zstd_frame, Deed, Encoded, StoredSession, RECORD_COMPRESSION_LEVEL,
};
use vstd::prelude::*;

verus! {

/// What the database says of a session.
pub struct Held {
    pub fast_mode: Option<bool>,
    pub effort: Option<Seq<char>>,
    pub changed_at: Option<i64>,
    pub prompts: Seq<(Seq<char>, i64)>,
    pub records: Seq<Seq<u8>>,
}

impl Held {
    /// With one change made.
    pub open spec fn with(self, deed: Deed) -> Held {
        match deed {
            Deed::UpsertSession { started, effort, at, .. } => Held {
                fast_mode: Some(started.fast_mode),
                effort: Some(effort),
                changed_at: Some(at),
                ..self
            },
            Deed::SetFastMode { enabled } => Held { fast_mode: Some(enabled), ..self },
            Deed::SetEffort { effort } => Held { effort: Some(effort), ..self },
            Deed::Touch { at } => Held { changed_at: Some(at), ..self },
            Deed::InsertEvent { record, prompt, prompt_at, .. } => Held {
                records: self.records.push(record),
                prompts: match (prompt, prompt_at) {
                    (Some(text), Some(at)) => self.prompts.push((text, at)),
                    _ => self.prompts,
                },
                ..self
            },
            _ => self,
        }
    }

    /// With all changes made.
    pub open spec fn with_all(self, list: Seq<Deed>) -> Held
        decreases list.len(),
    {
        if list.len() == 0 {
            self
        } else {
            self.with_all(list.drop_last()).with(list.last())
        }
    }

    /// What is said once a record has come.
    pub open spec fn told(self, next: Encoded) -> Held {
        let record = next.record;
        let payload = record.payload.value;
        let at = sql_time(record.recorded_at_unix_ms);
        Held {
            fast_mode: if record.is("tact"@, "fast_mode.changed"@) {
                match member(payload, "to"@, 0) {
                    Some(Json::Truth(to)) => Some(to),
                    _ => None,
                }
            } else if record.is("tact"@, "session.started"@) {
                Some(member(payload, "fast_mode"@, 5) == Some(Json::Truth(true)))
            } else {
                self.fast_mode
            },
            effort: if record.is("tact"@, "effort.changed"@) {
                Some("\""@ + text_member(payload, "to"@, 0)->0 + "\""@)
            } else if record.is("tact"@, "session.started"@) {
                Some("\""@ + text_member(payload, "effort"@, 3)->0 + "\""@)
            } else {
                self.effort
            },
            changed_at: Some(at),
            prompts: if record.is("tact"@, "user.submitted"@) || record.is(
                "tact"@,
                "user.steered"@,
            ) {
                self.prompts.push((text_member(payload, "text"@, 0)->0, at))
            } else {
                self.prompts
            },
            records: self.records.push(zstd_frame(next.bytes@, RECORD_COMPRESSION_LEVEL)->0),
        }
    }

    /// What is said once the first `n` records have come.
    pub open spec fn told_all(self, records: Seq<Encoded>, n: int) -> Held
        decreases n,
    {
        if n <= 0 {
            self
        } else {
            self.told_all(records, n - 1).told(records[n - 1])
        }
    }
}

proof fn lemma_with_more(held: Held, a: Seq<Deed>, b: Seq<Deed>)
    ensures
        held.with_all(a + b) == held.with_all(a).with_all(b),
    decreases b.len(),
{
    if b.len() == 0 {
        assert(a + b =~= a);
    } else {
        lemma_with_more(held, a, b.drop_last());
        assert((a + b).drop_last() =~= a + b.drop_last());
    }
}

proof fn lemma_with_one(held: Held, deed: Deed)
    ensures
        held.with_all(seq![deed]) == held.with(deed),
        held.with_all(Seq::empty()) == held,
{
    reveal_with_fuel(Held::with_all, 3);
    assert(seq![deed].drop_last() =~= Seq::<Deed>::empty());
}

proof fn lemma_events(
    held: Held,
    record: TranscriptRecord,
    frame: Seq<u8>,
    prompt: Option<Seq<char>>,
    stream: Option<Seq<char>>,
)
    ensures
        held.with_all(event_deeds(record, frame, prompt, stream)) == (Held {
            changed_at: Some(sql_time(record.recorded_at_unix_ms)),
            prompts: match prompt {
                Some(text) => held.prompts.push((text, sql_time(record.recorded_at_unix_ms))),
                None => held.prompts,
            },
            records: held.records.push(frame),
            ..held
        }),
{
    let list = event_deeds(record, frame, prompt, stream);
    let n = list.len() as int;
    let at = sql_time(record.recorded_at_unix_ms);
    let k: int = if n > 0 && list[0] is DeleteStream {
        1
    } else {
        0
    };
    let dropped = list.take(k);
    let inserted = list[k];
    let rest = list.skip(k + 2);
    assert(inserted is InsertEvent);
    assert(list[k + 1] == Deed::Touch { at });
    assert(list =~= dropped + seq![inserted] + seq![list[k + 1]] + rest);
    lemma_with_one(held, list[0]);
    assert(dropped =~= if k == 1 { seq![list[0]] } else { Seq::empty() });
    assert(held.with_all(dropped) == held);
    lemma_with_one(held, inserted);
    let next = held.with(inserted);
    lemma_with_one(next, list[k + 1]);
    let last = next.with(list[k + 1]);
    lemma_with_one(last, list[k + 2]);
    assert(rest =~= if n > k + 2 { seq![list[k + 2]] } else { Seq::empty() });
    assert(last.with_all(rest) == last);
    lemma_with_more(held, dropped + seq![inserted] + seq![list[k + 1]], rest);
    lemma_with_more(held, dropped + seq![inserted], seq![list[k + 1]]);
    lemma_with_more(held, dropped, seq![inserted]);
}

/// A name that can be read is the name of the effort that it is read as.
pub proof fn law_efforts_are_read_by_name(text: Seq<char>)
    ensures
        ReasoningEffort::named(text) matches Some(effort) ==> effort.name() == text,
{
}

/// A record that switches the fast mode plans that it is switched to what the record says, and
/// nothing else.
pub proof fn law_the_fast_mode_is_stored(record: TranscriptRecord, to: bool)
    requires
        record.is("tact"@, "fast_mode.changed"@),
        member(record.payload.value, "to"@, 0) == Some(Json::Truth(to)),
        setting_deeds(record) is Ok,
    ensures
        setting_deeds(record)->Ok_0 == seq![Deed::SetFastMode { enabled: to }],
{
    reveal_strlit("fast_mode.changed");
    reveal_strlit("effort.changed");
    assert("fast_mode.changed"@.len() != "effort.changed"@.len());
}

proof fn lemma_record(held: Held, turn: Option<u64>, next: Encoded, frame: Seq<u8>)
    requires
        zstd_frame(next.bytes@, RECORD_COMPRESSION_LEVEL) == Some(frame),
        record_deeds(turn, next.record, frame) is Ok,
    ensures
        held.with_all(record_deeds(turn, next.record, frame)->Ok_0) == held.told(next),
{
    reveal_strlit("fast_mode.changed");
    reveal_strlit("effort.changed");
    reveal_strlit("session.started");
    reveal_strlit("user.submitted");
    reveal_strlit("user.steered");
    assert("fast_mode.changed"@.len() == 17);
    assert("effort.changed"@.len() == 14);
    assert("session.started"@.len() == 15);
    assert("user.submitted"@.len() == 14);
    assert("user.submitted"@[0] != "effort.changed"@[0]);
    assert("user.steered"@.len() == 12);
    let record = next.record;
    let first = start_deeds(record)->Ok_0;
    let prompt = prompt_in(record)->Ok_0;
    let stream = stream_in(turn, record)->Ok_0;
    let middle = event_deeds(record, frame, prompt, stream);
    let last = setting_deeds(record)->Ok_0;
    lemma_with_more(held, first + middle, last);
    lemma_with_more(held, first, middle);
    let begun = held.with_all(first);
    lemma_with_one(held, first[0]);
    lemma_events(begun, record, frame, prompt, stream);
    let changed = begun.with_all(middle);
    lemma_with_one(changed, last[0]);
    if record.is("tact"@, "session.started"@) {
        assert(first =~= seq![first[0]]);
        assert(last =~= Seq::empty());
    } else {
        assert(first =~= Seq::empty());
        if record.is("tact"@, "fast_mode.changed"@) || record.is("tact"@, "effort.changed"@) {
            assert(last =~= seq![last[0]]);
        } else {
            assert(last =~= Seq::empty());
        }
    }
}

/// The statements of a batch leave in the database what its records say: every record is there, in
/// order; the fast mode and the effort are those of the last record that speaks of them; the prompts
/// are there with their times; and the session changed when the last record was written.
pub proof fn law_the_database_follows_the_records(
    held: Held,
    turn: Option<u64>,
    records: Seq<Encoded>,
    n: int,
)
    requires
        0 <= n <= records.len(),
        batch_deeds(turn, records, n) is Ok,
    ensures
        held.with_all(batch_deeds(turn, records, n)->Ok_0.0) == held.told_all(records, n),
    decreases n,
{
    lemma_with_one(held, Deed::Touch { at: 0 });
    if n > 0 {
        let (before, held_turn) = batch_deeds(turn, records, n - 1)->Ok_0;
        let next = records[n - 1];
        let frame = zstd_frame(next.bytes@, RECORD_COMPRESSION_LEVEL)->0;
        let now = turn_after(held_turn, next.record)->Ok_0;
        law_the_database_follows_the_records(held, turn, records, n - 1);
        lemma_with_more(held, before, record_deeds(now, next.record, frame)->Ok_0);
        lemma_record(held.with_all(before), now, next, frame);
    }
}

/// The turn that goes on behind a batch is the last one that was accepted in it, or the one before.
pub open spec fn last_accepted(turn: Option<u64>, records: Seq<Encoded>, n: int) -> Option<u64>
    decreases n,
{
    if n <= 0 {
        turn
    } else if records[n - 1].record.is("tact"@, "worker.turn_accepted"@) {
        match member(records[n - 1].record.payload.value, "id"@, 0) {
            Some(value) => value.unsigned(),
            None => None,
        }
    } else {
        last_accepted(turn, records, n - 1)
    }
}

/// The turn that goes on behind a batch is the last one that was accepted in it.
pub proof fn law_the_last_turn_goes_on(turn: Option<u64>, records: Seq<Encoded>, n: int)
    requires
        0 <= n <= records.len(),
        batch_deeds(turn, records, n) is Ok,
    ensures
        batch_deeds(turn, records, n)->Ok_0.1 == last_accepted(turn, records, n),
    decreases n,
{
    if n > 0 {
        law_the_last_turn_goes_on(turn, records, n - 1);
    }
}

/// A field of an object is a text.
pub open spec fn says_text(payload: Json, name: Seq<char>, text: Seq<char>) -> bool {
    payload.at(name) matches Some(Json::Text(value)) && value@ == text
}

/// The first record of a session says what its fields say, each by its name. The parent may be left
/// out or null, the kind of reasoning and the fast mode may be left out.
pub proof fn law_sessions_begin_as_their_records_say(payload: Json)
    requires
        payload is Object,
        beginning_in(payload) is Some,
    ensures
        ({
            let begun = beginning_in(payload)->0;
            &&& says_text(payload, "session_id"@, begun.session_id)
            &&& says_text(payload, "model"@, begun.model)
            &&& says_text(payload, "effort"@, begun.effort.name())
            &&& says_text(payload, "workspace"@, begun.workspace)
            &&& says_text(payload, "application_version"@, begun.application_version)
            &&& begun.parent_session_id matches Some(parent) ==> says_text(
                payload,
                "parent_session_id"@,
                parent,
            )
            &&& begun.parent_session_id is None ==> payload.at("parent_session_id"@) is None
                || payload.at("parent_session_id"@) == Some(Json::Null)
            &&& begun.fast_mode <==> payload.at("fast_mode"@) == Some(Json::Truth(true))
            &&& payload.at("reasoning_mode"@) is None ==> begun.reasoning_mode
                == ReasoningMode::Standard
            &&& payload.at("reasoning_mode"@) is Some ==> says_text(
                payload,
                "reasoning_mode"@,
                begun.reasoning_mode.name(),
            )
        }),
{
}

/// Parts of an answer share a place exactly if they belong to the same turn, the same call and the
/// same phase; so a part of another turn is never dropped with them.
pub proof fn law_turns_keep_their_answers_apart(
    turn: u64,
    other: u64,
    record: TranscriptRecord,
)
    requires
        record.kind@ == "assistant.delta"@ || record.kind@ == "assistant.message"@,
        stream_in(Some(turn), record) is Ok,
        turn != other,
    ensures
        stream_in(Some(other), record) is Ok,
        stream_in(Some(turn), record)->Ok_0 is Some,
        stream_in(Some(turn), record) != stream_in(Some(other), record),
{
    let a = stream_in(Some(turn), record)->Ok_0->0;
    let b = stream_in(Some(other), record)->Ok_0->0;
    let x = decimal(turn as int);
    let y = decimal(other as int);
    if a == b {
        reveal_strlit("[");
        let call = decimal(call_index(record.payload.value)->0 as int);
        let phase = or_text(phase_in(record), "null"@);
        let others = 1 + ","@.len() + call.len() + ","@.len() + phase.len() + "]"@.len();
        assert(a.len() == x.len() + others);
        assert(b.len() == y.len() + others);
        assert(a.subrange(1, x.len() + 1int) =~= x);
        assert(b.subrange(1, y.len() + 1int) =~= y);
        law_numbers_read_back(turn as int, other as int);
    }
}

/// The sessions that can be resumed are all but the active one, in their order.
pub proof fn law_the_active_session_is_left_out(
    sessions: Seq<SessionSummary>,
    active: Seq<char>,
    n: int,
    session: SessionSummary,
)
    requires
        0 <= n <= sessions.len(),
    ensures
        others_in(sessions, active, n).contains(session) <==> session.session_id@ != active
            && exists|i: int| 0 <= i < n && #[trigger] sessions[i] == session,
        others_in(sessions, active, n).len() <= n,
    decreases n,
{
    if n > 0 {
        law_the_active_session_is_left_out(sessions, active, n - 1, session);
        let rest = others_in(sessions, active, n - 1);
        let all = others_in(sessions, active, n);
        if rest.contains(session) {
            let k = choose|k: int| 0 <= k < rest.len() && rest[k] == session;
            assert(all[k] == session);
        }
        if sessions[n - 1].session_id@ != active {
            assert(all[rest.len() as int] == sessions[n - 1]);
            if all.contains(session) {
                let k = choose|k: int| 0 <= k < all.len() && all[k] == session;
                if k < rest.len() {
                    assert(rest[k] == session);
                } else {
                    assert(sessions[n - 1] == session);
                }
            }
        }
    }
}

/// A session begins with the first record that says so.
pub proof fn law_the_first_beginning_counts(records: Seq<TranscriptRecord>, from: int)
    requires
        0 <= from <= records.len(),
    ensures
        from <= start_index(records, from) <= records.len(),
        start_index(records, from) < records.len() ==> records[start_index(records, from)].is(
            "tact"@,
            "session.started"@,
        ),
        forall|i: int|
            from <= i < start_index(records, from) ==> !(#[trigger] records[i]).is(
                "tact"@,
                "session.started"@,
            ),
    decreases records.len() - from,
{
    if from < records.len() && !records[from].is("tact"@, "session.started"@) {
        law_the_first_beginning_counts(records, from + 1);
    }
}

/// A summary tells what is stored.
pub proof fn law_summaries_tell_what_is_stored(stored: StoredSession)
    ensures
        ({
            let summary = summary_of(stored);
            &&& summary.session_id == stored.session_id
            &&& summary.started_at_unix_ms == stored.started_at_unix_ms
            &&& summary.model == stored.model
            &&& summary.effort == stored.effort
            &&& summary.reasoning_mode == stored.reasoning_mode
            &&& summary.workspace == stored.workspace
            &&& summary.preview == stored.preview
        }),
{
}

/// A prompt names its session by its words on one line, and only where it has any.
pub proof fn law_prompts_name_their_session(
    record: TranscriptRecord,
    frame: Seq<u8>,
    prompt: Seq<char>,
    stream: Option<Seq<char>>,
)
    ensures
        ({
            let list = event_deeds(record, frame, Some(prompt), stream);
            let words = on_one_line(prompt, prompt.len() as int);
            &&& words.len() > 0 ==> list.last() == (Deed::SetPreview { preview: words })
            &&& words.len() == 0 ==> list.last() == (Deed::Touch {
                at: sql_time(record.recorded_at_unix_ms),
            })
            &&& forall|i: int|
                0 <= i < event_deeds(record, frame, None, stream).len() ==> !(
                (#[trigger] event_deeds(record, frame, None, stream)[i]) is SetPreview)
        }),
{
}

/// Fields that may be left out are read as nothing, false or standard; a field of another kind
/// cannot be read.
pub proof fn law_fields_may_be_left_out(text: String, truth: bool)
    ensures
        crate::storage::optional_text(None) == Some(None::<Seq<char>>),
        crate::storage::optional_text(Some(Json::Null)) == Some(None::<Seq<char>>),
        crate::storage::optional_text(Some(Json::Text(text))) == Some(Some(text@)),
        crate::storage::optional_text(Some(Json::Truth(truth))) is None,
        crate::storage::optional_truth(None) == Some(false),
        crate::storage::optional_truth(Some(Json::Truth(truth))) == Some(truth),
        crate::storage::optional_truth(Some(Json::Text(text))) is None,
        crate::storage::optional_mode(None) == Some(crate::settings::ReasoningMode::Standard),
        crate::storage::optional_mode(Some(Json::Truth(truth))) is None,
{
}

/// Turns are told apart by their numbers.
pub proof fn law_turns_are_told_apart(a: u64, b: u64)
    ensures
        crate::storage::turn_text(Some(a)) == crate::storage::turn_text(Some(b)) <==> a == b,
        crate::storage::turn_text(None) == "null"@,
{
    if decimal(a as int) == decimal(b as int) {
        law_numbers_read_back(a as int, b as int);
    }
}

/// A time that was stored is read again, up to the largest one that the database holds; no stored
/// time is read as a negative one.
pub proof fn law_times_are_read_again(value: u64, stored: i64)
    ensures
        value <= i64::MAX ==> crate::storage::time_in_sql(crate::storage::sql_time(value)) == value,
        value > i64::MAX ==> crate::storage::sql_time(value) == i64::MAX,
        stored < 0 ==> crate::storage::time_in_sql(stored) == 0,
        stored >= 0 ==> crate::storage::time_in_sql(stored) == stored,
{
}

/// The prompts of a session are what was submitted and what was sent into a turn; no other record
/// holds one.
pub proof fn law_prompts_are_submitted_or_steered(record: TranscriptRecord, text: Seq<char>)
    requires
        record.payload.value is Object,
        record.payload.value.at("text"@) is Some,
        record.payload.value.at("text"@)->0.text() == Some(text),
        crate::record::shaped(record.payload.value, seq!["text"]),
    ensures
        record.is("tact"@, "user.submitted"@) ==> prompt_in(record) is Ok && prompt_in(record)->Ok_0
            == Some(text),
        record.is("tact"@, "user.steered"@) ==> prompt_in(record) is Ok && prompt_in(record)->Ok_0
            == Some(text),
        record.source@ != "tact"@ ==> prompt_in(record) is Ok && prompt_in(record)->Ok_0 is None,
        record.kind@ != "user.submitted"@ && record.kind@ != "user.steered"@ ==> prompt_in(record)
            is Ok && prompt_in(record)->Ok_0 is None,
{
}

} // verus!
