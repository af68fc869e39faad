//! What holds of how calls to the memory are shown.

use crate::json::Json;
use crate::numeral::decimal;
use crate::tool::memory::{
    delete_view, demand_of, find_rows, key_of, keys_of, put_view, read_view, reply_of, scalar_text,
    scan_view, score_text, tells_replaced, without_trailing, Demand, Entry, Find, Key, Reply,
};
use crate::tool::{Topic, ToolEntry, ToolState};
use vstd::prelude::*;

verus! {

/// A memory is named by its id and, where it is known, its version.
pub proof fn law_memories_are_named(id: Seq<char>, version: u64)
    ensures
        (Key { id, version: None }).label() == id,
        (Key { id, version: Some(version) }).label() == id + "@v"@ + decimal(version as int),
{
}

/// The operation of a call is the one that its arguments name, on what they give for it; a call that
/// names another or gives too little has none.
pub proof fn law_operations_are_named(arguments: Json, text: Seq<char>)
    ensures
        demand_of(arguments) is Some ==> arguments.text_at("operation"@) is Some
            && demand_of(arguments)->0.label() == arguments.text_at("operation"@)->0,
        arguments.text_at("operation"@) == Some("scan"@) && arguments.text_at("query"@) == Some(
            text,
        ) ==> demand_of(arguments) == Some(Demand::Scan { query: text }),
        arguments.text_at("operation"@) == Some("put"@) && arguments.text_at("content"@) == Some(
            text,
        ) && arguments.at("replace"@) is None ==> demand_of(arguments) == Some(
            Demand::Put { content: text, replace: None },
        ),
        arguments.text_at("operation"@) is None ==> demand_of(arguments) is None,
{
    reveal_strlit("scan");
    reveal_strlit("read");
    reveal_strlit("put");
    reveal_strlit("delete");
    assert("scan"@[0] == 's' && "read"@[0] == 'r');
    assert("put"@.len() == 3 && "delete"@.len() == 6);
}

/// A memory is deleted or replaced only in a version that is named.
pub proof fn law_changes_name_a_version(arguments: Json)
    ensures
        demand_of(arguments) matches Some(Demand::Delete { key }) ==> key.version is Some,
        demand_of(arguments) matches Some(Demand::Put { replace: Some(key), .. }) ==> key.version
            is Some,
{
}

/// The keys of a list are those of its values, in their order, and every one of them is a key.
pub proof fn law_keys_are_read_in_order(values: Seq<Json>, n: int)
    requires
        0 <= n <= values.len(),
    ensures
        keys_of(values, n) is Some <==> forall|i: int|
            0 <= i < n ==> key_of(#[trigger] values[i]) is Some,
        keys_of(values, n) matches Some(keys) ==> keys.len() == n && forall|i: int|
            0 <= i < n ==> Some(#[trigger] keys[i]) == key_of(values[i]),
    decreases n,
{
    if n > 0 {
        law_keys_are_read_in_order(values, n - 1);
    }
}

/// A call without a result is pending, and one that failed with an error has failed; a result of
/// another operation is none.
pub proof fn law_results_belong_to_their_calls(tool: ToolEntry, operation: Seq<char>)
    ensures
        tool.result is None ==> reply_of(tool, operation) == Some(Reply::Pending),
        tool.result matches Some(document) ==> tool.state == ToolState::Failed
            && document.value.text_at("error"@) is Some ==> reply_of(tool, operation) == Some(
            Reply::Failed,
        ),
        tool.result matches Some(document) ==> tool.state != ToolState::Failed
            && document.value.text_at("operation"@) != Some(operation) ==> reply_of(tool, operation)
            is None,
{
}

/// A result that says that nothing was replaced says so; any other value says that something was.
pub proof fn law_replacements_are_told(value: Json)
    ensures
        !tells_replaced(Json::Null),
        !tells_replaced(Json::Truth(false)),
        tells_replaced(Json::Truth(true)),
        value is Text || value is Number ==> tells_replaced(value),
{
}

/// A memory that was stored is told apart from one that was replaced, and either from one that is
/// still to be.
pub proof fn law_stored_memories_are_told(
    content: Seq<char>,
    key: Key,
    entry: Entry,
    width: int,
    expanded: bool,
)
    ensures
        put_view(content, None, Reply::Put { entry, replaced: false }, width, expanded).title
            == "Memory stored"@,
        put_view(content, Some(key), Reply::Put { entry, replaced: true }, width, expanded).title
            == "Memory replaced"@,
        put_view(content, None, Reply::Pending, width, expanded).title == "Memory store"@,
        put_view(content, Some(key), Reply::Pending, width, expanded).title == "Memory replace"@,
        put_view(content, None, Reply::Put { entry, replaced: false }, width, expanded).subject
            == Topic::Plain(entry.key.label()),
        delete_view(key, Reply::Delete { key: entry.key }, width, expanded).title
            == "Memory deleted"@,
        delete_view(key, Reply::Delete { key: entry.key }, width, expanded).subject == Topic::Plain(
            entry.key.label(),
        ),
        delete_view(key, Reply::Pending, width, expanded).title == "Memory delete"@,
        delete_view(key, Reply::Pending, width, expanded).subject == Topic::Plain(key.label()),
{
}

/// A scan tells how many it found, or that it abstained; unfolded it shows eight at most, the first
/// ones.
pub proof fn law_scans_tell_what_they_found(
    query: Seq<char>,
    finds: Seq<Find>,
    width: int,
)
    ensures
        ({
            let found = scan_view(query, Reply::Scan { abstained: false, finds }, width, true);
            let nothing = scan_view(query, Reply::Scan { abstained: true, finds }, width, true);
            &&& found.subject == Topic::Plain(query)
            &&& finds.len() == 1 ==> found.outcome == Some(decimal(1) + " "@ + "candidate"@)
            &&& finds.len() != 1 ==> found.outcome == Some(
                decimal(finds.len() as int) + " "@ + "candidates"@,
            )
            &&& nothing.outcome == Some("abstained"@)
            &&& finds.len() <= 8 ==> found.details == find_rows(finds, finds.len() as int, width)
            &&& finds.len() > 8 ==> found.details == find_rows(finds, 8, width)
            &&& scan_view(query, Reply::Pending, width, true).outcome is None
        }),
{
}

/// A reading tells how many memories it read.
pub proof fn law_readings_are_counted(keys: Seq<Key>, entries: Seq<Entry>, width: int)
    ensures
        entries.len() == 1 ==> read_view(keys, Reply::Read { entries }, width, false).outcome
            == Some(decimal(1) + " "@ + "memory"@),
        entries.len() != 1 ==> read_view(keys, Reply::Read { entries }, width, false).outcome
            == Some(decimal(entries.len() as int) + " "@ + "memories"@),
        read_view(keys, Reply::Pending, width, false).outcome is None,
{
}

/// What is cut off the end of a text is one character over and over, and all of it.
pub proof fn law_trailing_characters_are_cut(s: Seq<char>, c: char)
    ensures
        without_trailing(s, c).is_prefix_of(s),
        without_trailing(s, c).len() > 0 ==> without_trailing(s, c).last() != c,
        forall|i: int| without_trailing(s, c).len() <= i < s.len() ==> #[trigger] s[i] == c,
    decreases s.len(),
{
    if s.len() > 0 && s.last() == c {
        law_trailing_characters_are_cut(s.drop_last(), c);
        assert forall|i: int| without_trailing(s, c).len() <= i < s.len() implies #[trigger] s[i]
            == c by {
            if i < s.len() - 1 {
                assert(s.drop_last()[i] == s[i]);
            }
        }
    }
}

/// A score is shown without the zeros at its end, and a whole one without its point.
pub proof fn law_scores_are_short(thousandths: Seq<char>)
    ensures
        score_text(thousandths).is_prefix_of(thousandths),
        score_text(thousandths).len() > 0 ==> score_text(thousandths).last() != '.',
        forall|i: int|
            score_text(thousandths).len() <= i < thousandths.len() ==> #[trigger] thousandths[i]
                == '0' || thousandths[i] == '.',
{
    let short = without_trailing(thousandths, '0');
    law_trailing_characters_are_cut(thousandths, '0');
    law_trailing_characters_are_cut(short, '.');
    let part = score_text(thousandths);
    assert(part =~= thousandths.take(part.len() as int)) by {
        assert(short == thousandths.take(short.len() as int));
        assert(part == short.take(part.len() as int));
    }
    assert forall|i: int| part.len() <= i < thousandths.len() implies #[trigger] thousandths[i]
        == '0' || thousandths[i] == '.' by {
        if i < short.len() {
            assert(thousandths.take(short.len() as int)[i] == thousandths[i]);
            assert(short[i] == '.');
        }
    }
}

/// A value that is no list and no object is shown as it is written.
pub proof fn law_simple_values_are_shown(value: Json)
    ensures
        value matches Json::Text(text) ==> scalar_text(value) == Some(text@),
        value matches Json::Number(number) ==> scalar_text(value) == Some(number.text@),
        scalar_text(Json::Truth(true)) == Some("true"@),
        scalar_text(Json::Truth(false)) == Some("false"@),
        value is List || value is Object || value is Null ==> scalar_text(value) is None,
{
}

proof fn lemma_parts_stay(fields: Seq<crate::json::Field>, m: int, n: int, part: Seq<char>)
    requires
        0 <= m <= n,
        crate::tool::memory::metadata_parts(fields, m).contains(part),
    ensures
        crate::tool::memory::metadata_parts(fields, n).contains(part),
    decreases n,
{
    if m < n {
        lemma_parts_stay(fields, m, n - 1, part);
        let front = crate::tool::memory::metadata_parts(fields, n - 1);
        let all = crate::tool::memory::metadata_parts(fields, n);
        let k = choose|k: int| 0 <= k < front.len() && front[k] == part;
        assert(all[k] == part);
    }
}

/// The fields with these names are shown under these labels.
pub open spec fn is_shown(fields: Seq<crate::json::Field>, name: Seq<char>, label: Seq<char>) -> bool {
    match crate::json::last_field(fields, name, fields.len() as int) {
        Some(value) => scalar_text(value) matches Some(text)
            ==> crate::tool::memory::metadata_parts(fields, 7).contains(label + text),
        None => true,
    }
}

proof fn lemma_part(fields: Seq<crate::json::Field>, i: int)
    requires
        0 <= i < 7,
    ensures
        is_shown(
            fields,
            crate::tool::memory::shown_fields()[i]@,
            crate::tool::memory::field_labels()[i]@ + " "@,
        ),
{
    let name = crate::tool::memory::shown_fields()[i]@;
    if let Some(value) = crate::json::last_field(fields, name, fields.len() as int) {
        if let Some(text) = scalar_text(value) {
            let part = crate::tool::memory::field_labels()[i]@ + " "@ + text;
            let all = crate::tool::memory::metadata_parts(fields, i + 1);
            assert(all.last() == part);
            lemma_parts_stay(fields, i + 1, 7, part);
        }
    }
}

proof fn lemma_part_count(fields: Seq<crate::json::Field>, n: int)
    requires
        0 <= n <= 7,
    ensures
        crate::tool::memory::metadata_parts(fields, n).len() <= n,
        (forall|i: int|
            0 <= i < n ==> crate::json::last_field(
                fields,
                (#[trigger] crate::tool::memory::shown_fields()[i])@,
                fields.len() as int,
            ) is None) ==> crate::tool::memory::metadata_parts(fields, n).len() == 0,
    decreases n,
{
    if n > 0 {
        lemma_part_count(fields, n - 1);
        let name = crate::tool::memory::shown_fields()[n - 1];
    }
}

/// When a memory was made, changed, scanned and used, how often, and until when it is on probation is
/// told with a label each; a memory without fields tells nothing.
pub proof fn law_fields_are_labelled(fields: Seq<crate::json::Field>)
    ensures
        is_shown(fields, "created_at_ms"@, "created "@),
        is_shown(fields, "updated_at_ms"@, "updated "@),
        is_shown(fields, "last_scanned_at_ms"@, "last scanned "@),
        is_shown(fields, "scan_count"@, "scans "@),
        is_shown(fields, "last_used_at_ms"@, "last used "@),
        is_shown(fields, "use_count"@, "uses "@),
        is_shown(fields, "probation_until_ms"@, "probation until "@),
        crate::tool::memory::metadata_parts(fields, 7).len() <= 7,
        fields.len() == 0 ==> crate::tool::memory::metadata_text(fields) is None,
        crate::tool::memory::metadata_text(fields) is None
            <==> crate::tool::memory::metadata_parts(fields, 7).len() == 0,
{
    reveal_strlit(" ");
    reveal_strlit("created");
    reveal_strlit("created ");
    reveal_strlit("updated");
    reveal_strlit("updated ");
    reveal_strlit("last scanned");
    reveal_strlit("last scanned ");
    reveal_strlit("scans");
    reveal_strlit("scans ");
    reveal_strlit("last used");
    reveal_strlit("last used ");
    reveal_strlit("uses");
    reveal_strlit("uses ");
    reveal_strlit("probation until");
    reveal_strlit("probation until ");
    assert("created"@ + " "@ =~= "created "@);
    assert("updated"@ + " "@ =~= "updated "@);
    assert("last scanned"@ + " "@ =~= "last scanned "@);
    assert("scans"@ + " "@ =~= "scans "@);
    assert("last used"@ + " "@ =~= "last used "@);
    assert("uses"@ + " "@ =~= "uses "@);
    assert("probation until"@ + " "@ =~= "probation until "@);
    lemma_part(fields, 0);
    lemma_part(fields, 1);
    lemma_part(fields, 2);
    lemma_part(fields, 3);
    lemma_part(fields, 4);
    lemma_part(fields, 5);
    lemma_part(fields, 6);
    lemma_part_count(fields, 7);
}

/// A key is looked for in the object under its name, where there is one, and in the value itself
/// otherwise.
pub proof fn law_keys_may_be_nested(value: Json, inner: Json)
    ensures
        value is Object && value.at("key"@) == Some(inner) && inner is Object && inner.at("key"@)
            is None ==> key_of(value) == key_of(inner),
        value is Object && value.at("key"@) is None && value.at("id"@) is None ==> key_of(value)
            is None,
{
}

/// A list of keys is read only as a whole, and only where it holds any.
pub proof fn law_empty_lists_name_nothing(value: Json)
    ensures
        value.list() is None ==> crate::tool::memory::key_list(value) is None,
        crate::tool::memory::key_list(value) matches Some(keys) ==> keys.len() > 0 && value.list()
            is Some && keys.len() == value.list()->0.len(),
{
    if let Some(values) = value.list() {
        law_keys_are_read_in_order(values, values.len() as int);
    }
}

/// What was found has a key, a preview and a score; what was read has a key and a content. Without
/// one of them there is nothing.
pub proof fn law_finds_and_memories_are_complete(value: Json)
    ensures
        crate::tool::memory::find_of(value) is Some <==> value.at("score"@) is Some && value.at(
            "score"@,
        )->0.thousandths() is Some && key_of(value) is Some && value.text_at("preview"@) is Some,
        crate::tool::memory::find_of(value) matches Some(found) ==> Some(found.key) == key_of(value)
            && Some(found.preview) == value.text_at("preview"@),
        crate::tool::memory::entry_of(value) matches Some(entry) ==> Some(entry.key) == key_of(value)
            && Some(entry.content) == value.text_at("content"@),
        value is Object ==> (crate::tool::memory::entry_of(value) is Some <==> key_of(value) is Some
            && value.text_at("content"@) is Some),
{
}

/// A call whose arguments or whose result are not understood is shown like any other tool's; one
/// that is understood is shown by its operation.
pub proof fn law_strange_calls_are_shown_plainly(tool: ToolEntry, width: int, expanded: bool)
    ensures
        demand_of(tool.arguments.value) is None ==> crate::tool::memory::memory_view(
            tool,
            width,
            expanded,
        ) == crate::tool::generic_view(tool, width, expanded),
        demand_of(tool.arguments.value) is Some && demand_of(tool.arguments.value)->0 is Scan
            && tool.result is None ==> crate::tool::memory::memory_view(tool, width, expanded).title
            == "Memory scan"@,
        demand_of(tool.arguments.value) is Some && demand_of(tool.arguments.value)->0 is Read
            && tool.result is None ==> crate::tool::memory::memory_view(tool, width, expanded).title
            == "Memory read"@,
        demand_of(tool.arguments.value) is Some && demand_of(tool.arguments.value)->0 is Delete
            && tool.result is None ==> crate::tool::memory::memory_view(tool, width, expanded).title
            == "Memory delete"@,
{
}

/// What was found and what was read is given in its order, all of it or nothing.
pub proof fn law_results_are_read_in_order(values: Seq<Json>, n: int)
    requires
        0 <= n <= values.len(),
    ensures
        crate::tool::memory::finds_of(values, n) is Some <==> forall|i: int|
            0 <= i < n ==> crate::tool::memory::find_of(#[trigger] values[i]) is Some,
        crate::tool::memory::finds_of(values, n) matches Some(finds) ==> finds.len() == n
            && forall|i: int|
            0 <= i < n ==> Some(#[trigger] finds[i]) == crate::tool::memory::find_of(values[i]),
        crate::tool::memory::entries_of(values, n) is Some <==> forall|i: int|
            0 <= i < n ==> crate::tool::memory::entry_of(#[trigger] values[i]) is Some,
        crate::tool::memory::entries_of(values, n) matches Some(entries) ==> entries.len() == n
            && forall|i: int|
            0 <= i < n ==> Some(#[trigger] entries[i]) == crate::tool::memory::entry_of(values[i]),
    decreases n,
{
    if n > 0 {
        law_results_are_read_in_order(values, n - 1);
    }
}

/// A memory is shown by its key, then its content, then what is known of it; several are shown one
/// below the other.
pub proof fn law_memories_are_shown(entry: Entry, width: int)
    ensures
        ({
            let key = crate::wrap::wrapped_text(
                entry.key.label(),
                width,
                crate::draw::colored(crate::draw::Tone::Accent),
            );
            let content = crate::wrap::wrapped_text(
                entry.content,
                width,
                crate::draw::colored(crate::draw::Tone::Text),
            );
            &&& entry.fields.len() == 0 ==> crate::tool::memory::entry_rows(entry, width) == key
                + content
            &&& crate::tool::memory::entry_rows(entry, width).take(key.len() as int) == key
            &&& crate::tool::memory::all_entry_rows(seq![entry], 1, width)
                == crate::tool::memory::entry_rows(entry, width)
        }),
{
    law_fields_are_labelled(entry.fields);
    reveal_with_fuel(crate::tool::memory::all_entry_rows, 2);
    let key = crate::wrap::wrapped_text(
        entry.key.label(),
        width,
        crate::draw::colored(crate::draw::Tone::Accent),
    );
    let rows = crate::tool::memory::entry_rows(entry, width);
    assert(rows.take(key.len() as int) =~= key);
    let content = crate::wrap::wrapped_text(
        entry.content,
        width,
        crate::draw::colored(crate::draw::Tone::Text),
    );
    if entry.fields.len() == 0 {
        assert(rows =~= key + content);
    }
    assert(Seq::<Seq<crate::draw::Word>>::empty() + rows =~= rows);
}

} // verus!
